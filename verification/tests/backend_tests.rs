use chaz::backends::{
    Backend, BackendManager, BackendType, ChatContext, ChatRole, ExecutionPlan, Message,
};
use chaz::role::RoleDetails;

fn http_backend(name: Option<&str>, models: &[&str]) -> Backend {
    let mut b = Backend::new(BackendType::OpenAICompatible);
    b.name = name.map(|n| n.to_string());
    b.models = Some(models.iter().map(|m| m.to_string()).collect());
    b.api_base = Some("https://example.invalid/v1".to_string());
    b.api_key = Some("SECRET-REDACTED".to_string());
    b
}

fn aichat_backend(name: Option<&str>) -> Backend {
    let mut b = Backend::new(BackendType::AIChat);
    b.name = name.map(|n| n.to_string());
    b
}

fn empty_context() -> ChatContext {
    ChatContext {
        messages: Vec::new(),
        model: None,
        media: Vec::new(),
        role: None,
    }
}

#[test]
fn single_backend_accepts_any_model_name() {
    let manager = BackendManager::new(&Some(vec![http_backend(Some("a"), &["m1"])]));
    assert!(manager.validate_model("anything").is_ok());
    assert!(manager.validate_model("").is_ok());
}

#[test]
fn two_backends_require_prefixed_model_names() {
    let manager = BackendManager::new(&Some(vec![
        http_backend(Some("a"), &["m1"]),
        http_backend(Some("b"), &["gpt-x"]),
    ]));
    assert!(manager.validate_model("b:gpt-x").is_ok());
    let err = manager.validate_model("gpt-x").unwrap_err();
    assert_eq!(
        err,
        "Multiple backends exist, please specify the model name with the backend prepended, e.g. openai:gpt-4o or aichat:ollama:llama3"
    );
}

#[test]
fn listed_models_are_prefixed_only_with_several_backends() {
    let one = BackendManager::new(&Some(vec![http_backend(Some("a"), &["m1", "m2"])]));
    assert_eq!(one.list_known_models(), vec!["m1".to_string(), "m2".to_string()]);

    let two = BackendManager::new(&Some(vec![
        http_backend(Some("a"), &["m1", "m2"]),
        http_backend(Some("b"), &["gpt-x"]),
    ]));
    assert_eq!(
        two.list_known_models(),
        vec!["a:m1".to_string(), "a:m2".to_string(), "b:gpt-x".to_string()]
    );
}

#[test]
fn known_models_are_recognized() {
    let two = BackendManager::new(&Some(vec![
        http_backend(Some("a"), &["m1"]),
        http_backend(Some("b"), &["gpt-x"]),
    ]));
    assert!(two.is_known_model("a:m1"));
    assert!(!two.is_known_model("m1"));
}

#[test]
fn backend_names_default_by_kind() {
    assert_eq!(aichat_backend(None).get_name(), "aichat");
    assert_eq!(http_backend(None, &[]).get_name(), "openai");
    assert_eq!(aichat_backend(Some("mine")).get_name(), "mine");
    let manager = BackendManager::new(&Some(vec![
        aichat_backend(Some("mine")),
        http_backend(None, &[]),
    ]));
    assert_eq!(
        manager.list_known_backends(),
        vec!["mine".to_string(), "openai".to_string()]
    );
}

#[test]
fn default_model_is_namespaced_with_several_backends() {
    let one = BackendManager::new(&Some(vec![http_backend(Some("a"), &["m1", "m2"])]));
    assert_eq!(one.default_model().as_deref(), Some("m1"));

    let two = BackendManager::new(&Some(vec![
        http_backend(Some("a"), &["m1"]),
        http_backend(Some("b"), &["gpt-x"]),
    ]));
    assert_eq!(two.default_model().as_deref(), Some("a:m1"));

    let mut probed = aichat_backend(None);
    probed.default_model = Some("gpt-4o".to_string());
    let sub = BackendManager::new(&Some(vec![probed]));
    assert_eq!(sub.default_model().as_deref(), Some("gpt-4o"));
}

#[test]
fn unnamed_backends_answer_to_their_default_name() {
    // An unnamed subprocess backend's display name is "aichat": that prefix
    // validates and routes to it, and a bare separator passes nothing.
    let manager = BackendManager::new(&Some(vec![
        http_backend(Some("a"), &["m1"]),
        aichat_backend(None),
    ]));
    assert!(manager.validate_model("aichat:gpt-4o").is_ok());
    assert!(manager.validate_model("gpt-4o").is_err());
    assert!(manager.validate_model(":gpt-4o").is_err());

    let mut ctx = empty_context();
    ctx.model = Some("aichat:gpt-4o".to_string());
    match manager.plan_execute(&ctx).unwrap() {
        ExecutionPlan::Subprocess { args, .. } => {
            assert_eq!(
                args,
                vec![
                    "--no-stream".to_string(),
                    "--model".to_string(),
                    "gpt-4o".to_string(),
                    "--".to_string(),
                    "ASSISTANT: ".to_string(),
                ]
            );
        }
        _ => panic!("expected a subprocess plan"),
    }
}

#[test]
fn executing_without_backends_is_an_error() {
    let manager = BackendManager::new(&Some(Vec::new()));
    let err = manager.plan_execute(&empty_context()).unwrap_err();
    assert_eq!(err, "No backends configured");
}

#[test]
fn http_backend_without_credentials_fails_fast() {
    let mut b = http_backend(Some("a"), &["m1"]);
    b.api_key = None;
    let manager = BackendManager::new(&Some(vec![b]));
    let err = manager.plan_execute(&empty_context()).unwrap_err();
    assert_eq!(err, "API key doesn't exist");

    let mut b = http_backend(Some("a"), &["m1"]);
    b.api_base = None;
    let manager = BackendManager::new(&Some(vec![b]));
    let err = manager.plan_execute(&empty_context()).unwrap_err();
    assert_eq!(err, "API base doesn't exist");
}

#[test]
fn http_plan_strips_prefix_and_falls_back_to_default() {
    let manager = BackendManager::new(&Some(vec![
        http_backend(Some("a"), &["m1", "m2"]),
        http_backend(Some("b"), &["gpt-x"]),
    ]));
    let mut ctx = empty_context();
    ctx.messages.push(Message::new(ChatRole::User, "hi".to_string()));
    ctx.model = Some("a:m2".to_string());
    ctx.role = Some(RoleDetails::new(
        "helper".to_string(),
        None,
        Some("Be helpful.".to_string()),
        None,
    ));
    match manager.plan_execute(&ctx).unwrap() {
        ExecutionPlan::Http {
            api_base,
            api_key,
            model,
            messages,
        } => {
            assert_eq!(api_base, "https://example.invalid/v1");
            assert_eq!(api_key, "SECRET-REDACTED");
            assert_eq!(model, "m2");
            assert_eq!(messages.len(), 2);
            assert!(messages[0].role == ChatRole::System);
            assert_eq!(messages[0].content, "Be helpful.");
            assert!(messages[1].role == ChatRole::User);
            assert_eq!(messages[1].content, "hi");
        }
        _ => panic!("expected an HTTP plan"),
    }

    // The bare prefix leaves nothing: the backend's first model steps in.
    let mut ctx = empty_context();
    ctx.model = Some("a:".to_string());
    match manager.plan_execute(&ctx).unwrap() {
        ExecutionPlan::Http { model, .. } => assert_eq!(model, "m1"),
        _ => panic!("expected an HTTP plan"),
    }
}

#[test]
fn model_prefix_selects_the_backend() {
    let manager = BackendManager::new(&Some(vec![
        http_backend(Some("a"), &["m1"]),
        aichat_backend(Some("cli")),
    ]));
    let mut ctx = empty_context();
    ctx.model = Some("cli:gpt".to_string());
    match manager.plan_execute(&ctx).unwrap() {
        ExecutionPlan::Subprocess { binary, args, .. } => {
            assert_eq!(binary, "aichat");
            assert_eq!(
                args,
                vec![
                    "--no-stream".to_string(),
                    "--model".to_string(),
                    "gpt".to_string(),
                    "--".to_string(),
                    "ASSISTANT: ".to_string(),
                ]
            );
        }
        _ => panic!("expected a subprocess plan"),
    }

    // An unmatched prefix falls back to the first backend.
    let mut ctx = empty_context();
    ctx.model = Some("nobody:x".to_string());
    assert!(matches!(
        manager.plan_execute(&ctx).unwrap(),
        ExecutionPlan::Http { .. }
    ));
}

#[test]
fn subprocess_plan_carries_media_and_prompt() {
    let mut b = aichat_backend(None);
    b.config_dir = Some("/tmp/aichat".to_string());
    let manager = BackendManager::new(&Some(vec![b]));
    let mut ctx = empty_context();
    ctx.messages.push(Message::new(ChatRole::User, "look".to_string()));
    ctx.media.push("/tmp/img1".to_string());
    ctx.media.push("/tmp/img2".to_string());
    match manager.plan_execute(&ctx).unwrap() {
        ExecutionPlan::Subprocess {
            binary,
            args,
            config_dir,
        } => {
            assert_eq!(binary, "aichat");
            assert_eq!(config_dir.as_deref(), Some("/tmp/aichat"));
            assert_eq!(
                args,
                vec![
                    "--no-stream".to_string(),
                    "--file".to_string(),
                    "/tmp/img1".to_string(),
                    "/tmp/img2".to_string(),
                    "--".to_string(),
                    "USER: look\nASSISTANT: ".to_string(),
                ]
            );
        }
        _ => panic!("expected a subprocess plan"),
    }
}

#[test]
fn prompts_render_role_and_transcript() {
    let mut ctx = empty_context();
    ctx.messages.push(Message::new(ChatRole::User, "hi".to_string()));
    ctx.messages.push(Message::new(ChatRole::Assistant, "yo".to_string()));
    assert_eq!(ctx.string_prompt(), "USER: hi\nASSISTANT: yo\nASSISTANT: ");

    ctx.role = Some(RoleDetails::new(
        "helper".to_string(),
        None,
        Some("Be helpful.".to_string()),
        None,
    ));
    assert_eq!(
        ctx.string_prompt_with_role(),
        "Be helpful.\nUSER: hi\nASSISTANT: yo\nASSISTANT: "
    );
}

#[test]
fn message_display_string_uses_role_labels() {
    let m = Message::new(ChatRole::System, "rules".to_string());
    assert_eq!(m.display_string(), "SYSTEM: rules");
}
