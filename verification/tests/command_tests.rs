use chaz::backends::{Backend, BackendManager, BackendType};
use chaz::commands::{
    list_models_response, model_command_reply, parse_backend_command, send_command_text,
};
use chaz::defaults::default_roles;
use chaz::role::{get_role, prepend_role, prepend_role_internal, role_report, RoleDetails};
use chaz::{is_command, is_marked_command};

fn http_backend(name: &str, models: &[&str]) -> Backend {
    let mut b = Backend::new(BackendType::OpenAICompatible);
    b.name = Some(name.to_string());
    b.models = Some(models.iter().map(|m| m.to_string()).collect());
    b.api_base = Some("https://example.invalid/v1".to_string());
    b.api_key = Some("SECRET-REDACTED".to_string());
    b
}

#[test]
fn command_lines_start_with_a_single_marker() {
    assert!(is_command(".help"));
    assert!(!is_command("..literal"));
    assert!(!is_command("help"));
    assert!(!is_command(""));
    assert!(is_marked_command('!', "!chaz help"));
    assert!(!is_marked_command('!', "!!chaz help"));
}

#[test]
fn backend_registration_needs_three_arguments() {
    let parsed = parse_backend_command("!chaz backend mine https://mine.invalid SECRET-REDACTED");
    let (name, url, token) = parsed.unwrap();
    assert_eq!(name, "mine");
    assert_eq!(url, "https://mine.invalid");
    assert_eq!(token, "SECRET-REDACTED");
    assert!(parse_backend_command("!chaz backend mine https://mine.invalid").is_none());
}

#[test]
fn send_command_keeps_the_message_after_the_command_words() {
    assert_eq!(send_command_text("!chaz send  hello   there"), "hello there");
    assert_eq!(send_command_text("!chaz send"), "");
    assert_eq!(send_command_text(""), "");
}

#[test]
fn model_listing_reply_shows_current_backends_and_models() {
    let manager = BackendManager::new(&Some(vec![
        http_backend("a", &["m1"]),
        http_backend("b", &["gpt-x"]),
    ]));
    let reply = list_models_response(&manager, &None);
    assert_eq!(
        reply,
        "!chaz Current Model: a:m1\n\nKnown Backends:\na\nb\n\nKnown Models:\na:m1\nb:gpt-x"
    );
    let reply = list_models_response(&manager, &Some("b:gpt-x".to_string()));
    assert!(reply.starts_with("!chaz Current Model: b:gpt-x\n"));
}

#[test]
fn model_selection_replies_by_validity() {
    let manager = BackendManager::new(&Some(vec![
        http_backend("a", &["m1"]),
        http_backend("b", &["gpt-x"]),
    ]));
    assert_eq!(model_command_reply(&manager, "a:m1"), "!chaz Model set to \"a:m1\"");
    assert_eq!(
        model_command_reply(&manager, "gpt-x"),
        "!chaz Error: Multiple backends exist, please specify the model name with the backend prepended, e.g. openai:gpt-4o or aichat:ollama:llama3"
    );
    assert_eq!(
        model_command_reply(&manager, "b:unheard-of"),
        "!chaz Model b:unheard-of is unknown, but may be valid. Please manually verify that it is supported by your desired backend."
    );
}

#[test]
fn built_in_roles_resolve_by_name_after_user_roles() {
    let defaults = default_roles();
    assert_eq!(defaults.len(), 8);
    let found = get_role(Some("cave-chaz".to_string()), None, Some(defaults.clone())).unwrap();
    assert_eq!(found.name, "cave-chaz");

    // A user-defined role of the same name wins.
    let user = vec![RoleDetails::new(
        "cave-chaz".to_string(),
        Some("mine".to_string()),
        None,
        None,
    )];
    let found = get_role(
        Some("cave-chaz".to_string()),
        Some(user),
        Some(defaults),
    )
    .unwrap();
    assert_eq!(found.description.as_deref(), Some("mine"));
}

#[test]
fn role_preambles_carry_prompt_and_example() {
    let defaults = default_roles();
    let chaz_role = get_role(Some("chaz".to_string()), None, Some(defaults.clone())).unwrap();
    let text = prepend_role_internal("hi".to_string(), &chaz_role);
    assert_eq!(
        text,
        "Your name is Chaz, you are an AI assistant, and you refer to yourself in the third person.\nUSER: Are you ready?\nASSISTANT: Chaz is ready.\nhi"
    );

    // An unknown role leaves the message unchanged.
    let text = prepend_role("hi".to_string(), Some("nobody".to_string()), None, Some(defaults));
    assert_eq!(text, "hi");
}

#[test]
fn role_reports_describe_the_role() {
    let defaults = default_roles();
    let report = role_report(Some("bash".to_string()), None, Some(defaults.clone())).unwrap();
    assert!(report.starts_with("Role: bash\nDescription: Get a bash shell command\nPrompt: "));
    let report = role_report(Some("chaz".to_string()), None, Some(defaults.clone())).unwrap();
    assert!(report.ends_with(
        "Example Messages:\n  USER: Are you ready?\n  ASSISTANT: Chaz is ready.\n"
    ));
    assert!(role_report(Some("nobody".to_string()), None, Some(defaults)).is_none());
}

#[test]
fn chat_summary_model_and_media_flag_come_from_the_config() {
    let config = chaz::config::Config {
        homeserver_url: "https://home.invalid".to_string(),
        username: "bot".to_string(),
        password: None,
        allow_list: None,
        message_limit: None,
        room_size_limit: None,
        state_dir: None,
        chat_summary_model: Some("a:m1".to_string()),
        role: None,
        roles: None,
        disable_media_context: Some(true),
        backends: None,
    };
    assert_eq!(config.get_chat_summary_model().as_deref(), Some("a:m1"));
    assert!(!config.media_context_enabled());
}
