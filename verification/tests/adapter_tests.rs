use chaz::aichat::{interpret_output, parse_default_model, parse_model_list, AiChat};
use chaz::backends::{Backend, BackendType, ChatContext, ChatRole, Message};
use chaz::openai::{convert_to_chat_request, response_text, OpenAI};
use chaz::role::RoleDetails;
use chaz::summary::{clean_summary_response, title_request_message, topic_request_message};

#[test]
fn model_listing_drops_blank_lines() {
    let models = parse_model_list("openai:gpt-4o\n\nollama:llama3\n");
    assert_eq!(
        models,
        vec!["openai:gpt-4o".to_string(), "ollama:llama3".to_string()]
    );
    assert!(parse_model_list("").is_empty());
}

#[test]
fn default_model_comes_from_the_model_line() {
    let out = "client          openai\nmodel           openai:gpt-4o\ntemperature     -\n";
    assert_eq!(parse_default_model(out).as_deref(), Some("openai:gpt-4o"));
    assert_eq!(parse_default_model("nothing here\n"), None);
    // A bare "model" line names no model.
    assert_eq!(parse_default_model("model\n"), None);
}

#[test]
fn run_output_prefers_stdout_and_reports_decode_failures() {
    let ok = interpret_output(b"answer\n".to_vec(), b"".to_vec());
    assert_eq!(ok.unwrap(), "answer\n");

    let failed = interpret_output(Vec::new(), b"boom".to_vec());
    assert_eq!(failed.unwrap_err(), "boom");

    let bad_stdout = interpret_output(vec![0xff, 0xfe], Vec::new());
    assert_eq!(bad_stdout.unwrap_err(), "Error decoding stdout");

    let bad_stderr = interpret_output(Vec::new(), vec![0xff]);
    assert_eq!(bad_stderr.unwrap_err(), "Error decoding stderr");
}

#[test]
fn aichat_adapter_remembers_its_configuration() {
    let mut backend = Backend::new(BackendType::AIChat);
    backend.config_dir = Some("/etc/aichat".to_string());
    let adapter = AiChat::new(&backend);
    assert_eq!(adapter.binary_location, "aichat");
    assert_eq!(adapter.config_dir.as_deref(), Some("/etc/aichat"));
}

#[test]
fn openai_adapter_lists_declared_models() {
    let mut backend = Backend::new(BackendType::OpenAICompatible);
    backend.models = Some(vec!["m1".to_string(), "m2".to_string()]);
    let adapter = OpenAI::new(&backend);
    assert_eq!(adapter.list_models(), vec!["m1".to_string(), "m2".to_string()]);
    assert_eq!(adapter.default_model().as_deref(), Some("m1"));

    let bare = OpenAI::new(&Backend::new(BackendType::OpenAICompatible));
    assert!(bare.list_models().is_empty());
    assert!(bare.default_model().is_none());
}

#[test]
fn chat_requests_carry_the_role_and_strip_the_prefix() {
    let ctx = ChatContext {
        messages: vec![Message::new(ChatRole::User, "hi".to_string())],
        model: Some("mine:mine:m1".to_string()),
        media: Vec::new(),
        role: Some(RoleDetails::new(
            "helper".to_string(),
            None,
            Some("Be helpful.".to_string()),
            None,
        )),
    };
    let (model, messages) = convert_to_chat_request(&ctx, "mine", &Some("fallback".to_string()));
    // The prefix is stripped as often as it leads.
    assert_eq!(model, "m1");
    assert_eq!(messages.len(), 2);
    assert!(messages[0].role == ChatRole::System);
    assert_eq!(messages[0].content, "Be helpful.");

    let ctx = ChatContext {
        messages: Vec::new(),
        model: None,
        media: Vec::new(),
        role: None,
    };
    let (model, messages) = convert_to_chat_request(&ctx, "mine", &Some("fallback".to_string()));
    assert_eq!(model, "fallback");
    assert!(messages.is_empty());
}

#[test]
fn missing_completion_content_becomes_a_placeholder() {
    assert_eq!(response_text(Some("fine".to_string())), "fine");
    assert_eq!(response_text(None), "Error retrieving response");
}

#[test]
fn summaries_prefer_the_first_quoted_span() {
    assert_eq!(
        clean_summary_response("Sure! The title is \"Tea time\" I hope that helps", None),
        "Tea time"
    );
    assert_eq!(clean_summary_response("No quotes at all", None), "No quotes at all");
    // A lone quote opens no span.
    assert_eq!(clean_summary_response("A \"dangling quote", None), "A \"dangling quote");
    assert_eq!(clean_summary_response("\"\" empty span", None), "");
    assert_eq!(clean_summary_response("A very long unquoted answer", Some(6)), "A very");
    assert_eq!(clean_summary_response("short", Some(10)), "short");
}

#[test]
fn summary_requests_ask_for_title_and_topic() {
    let title = title_request_message();
    assert!(title.role == ChatRole::User);
    assert!(title.content.contains("less than 20 characters"));
    let topic = topic_request_message();
    assert!(topic.role == ChatRole::User);
    assert!(topic.content.contains("less than 50 characters"));
}
