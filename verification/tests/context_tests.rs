use chaz::backends::{Backend, BackendManager, BackendType, ChatRole};
use chaz::context::{assemble, ContextAccum, EventBody, HistEvent};

fn text_event(sender: &str, body: &str) -> HistEvent {
    HistEvent {
        sender: sender.to_string(),
        body: EventBody::Text {
            body: body.to_string(),
        },
    }
}

fn image_event(sender: &str, media: &str) -> HistEvent {
    HistEvent {
        sender: sender.to_string(),
        body: EventBody::Image {
            media: media.to_string(),
        },
    }
}

fn single_backend_manager() -> BackendManager {
    BackendManager::new(&None)
}

#[test]
fn plain_history_keeps_all_messages_oldest_first() {
    // Newest first: "three" is the most recent message.
    let events = vec![
        text_event("@alice:home", "three"),
        text_event("@bot:home", "two"),
        text_event("@alice:home", "one"),
    ];
    let ctx = assemble(&events, "@bot:home", true, &single_backend_manager(), None, None);
    assert_eq!(ctx.messages.len(), 3);
    assert_eq!(ctx.messages[0].content, "one");
    assert!(ctx.messages[0].role == ChatRole::User);
    assert_eq!(ctx.messages[1].content, "two");
    assert!(ctx.messages[1].role == ChatRole::Assistant);
    assert_eq!(ctx.messages[2].content, "three");
    assert!(ctx.messages[2].role == ChatRole::User);
    assert!(ctx.model.is_none());
    assert!(ctx.media.is_empty());
}

#[test]
fn non_text_events_add_no_messages() {
    let events = vec![
        text_event("@alice:home", "two"),
        image_event("@alice:home", "mxc-pic"),
        HistEvent {
            sender: "@alice:home".to_string(),
            body: EventBody::Other,
        },
        text_event("@alice:home", "one"),
    ];
    let ctx = assemble(&events, "@bot:home", true, &single_backend_manager(), None, None);
    assert_eq!(ctx.messages.len(), 2);
    assert_eq!(ctx.messages[0].content, "one");
    assert_eq!(ctx.messages[1].content, "two");
    assert_eq!(ctx.media, vec!["mxc-pic".to_string()]);
}

#[test]
fn clear_admits_only_newer_messages() {
    let events = vec![
        text_event("@alice:home", "newest"),
        text_event("@alice:home", "newer"),
        text_event("@alice:home", "!chaz clear"),
        text_event("@alice:home", "older"),
        text_event("@alice:home", "oldest"),
    ];
    let ctx = assemble(&events, "@bot:home", true, &single_backend_manager(), None, None);
    assert_eq!(ctx.messages.len(), 2);
    assert_eq!(ctx.messages[0].content, "newer");
    assert_eq!(ctx.messages[1].content, "newest");
}

#[test]
fn doubled_marker_is_literal_text() {
    let events = vec![text_event("@alice:home", "!!chaz clear")];
    let ctx = assemble(&events, "@bot:home", true, &single_backend_manager(), None, None);
    assert_eq!(ctx.messages.len(), 1);
    assert_eq!(ctx.messages[0].content, "!!chaz clear");
    assert!(ctx.messages[0].role == ChatRole::User);
}

#[test]
fn scripted_history_round_trip() {
    // Chronological script: "hi", "hello" (bot), a model command, a clear,
    // then "new topic". History arrives newest first.
    let backends = vec![
        named_http_backend("a", &["m1"]),
        named_http_backend("b", &["gpt-x"]),
    ];
    let manager = BackendManager::new(&Some(backends));
    let events = vec![
        text_event("@alice:home", "new topic"),
        text_event("@alice:home", "!chaz clear"),
        text_event("@alice:home", "!chaz model b:gpt-x"),
        text_event("@bot:home", "hello"),
        text_event("@alice:home", "hi"),
    ];
    let ctx = assemble(&events, "@bot:home", true, &manager, None, None);
    assert_eq!(ctx.messages.len(), 1);
    assert_eq!(ctx.messages[0].content, "new topic");
    assert!(ctx.messages[0].role == ChatRole::User);
    assert!(ctx.model.is_none());
}

fn named_http_backend(name: &str, models: &[&str]) -> Backend {
    let mut b = Backend::new(BackendType::OpenAICompatible);
    b.name = Some(name.to_string());
    b.models = Some(models.iter().map(|m| m.to_string()).collect());
    b.api_base = Some("https://example.invalid/v1".to_string());
    b.api_key = Some("SECRET-REDACTED".to_string());
    b
}

#[test]
fn model_command_first_found_wins_and_must_validate() {
    let backends = vec![
        named_http_backend("a", &["m1"]),
        named_http_backend("b", &["gpt-x"]),
    ];
    let manager = BackendManager::new(&Some(backends));
    // Newest first: the invalid proposal is newer but does not validate;
    // the older valid one is skipped because... it is scanned later, so it
    // wins only if the newer one failed.
    let events = vec![
        text_event("@alice:home", "!chaz model nonsense"),
        text_event("@alice:home", "!chaz model b:gpt-x"),
    ];
    let ctx = assemble(&events, "@bot:home", true, &manager, None, None);
    assert_eq!(ctx.model.as_deref(), Some("b:gpt-x"));

    // A newer valid proposal beats an older valid one.
    let events = vec![
        text_event("@alice:home", "!chaz model a:m1"),
        text_event("@alice:home", "!chaz model b:gpt-x"),
    ];
    let ctx = assemble(&events, "@bot:home", true, &manager, None, None);
    assert_eq!(ctx.model.as_deref(), Some("a:m1"));
}

#[test]
fn tag_store_model_wins_over_history() {
    let backends = vec![
        named_http_backend("a", &["m1"]),
        named_http_backend("b", &["gpt-x"]),
    ];
    let manager = BackendManager::new(&Some(backends));
    let events = vec![text_event("@alice:home", "!chaz model b:gpt-x")];
    let ctx = assemble(
        &events,
        "@bot:home",
        true,
        &manager,
        None,
        Some("a:m1".to_string()),
    );
    assert_eq!(ctx.model.as_deref(), Some("a:m1"));
}

#[test]
fn commands_and_foreign_markers_are_dropped() {
    let events = vec![
        text_event("@alice:home", "!chaz PRINT"),
        text_event("@alice:home", "!chaz help"),
        text_event("@alice:home", "!somethingelse"),
        text_event("@alice:home", "!chaz"),
        text_event("@alice:home", "!chaz   "),
    ];
    let ctx = assemble(&events, "@bot:home", true, &single_backend_manager(), None, None);
    assert_eq!(ctx.messages.len(), 0);
}

#[test]
fn unrecognized_command_keeps_remainder() {
    let events = vec![
        text_event("@bot:home", "!chaz howdy there"),
        text_event("@alice:home", "!chaz tell me more"),
    ];
    let ctx = assemble(&events, "@bot:home", true, &single_backend_manager(), None, None);
    assert_eq!(ctx.messages.len(), 2);
    assert_eq!(ctx.messages[0].content, "tell me more");
    assert!(ctx.messages[0].role == ChatRole::User);
    assert_eq!(ctx.messages[1].content, "howdy there");
    assert!(ctx.messages[1].role == ChatRole::Assistant);
}

#[test]
fn media_is_collected_oldest_first_when_enabled() {
    let events = vec![
        image_event("@alice:home", "mxc-newer"),
        text_event("@alice:home", "hi"),
        image_event("@alice:home", "mxc-older"),
    ];
    let ctx = assemble(&events, "@bot:home", true, &single_backend_manager(), None, None);
    assert_eq!(ctx.media, vec!["mxc-older".to_string(), "mxc-newer".to_string()]);

    let ctx = assemble(&events, "@bot:home", false, &single_backend_manager(), None, None);
    assert!(ctx.media.is_empty());
}

#[test]
fn batched_scan_stops_at_clear_across_batches() {
    let manager = single_backend_manager();
    let mut acc = ContextAccum::new();
    let first = vec![
        text_event("@alice:home", "newest"),
        text_event("@alice:home", "!chaz clear"),
    ];
    acc.scan_batch(&first, "@bot:home", true, &manager);
    assert!(acc.is_done());
    let second = vec![text_event("@alice:home", "old news")];
    acc.scan_batch(&second, "@bot:home", true, &manager);
    let ctx = acc.finish(None, None);
    assert_eq!(ctx.messages.len(), 1);
    assert_eq!(ctx.messages[0].content, "newest");
}
