use chaz::backends::BackendType;
use chaz::tags::{backend_tag_writes, backends_from_tags, effective_backends, lookup};

fn pairs(entries: &[(&str, &str)]) -> Vec<(String, String)> {
    entries
        .iter()
        .map(|(k, v)| (k.to_string(), v.to_string()))
        .collect()
}

#[test]
fn lookup_finds_the_first_value() {
    let tags = pairs(&[("a", "1"), ("b", "2"), ("a", "3")]);
    assert_eq!(lookup(&tags, "a").as_deref(), Some("1"));
    assert_eq!(lookup(&tags, "b").as_deref(), Some("2"));
    assert_eq!(lookup(&tags, "c"), None);
}

#[test]
fn url_and_token_pairs_declare_backends() {
    let tags = pairs(&[
        ("one.url", "https://one.invalid"),
        ("one.token", "SECRET-REDACTED"),
        ("half.url", "https://half.invalid"),
    ]);
    let backends = backends_from_tags(&tags);
    assert_eq!(backends.len(), 1);
    assert!(matches!(backends[0].backend_type, BackendType::OpenAICompatible));
    assert_eq!(backends[0].name.as_deref(), Some("one"));
    assert_eq!(backends[0].api_base.as_deref(), Some("https://one.invalid"));
    assert_eq!(backends[0].api_key.as_deref(), Some("SECRET-REDACTED"));
}

#[test]
fn the_declared_default_moves_to_the_front() {
    let tags = pairs(&[
        ("one.url", "https://one.invalid"),
        ("one.token", "SECRET-REDACTED"),
        ("two.url", "https://two.invalid"),
        ("two.token", "SECRET-REDACTED"),
        ("chazdefault", "two"),
    ]);
    let backends = backends_from_tags(&tags);
    assert_eq!(backends.len(), 2);
    assert_eq!(backends[0].name.as_deref(), Some("two"));
    assert_eq!(backends[1].name.as_deref(), Some("one"));
}

#[test]
fn registering_a_backend_writes_three_tags() {
    let writes = backend_tag_writes("mine", "https://mine.invalid", "SECRET-REDACTED");
    assert_eq!(
        writes,
        vec![
            ("chazdefault".to_string(), "mine".to_string()),
            ("mine.url".to_string(), "https://mine.invalid".to_string()),
            ("mine.token".to_string(), "SECRET-REDACTED".to_string()),
        ]
    );
}

#[test]
fn effective_backends_prefer_tags_and_fall_back_to_the_default() {
    let tags = pairs(&[
        ("one.url", "https://one.invalid"),
        ("one.token", "SECRET-REDACTED"),
    ]);
    let tag_backends = backends_from_tags(&tags);
    let mut config_backend = chaz::backends::Backend::new(BackendType::OpenAICompatible);
    config_backend.name = Some("static".to_string());
    let manager = effective_backends(tag_backends, &Some(vec![config_backend]));
    assert_eq!(
        manager.list_known_backends(),
        vec!["one".to_string(), "static".to_string()]
    );

    let manager = effective_backends(Vec::new(), &None);
    assert_eq!(manager.list_known_backends(), vec!["aichat".to_string()]);
}
