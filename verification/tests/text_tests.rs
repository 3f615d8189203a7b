use chaz::text::{
    eq_ignore_case, has_prefix, join_strings, nth_token, split_on, split_tokens,
    strip_prefix_repeated, trim,
};

#[test]
fn prefixes_are_checked_character_wise() {
    assert!(has_prefix("!chaz model x", "!chaz model"));
    assert!(has_prefix("abc", ""));
    assert!(!has_prefix("ab", "abc"));
    assert!(!has_prefix("!chas model", "!chaz"));
}

#[test]
fn tokens_split_on_any_whitespace_run() {
    let toks = split_tokens("  one\ttwo \n three  ");
    assert_eq!(
        toks,
        vec!["one".to_string(), "two".to_string(), "three".to_string()]
    );
    assert!(split_tokens("   ").is_empty());
    assert_eq!(nth_token("!chaz model b:gpt-x", 2).as_deref(), Some("b:gpt-x"));
    assert_eq!(nth_token("!chaz model", 2), None);
}

#[test]
fn trimming_removes_edge_whitespace_only() {
    assert_eq!(trim("  spaced  out  "), "spaced  out");
    assert_eq!(trim("\t\n"), "");
    assert_eq!(trim("solid"), "solid");
}

#[test]
fn leading_prefixes_strip_repeatedly() {
    assert_eq!(strip_prefix_repeated("mine:mine:m1", "mine:"), "m1");
    assert_eq!(strip_prefix_repeated("m1", "mine:"), "m1");
    assert_eq!(strip_prefix_repeated("!chaz!chaz hi", "!chaz"), " hi");
}

#[test]
fn case_insensitive_comparison_covers_ascii() {
    assert!(eq_ignore_case("PRINT", "print"));
    assert!(eq_ignore_case("MoDel", "model"));
    assert!(!eq_ignore_case("models", "model"));
}

#[test]
fn splitting_keeps_empty_fields() {
    let fields = split_on("one.url", '.');
    assert_eq!(fields, vec!["one".to_string(), "url".to_string()]);
    let fields = split_on("a..b.", '.');
    assert_eq!(
        fields,
        vec!["a".to_string(), "".to_string(), "b".to_string(), "".to_string()]
    );
    assert_eq!(split_on("", '.'), vec!["".to_string()]);
}

#[test]
fn joining_is_the_inverse_of_a_clean_split() {
    let items = vec!["a".to_string(), "b".to_string(), "c".to_string()];
    assert_eq!(join_strings(&items, "\n"), "a\nb\nc");
    assert_eq!(join_strings(&Vec::new(), "\n"), "");
    assert_eq!(join_strings(&vec!["solo".to_string()], ", "), "solo");
}
