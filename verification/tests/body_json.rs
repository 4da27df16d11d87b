use httpie::body::{collapse_pairs, json_body};

fn pairs(ps: &[(&str, &str)]) -> Vec<(String, String)> {
    ps.iter().map(|p| (p.0.to_string(), p.1.to_string())).collect()
}

#[test]
fn empty_body_is_empty_object() {
    assert_eq!(json_body(&pairs(&[])), "{}");
}

#[test]
fn single_pair_serializes() {
    assert_eq!(json_body(&pairs(&[("a", "1")])), "{\"a\":\"1\"}");
}

#[test]
fn duplicate_keys_last_write_wins() {
    assert_eq!(json_body(&pairs(&[("a", "1"), ("a", "2")])), "{\"a\":\"2\"}");
}

#[test]
fn duplicate_keys_keep_first_occurrence_position() {
    assert_eq!(
        json_body(&pairs(&[("b", "1"), ("a", "2"), ("b", "3")])),
        "{\"b\":\"3\",\"a\":\"2\"}"
    );
}

#[test]
fn collapse_pairs_overwrites_in_place() {
    let out = collapse_pairs(&pairs(&[("b", "1"), ("a", "2"), ("b", "3")]));
    assert_eq!(out, pairs(&[("b", "3"), ("a", "2")]));
}

#[test]
fn quotes_and_backslashes_are_escaped() {
    assert_eq!(
        json_body(&pairs(&[("k", "a\"b\\c")])),
        "{\"k\":\"a\\\"b\\\\c\"}"
    );
}

#[test]
fn control_characters_take_unicode_escapes() {
    assert_eq!(
        json_body(&pairs(&[("k", "a\nb\tc")])),
        "{\"k\":\"a\\u000ab\\u0009c\"}"
    );
}

#[test]
fn keys_are_escaped_too() {
    assert_eq!(json_body(&pairs(&[("a\"b", "v")])), "{\"a\\\"b\":\"v\"}");
}

#[test]
fn value_may_contain_equals_sign_content() {
    assert_eq!(json_body(&pairs(&[("a", "b=c")])), "{\"a\":\"b=c\"}");
}
