use httpie::args::{parse_kv_pairs, parse_url, GetArgs, PostArgs};
use httpie::ClientError;

#[test]
fn parse_url_accepts_absolute_url_verbatim() {
    let url = "https://example.com/path?q=1#frag";
    assert_eq!(parse_url(url).unwrap(), url);
}

#[test]
fn parse_url_rejects_invalid_url() {
    let r = parse_url("not-a-url");
    assert!(matches!(r, Err(ClientError::InvalidUrl(_))));
}

#[test]
fn get_args_preserve_url_verbatim() {
    let url = "http://httpbin.org/get?a=b";
    let args = GetArgs::new(url).unwrap();
    assert_eq!(args.url, url);
}

#[test]
fn get_args_reject_invalid_url() {
    let r = GetArgs::new("not-a-url");
    assert!(matches!(r, Err(ClientError::InvalidUrl(_))));
    let e = r.unwrap_err();
    assert!(!e.message().is_empty());
}

#[test]
fn post_args_preserve_url_verbatim() {
    let url = "https://example.com/submit";
    let args = PostArgs::new(url, &vec!["a=1".to_string()]).unwrap();
    assert_eq!(args.url, url);
    assert_eq!(args.body, vec![("a".to_string(), "1".to_string())]);
}

#[test]
fn post_args_reject_invalid_url_before_anything_else() {
    let r = PostArgs::new("not-a-url", &vec!["a=1".to_string()]);
    assert!(matches!(r, Err(ClientError::InvalidUrl(_))));
}

#[test]
fn post_args_reject_malformed_token() {
    let r = PostArgs::new("https://example.com", &vec!["a=1".to_string(), "oops".to_string()]);
    assert!(matches!(r, Err(ClientError::MalformedPair(_))));
}

#[test]
fn kv_token_without_equals_fails() {
    assert!(matches!(
        parse_kv_pairs("abc"),
        Err(ClientError::MalformedPair(_))
    ));
    assert!(matches!(
        parse_kv_pairs(""),
        Err(ClientError::MalformedPair(_))
    ));
}

#[test]
fn kv_token_splits_at_first_equals() {
    let (k, v) = parse_kv_pairs("a=b=c").unwrap();
    assert_eq!(k, "a");
    assert_eq!(v, "b=c");
}

#[test]
fn kv_token_empty_value_is_permitted() {
    let (k, v) = parse_kv_pairs("key=").unwrap();
    assert_eq!(k, "key");
    assert_eq!(v, "");
}

#[test]
fn kv_token_empty_key_fails() {
    assert!(matches!(
        parse_kv_pairs("=v"),
        Err(ClientError::MalformedPair(_))
    ));
}
