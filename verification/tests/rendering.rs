use httpie::render::{
    get_content_type, render_body, render_headers, render_response, render_status, ResponseData,
};
use httpie::ClientError;

const BLUE: &str = "\u{1b}[34m";
const GREEN: &str = "\u{1b}[32m";
const CYAN: &str = "\u{1b}[36m";
const RESET: &str = "\u{1b}[0m";

fn headers(hs: &[(&str, &str)]) -> Vec<(String, String)> {
    hs.iter().map(|h| (h.0.to_string(), h.1.to_string())).collect()
}

#[test]
fn status_line_is_styled_blue_with_blank_line() {
    let line = render_status("HTTP/1.1", "200 OK");
    assert_eq!(line, format!("{BLUE}HTTP/1.1 200 OK{RESET}\n\n"));
}

#[test]
fn header_block_styles_names_and_keeps_raw_values() {
    let text = render_headers(&headers(&[
        ("content-type", "text/plain"),
        ("x-powered-by", "Rust"),
    ]));
    assert_eq!(
        text,
        format!("{GREEN}content-type{RESET}: text/plain\n{GREEN}x-powered-by{RESET}: Rust\n\n")
    );
}

#[test]
fn content_type_is_found_ignoring_ascii_case() {
    let ct = get_content_type(&headers(&[("Content-Type", "application/json")]));
    assert_eq!(ct, Some("application/json".to_string()));
}

#[test]
fn content_type_is_none_when_absent() {
    let ct = get_content_type(&headers(&[("server", "nginx")]));
    assert_eq!(ct, None);
}

#[test]
fn json_body_is_pretty_printed_multi_line() {
    let r = render_body(&Some("application/json".to_string()), "{\"x\":1}").unwrap();
    assert_eq!(r, format!("{CYAN}{{\n  \"x\": 1\n}}{RESET}\n"));
    assert!(r.contains('\n'));
    assert_ne!(r, "{\"x\":1}\n");
}

#[test]
fn json_content_type_compares_ignoring_ascii_case() {
    let r = render_body(&Some("Application/JSON".to_string()), "{\"x\":1}").unwrap();
    assert_eq!(r, format!("{CYAN}{{\n  \"x\": 1\n}}{RESET}\n"));
}

#[test]
fn json_content_type_with_parameters_is_not_exact() {
    let r = render_body(
        &Some("application/json; charset=utf-8".to_string()),
        "{\"x\":1}",
    )
    .unwrap();
    assert_eq!(r, "{\"x\":1}\n");
}

#[test]
fn plain_body_is_emitted_unmodified() {
    let r = render_body(&Some("text/plain".to_string()), "hello").unwrap();
    assert_eq!(r, "hello\n");
}

#[test]
fn body_without_content_type_is_emitted_unmodified() {
    let r = render_body(&None, "raw bytes here").unwrap();
    assert_eq!(r, "raw bytes here\n");
}

#[test]
fn json_body_follows_the_formatter_outcome() {
    let body = "{not json";
    let r = render_body(&Some("application/json".to_string()), body);
    match jsonxf::pretty_print(body) {
        Ok(p) => assert_eq!(r.unwrap(), format!("{CYAN}{p}{RESET}\n")),
        Err(_) => assert!(matches!(r, Err(ClientError::DecodeError(_)))),
    }
}

#[test]
fn response_renders_in_fixed_order() {
    let resp = ResponseData {
        version: "HTTP/1.1".to_string(),
        status: "200 OK".to_string(),
        headers: headers(&[("content-type", "application/json")]),
        body: "{\"x\":1}".to_string(),
    };
    let text = render_response(&resp).unwrap();
    assert_eq!(
        text,
        format!(
            "{BLUE}HTTP/1.1 200 OK{RESET}\n\n{GREEN}content-type{RESET}: application/json\n\n{CYAN}{{\n  \"x\": 1\n}}{RESET}\n"
        )
    );
}

#[test]
fn response_with_plain_body_keeps_it_raw() {
    let resp = ResponseData {
        version: "HTTP/1.1".to_string(),
        status: "404 Not Found".to_string(),
        headers: headers(&[("content-type", "text/plain")]),
        body: "hello".to_string(),
    };
    let text = render_response(&resp).unwrap();
    assert!(text.ends_with("hello\n"));
    assert!(text.starts_with(BLUE));
}

#[test]
fn response_claiming_json_follows_the_formatter_outcome() {
    let resp = ResponseData {
        version: "HTTP/1.1".to_string(),
        status: "200 OK".to_string(),
        headers: headers(&[("content-type", "application/json")]),
        body: "oops".to_string(),
    };
    let r = render_response(&resp);
    match jsonxf::pretty_print("oops") {
        Ok(p) => assert!(r.unwrap().ends_with(&format!("{CYAN}{p}{RESET}\n"))),
        Err(_) => assert!(matches!(r, Err(ClientError::DecodeError(_)))),
    }
}

#[test]
fn transport_error_carries_its_message() {
    let e = ClientError::TransportError("connection refused".to_string());
    assert_eq!(e.message(), "connection refused");
}

#[test]
fn decode_error_carries_its_message() {
    let e = ClientError::DecodeError("body was not text".to_string());
    assert_eq!(e.message(), "body was not text");
}
