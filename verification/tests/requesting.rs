use httpie::args::{GetArgs, Opts, PostArgs, SubCommand};
use httpie::request::{build_get, build_post, build_request, ClientConfig, Method};

#[test]
fn client_config_enumerates_default_headers() {
    let config = ClientConfig::new();
    assert_eq!(
        config.default_headers,
        vec![
            ("X-POWERED-BY".to_string(), "Rust".to_string()),
            ("User-Agent".to_string(), "Rust Httpie".to_string()),
        ]
    );
}

#[test]
fn get_plan_has_url_and_default_headers_and_no_body() {
    let config = ClientConfig::new();
    let args = GetArgs::new("https://example.com/get").unwrap();
    let plan = build_get(&config, &args);
    assert_eq!(plan.method, Method::Get);
    assert_eq!(plan.url, "https://example.com/get");
    assert_eq!(plan.headers, config.default_headers);
    assert_eq!(plan.body, None);
    assert_eq!(plan.content_type, None);
}

#[test]
fn post_plan_serializes_body_with_json_content_type() {
    let config = ClientConfig::new();
    let tokens = vec!["name=alice".to_string(), "greeting=hello".to_string()];
    let args = PostArgs::new("https://example.com/post", &tokens).unwrap();
    let plan = build_post(&config, &args);
    assert_eq!(plan.method, Method::Post);
    assert_eq!(plan.url, "https://example.com/post");
    assert_eq!(
        plan.body,
        Some("{\"name\":\"alice\",\"greeting\":\"hello\"}".to_string())
    );
    assert_eq!(plan.content_type, Some("application/json".to_string()));
}

#[test]
fn post_plan_duplicate_keys_last_write_wins() {
    let config = ClientConfig::new();
    let tokens = vec!["a=1".to_string(), "a=2".to_string()];
    let args = PostArgs::new("https://example.com", &tokens).unwrap();
    let plan = build_post(&config, &args);
    assert_eq!(plan.body, Some("{\"a\":\"2\"}".to_string()));
}

#[test]
fn build_request_dispatches_on_subcommand() {
    let config = ClientConfig::new();
    let get_opts = Opts {
        subcmd: SubCommand::Get(GetArgs::new("https://example.com").unwrap()),
    };
    let plan = build_request(&config, &get_opts);
    assert_eq!(plan.method, Method::Get);

    let post_opts = Opts {
        subcmd: SubCommand::Post(
            PostArgs::new("https://example.com", &vec!["k=v".to_string()]).unwrap(),
        ),
    };
    let plan = build_request(&config, &post_opts);
    assert_eq!(plan.method, Method::Post);
    assert_eq!(plan.body, Some("{\"k\":\"v\"}".to_string()));
}
