use modelrelay::api_key::ApiKey;
use modelrelay::client_core::models_list_path;
use modelrelay::customers::{validate_customer_token_request, validate_subscribe_request};
use modelrelay::images::{image_path, validate_image_prompt};
use modelrelay::errors::Error;
use modelrelay::plugin_prompts::{
    contents_listing_status, contents_url, markdown_entry_paths, GitHubContentEntry,
};
use modelrelay::plugins::PluginError;
use modelrelay::sessions::{
    check_session_message, sessions_list_path, validate_session_id, ListSessionsOptions,
};

#[test]
fn models_path_encodes_capability() {
    assert_eq!(models_list_path("  "), "/models");
    assert_eq!(models_list_path(" text "), "/models?capability=text");
    assert_eq!(models_list_path("a b&c"), "/models?capability=a%20b%26c");
}

#[test]
fn sessions_path_query_order_and_encoding() {
    assert_eq!(sessions_list_path(&ListSessionsOptions::default()), "/sessions");
    let opts = ListSessionsOptions {
        limit: Some(10),
        offset: Some(-5),
        cursor: Some("c/1 x".to_string()),
        customer_id: Some("cust_1".to_string()),
    };
    assert_eq!(
        sessions_list_path(&opts),
        "/sessions?limit=10&offset=-5&cursor=c%2F1%20x&customer_id=cust_1"
    );
    let opts = ListSessionsOptions { cursor: Some("é".to_string()), ..Default::default() };
    assert_eq!(sessions_list_path(&opts), "/sessions?cursor=%C3%A9");
}

#[test]
fn github_contents_url_and_markdown_filter() {
    assert_eq!(
        contents_url("https://api.github.com/", "o", "r", "/commands", "v1.0+x"),
        "https://api.github.com/repos/o/r/contents/commands?ref=v1.0%2Bx"
    );
    let entries = vec![
        GitHubContentEntry { name: "a.md".into(), path: "commands/a.md".into(), kind: "file".into() },
        GitHubContentEntry { name: "b.txt".into(), path: "commands/b.txt".into(), kind: "file".into() },
        GitHubContentEntry { name: "c.md".into(), path: "commands/c.md".into(), kind: "dir".into() },
        GitHubContentEntry { name: "d.md".into(), path: "commands/d.md".into(), kind: "file".into() },
    ];
    assert_eq!(
        markdown_entry_paths(&entries),
        vec!["commands/a.md".to_string(), "commands/d.md".to_string()]
    );
}

#[test]
fn github_listing_status_outcomes() {
    assert_eq!(contents_listing_status("agents", 404, "404 Not Found").unwrap(), false);
    assert_eq!(contents_listing_status("agents", 200, "200 OK").unwrap(), true);
    match contents_listing_status("agents", 500, "500 Internal Server Error") {
        Err(PluginError::Loader(m)) => assert_eq!(m, "fetch agents: 500 Internal Server Error"),
        other => panic!("unexpected {:?}", other),
    }
}

fn message(r: Result<(), Error>) -> String {
    match r {
        Err(Error::Validation(v)) => v.message,
        other => panic!("unexpected {:?}", other),
    }
}

#[test]
fn subscribe_request_checks() {
    let secret = Some(ApiKey::parse("mr_sk_abc").unwrap());
    assert_eq!(message(validate_subscribe_request(&None, 1, "a", "b")), "API key is required");
    assert_eq!(
        message(validate_subscribe_request(&secret, 0, "a", "b")),
        "tier_id is required"
    );
    assert_eq!(
        message(validate_subscribe_request(&secret, 1, " ", "b")),
        "success_url and cancel_url are required"
    );
    assert!(validate_subscribe_request(&secret, 1, "a", "b").is_ok());
}

#[test]
fn image_checks_and_paths() {
    assert_eq!(message(validate_image_prompt("  ")), "prompt is required");
    assert!(validate_image_prompt("a cat").is_ok());
    assert_eq!(image_path("img_1", false).unwrap(), "/images/img_1");
    assert_eq!(image_path("img_1", true).unwrap(), "/images/img_1/pin");
    match image_path(" ", true) {
        Err(Error::Validation(v)) => {
            assert_eq!(v.message, "image_id is required");
            assert_eq!(v.field.as_deref(), Some("image_id"));
        }
        other => panic!("unexpected {:?}", other),
    }
}

#[test]
fn customer_token_needs_exactly_one_id() {
    let msg = "provide exactly one of customer_id or customer_external_id";
    assert_eq!(message(validate_customer_token_request(false, &None)), msg);
    assert_eq!(message(validate_customer_token_request(false, &Some("  ".to_string()))), msg);
    assert_eq!(message(validate_customer_token_request(true, &Some("ext".to_string()))), msg);
    assert!(validate_customer_token_request(true, &None).is_ok());
    assert!(validate_customer_token_request(false, &Some("ext".to_string())).is_ok());
}

#[test]
fn session_message_checks() {
    assert_eq!(message(validate_session_id(" ")), "session_id is required");
    assert!(validate_session_id("s1").is_ok());
    let err = |r: Result<String, Error>| match r {
        Err(Error::Validation(v)) => (v.message, v.field),
        other => panic!("unexpected {:?}", other),
    };
    assert_eq!(err(check_session_message("", "user", false)).0, "session_id is required");
    assert_eq!(err(check_session_message("s", "  ", false)).0, "role is required");
    assert_eq!(
        err(check_session_message("s", " admin ", false)),
        (
            "invalid role 'admin' (must be user, assistant, or tool)".to_string(),
            Some("role".to_string())
        )
    );
    assert_eq!(err(check_session_message("s", "tool", true)).0, "content is required");
    assert_eq!(check_session_message("s", " assistant ", false).unwrap(), "assistant");
}

#[test]
fn query_values_are_percent_encoded_like_urlencoding() {
    for v in ["a b&c=d", "héllo/wörld", "日本", "emoji 🎉", "safe-._~AZaz09"] {
        assert_eq!(
            models_list_path(v),
            format!("/models?capability={}", urlencoding::encode(v))
        );
    }
    assert_eq!(models_list_path("é"), "/models?capability=%C3%A9");
}
