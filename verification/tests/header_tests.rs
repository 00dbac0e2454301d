use agnt::openai::OpenAIConfig;
use agnt::openai_headers::{
    extract_chatgpt_account_id, headers_with_account, jwt_payload_segment, request_headers, responses_url,
};
use agnt::prompt::workspace_root;
use base64::Engine;

fn token_with(payload_json: &str) -> String {
    let payload = base64::engine::general_purpose::URL_SAFE_NO_PAD.encode(payload_json.as_bytes());
    format!("header.{payload}.signature")
}

fn pairs(v: &[(&str, &str)]) -> Vec<(String, String)> {
    v.iter().map(|(k, x)| (k.to_string(), x.to_string())).collect()
}

#[test]
fn payload_segment_needs_three_parts() {
    assert_eq!(jwt_payload_segment("a.bc.d"), Some("bc".to_string()));
    assert_eq!(jwt_payload_segment(".."), Some(String::new()));
    assert_eq!(jwt_payload_segment("a.b"), None);
    assert_eq!(jwt_payload_segment("a.b.c.d"), None);
    assert_eq!(jwt_payload_segment("abc"), None);
}

#[test]
fn account_id_from_token() {
    let token = token_with(r#"{"https://api.openai.com/auth":{"chatgpt_account_id":"acct_123"}}"#);
    assert_eq!(extract_chatgpt_account_id(&token), Some("acct_123".to_string()));
    let other = token_with(r#"{"https://api.openai.com/auth":{"user_id":"u"}}"#);
    assert_eq!(extract_chatgpt_account_id(&other), None);
    let number = token_with(r#"{"https://api.openai.com/auth":{"chatgpt_account_id":7}}"#);
    assert_eq!(extract_chatgpt_account_id(&number), None);
    assert_eq!(extract_chatgpt_account_id("header.!!!.sig"), None);
    assert_eq!(extract_chatgpt_account_id("not-a-token"), None);
    let not_json = format!("h.{}.s", base64::engine::general_purpose::URL_SAFE_NO_PAD.encode(b"plain text"));
    assert_eq!(extract_chatgpt_account_id(&not_json), None);
}

#[test]
fn headers_of_a_request() {
    let token = token_with(r#"{"https://api.openai.com/auth":{"chatgpt_account_id":"acct_9"}}"#);
    let mut config = OpenAIConfig {
        auth_token: token.clone(),
        base_url: "https://api.openai.com/v1".to_string(),
        response_store: None,
        include_reasoning_encrypted_content: false,
        extra_headers: pairs(&[("originator", "agnt")]),
        include_chatgpt_account_id_header: true,
    };
    let bearer = format!("Bearer {token}");
    assert_eq!(
        request_headers(&config),
        pairs(&[("Authorization", &bearer), ("chatgpt-account-id", "acct_9"), ("originator", "agnt")])
    );
    config.include_chatgpt_account_id_header = false;
    assert_eq!(request_headers(&config), pairs(&[("Authorization", &bearer), ("originator", "agnt")]));
    assert_eq!(
        headers_with_account(&config, Some("x".to_string())),
        pairs(&[("Authorization", &bearer), ("originator", "agnt")])
    );
    config.include_chatgpt_account_id_header = true;
    assert_eq!(
        headers_with_account(&config, None),
        pairs(&[("Authorization", &bearer), ("originator", "agnt")])
    );
    assert_eq!(responses_url("https://api.openai.com/v1"), "https://api.openai.com/v1/responses");
}

#[test]
fn workspace_root_is_nearest_git_ancestor() {
    let dirs = vec![
        ("/w/repo/src".to_string(), false),
        ("/w/repo".to_string(), true),
        ("/w".to_string(), true),
        ("/".to_string(), false),
    ];
    assert_eq!(workspace_root("/w/repo/src", &dirs), "/w/repo");
    let none = vec![("/tmp/x".to_string(), false), ("/tmp".to_string(), false), ("/".to_string(), false)];
    assert_eq!(workspace_root("/tmp/x", &none), "/tmp/x");
    assert_eq!(workspace_root("/tmp/x", &vec![]), "/tmp/x");
}
