use std::sync::Arc;
use std::time::Duration;

use hmac::Mac;
use omnihook::client::{ResponseOutcome, WebhookClient, WebhookConfig};
use omnihook::{
    GenericWebhookPayloadBuilder, HttpMethod, JsonValue, OmnihookError, WebhookPayloadBuilder,
};
use reqwest_middleware::ClientWithMiddleware;
use url::Url;

fn to_serde(v: &JsonValue) -> serde_json::Value {
    match v {
        JsonValue::Null => serde_json::Value::Null,
        JsonValue::Bool(b) => serde_json::Value::Bool(*b),
        JsonValue::Integer(n) => serde_json::Value::Number((*n).into()),
        JsonValue::String(s) => serde_json::Value::String(s.clone()),
        JsonValue::Array(items) => serde_json::Value::Array(items.iter().map(to_serde).collect()),
        JsonValue::Object(members) => serde_json::Value::Object(
            members.iter().map(|(k, v)| (k.clone(), to_serde(v))).collect(),
        ),
    }
}

fn create_test_http_client() -> Arc<ClientWithMiddleware> {
    Arc::new(reqwest_middleware::ClientBuilder::new(reqwest::Client::new()).build())
}

fn create_test_payload() -> JsonValue {
    GenericWebhookPayloadBuilder.build_payload("Test Alert", "Test message with value ${value}")
}

fn payload_bytes() -> Vec<u8> {
    serde_json::to_vec(&to_serde(&create_test_payload())).unwrap()
}

fn pairs(list: &[(&str, &str)]) -> Vec<(String, String)> {
    list.iter().map(|(k, v)| (k.to_string(), v.to_string())).collect()
}

fn create_test_action(
    url: &str,
    secret: Option<&str>,
    headers: Option<Vec<(String, String)>>,
) -> WebhookClient {
    let mut config = WebhookConfig::new(Url::parse(url).unwrap());
    if let Some(s) = secret {
        config = config.with_secret(s);
    }
    if let Some(h) = headers {
        config = config.with_headers(h);
    }
    WebhookClient::new(config, create_test_http_client()).unwrap()
}

fn expected_hmac(secret: &str, message: &[u8]) -> String {
    let mut mac = <hmac::Hmac<sha2::Sha256> as hmac::digest::KeyInit>::new_from_slice(
        secret.as_bytes(),
    )
    .unwrap();
    mac.update(message);
    hex::encode(mac.finalize().into_bytes())
}

#[test]
fn test_sign_payload_basic() {
    let payload_bytes = payload_bytes();
    let timestamp = 123456789;
    let (signature, timestamp_str) =
        WebhookClient::sign_payload("test-secret", &payload_bytes, timestamp).unwrap();
    assert!(!signature.is_empty());
    assert_eq!(timestamp_str, "123456789");
}

#[test]
fn test_webhook_config_builder() {
    let url = Url::parse("https://example.com").unwrap();
    let config = WebhookConfig::new(url.clone())
        .with_method(HttpMethod::Put)
        .with_secret("secret")
        .with_timeout(Duration::from_secs(5))
        .with_header("X-Test", "Value")
        .with_url_param("param", "val");

    assert_eq!(config.url(), &url);
    assert_eq!(config.method(), HttpMethod::Put);
    assert_eq!(config.secret(), Some(&"secret".to_string()));
    assert_eq!(config.timeout(), Some(Duration::from_secs(5)));
    assert_eq!(config.headers().unwrap().get("X-Test").unwrap(), "Value");
    assert_eq!(config.url_params().unwrap().get("param").unwrap(), "val");
}

#[test]
fn test_webhook_config_builder_append() {
    let url = Url::parse("https://example.com").unwrap();
    let config = WebhookConfig::new(url)
        .with_header("X-1", "V1")
        .with_headers(pairs(&[("X-2", "V2")]))
        .with_url_param("p1", "v1")
        .with_url_params(pairs(&[("p2", "v2")]));

    let headers = config.headers().unwrap();
    assert_eq!(headers.get("X-1").unwrap(), "V1");
    assert_eq!(headers.get("X-2").unwrap(), "V2");

    let params = config.url_params().unwrap();
    assert_eq!(params.get("p1").unwrap(), "v1");
    assert_eq!(params.get("p2").unwrap(), "v2");
}

#[test]
fn test_webhook_client_default_build() {
    let url = Url::parse("https://example.com").unwrap();
    let config = WebhookConfig::new(url);
    let client = config.build().unwrap();
    assert_eq!(client.url().as_str(), "https://example.com/");
}

#[test]
fn test_sign_payload_error_on_empty_secret() {
    let payload_bytes = payload_bytes();
    let error = WebhookClient::sign_payload("", &payload_bytes, 123).unwrap_err();
    assert!(matches!(error, OmnihookError::SigningError(_)));
}

#[test]
fn test_sign_payload_format() {
    let timestamp = 123456789;
    let payload_bytes = payload_bytes();
    let (signature, timestamp_str) =
        WebhookClient::sign_payload("test-secret", &payload_bytes, timestamp).unwrap();
    assert!(hex::decode(&signature).is_ok(), "Signature should be valid hex");
    assert_eq!(timestamp_str, "123456789");
}

#[test]
fn sign_payload_signs_payload_followed_by_timestamp() {
    let payload = b"{\"title\":\"t\"}";
    let (signature, stamp) = WebhookClient::sign_payload("top-secret", payload, -42).unwrap();
    assert_eq!(stamp, "-42");
    let mut message = payload.to_vec();
    message.extend_from_slice(b"-42");
    assert_eq!(signature, expected_hmac("top-secret", &message));
    assert_eq!(signature.len(), 64);
    assert!(signature.chars().all(|c| c.is_ascii_digit() || ('a'..='f').contains(&c)));
}

#[test]
fn sign_payload_empty_secret_message() {
    match WebhookClient::sign_payload("", b"x", 1) {
        Err(OmnihookError::SigningError(m)) => assert_eq!(m, "Invalid secret: cannot be empty."),
        other => panic!("unexpected: {:?}", other),
    }
}

#[test]
fn client_adds_default_content_type() {
    let client = create_test_action("https://example.com", None, None);
    assert_eq!(client.headers().get("Content-Type").unwrap(), "application/json");
    assert_eq!(client.headers().len(), 1);

    let client = create_test_action(
        "https://example.com",
        None,
        Some(pairs(&[("Content-Type", "text/plain")])),
    );
    assert_eq!(client.headers().get("Content-Type").unwrap(), "text/plain");
    assert_eq!(client.headers().len(), 1);
}

#[test]
fn client_refuses_empty_url_params() {
    let config = WebhookConfig::new(Url::parse("https://example.com").unwrap())
        .with_url_params(Vec::new());
    match WebhookClient::new(config, create_test_http_client()) {
        Err(OmnihookError::ConfigError(m)) => {
            assert_eq!(m, "url_params cannot be empty if provided")
        }
        other => panic!("unexpected: {:?}", other.map(|_| ())),
    }
}

#[test]
fn request_with_signature_and_idempotency_key() {
    let client = create_test_action(
        "https://example.com",
        Some("top-secret"),
        Some(pairs(&[("X-Custom-Header", "valid-value"), ("Accept", "application/json")])),
    );
    let body = payload_bytes();
    let plan = client.prepare_request(body.clone(), 1_700_000_000_123, Some("key-1")).unwrap();
    let names: Vec<&str> = plan.headers.iter().map(|(k, _)| k.as_str()).collect();
    assert_eq!(
        names,
        vec!["x-signature", "x-timestamp", "X-Custom-Header", "Accept", "Content-Type", "Idempotency-Key"]
    );
    assert_eq!(plan.headers[1].1, "1700000000123");
    let mut message = body.clone();
    message.extend_from_slice(b"1700000000123");
    assert_eq!(plan.headers[0].1, expected_hmac("top-secret", &message));
    assert_eq!(plan.headers[5].1, "key-1");
    assert_eq!(plan.body, body);
    assert!(plan.query.is_none());
}

#[test]
fn request_without_secret_has_no_signature() {
    let client = create_test_action("https://example.com", None, None);
    let plan = client.prepare_request(b"{}".to_vec(), 5, None).unwrap();
    assert_eq!(plan.headers, pairs(&[("Content-Type", "application/json")]));
}

#[test]
fn request_carries_url_params() {
    let config = WebhookConfig::new(Url::parse("https://example.com").unwrap())
        .with_url_params(pairs(&[("foo", "bar")]));
    let client = WebhookClient::new(config, create_test_http_client()).unwrap();
    let plan = client.prepare_request(b"{}".to_vec(), 0, None).unwrap();
    assert_eq!(plan.query, Some(pairs(&[("foo", "bar")])));
}

#[test]
fn request_refuses_invalid_header_name() {
    let client = create_test_action(
        "https://example.com",
        None,
        Some(pairs(&[("Invalid Header!@#", "value")])),
    );
    let err = client.prepare_request(b"{}".to_vec(), 0, None).unwrap_err();
    assert!(err.to_string().contains("Invalid header name"));
    match err {
        OmnihookError::NotifyFailed(m) => assert_eq!(
            m,
            "Invalid header name: Invalid Header!@#: invalid HTTP header name"
        ),
        other => panic!("unexpected: {:?}", other),
    }
}

#[test]
fn request_refuses_invalid_header_value() {
    let client = create_test_action(
        "https://example.com",
        None,
        Some(pairs(&[("X-Custom-Header", "Invalid\nValue")])),
    );
    let err = client.prepare_request(b"{}".to_vec(), 0, None).unwrap_err();
    assert!(err.to_string().contains("Invalid header value"));
    assert_eq!(
        err.to_string(),
        "Notification failed: Invalid header value for X-Custom-Header: Invalid\nValue: failed to parse header value"
    );
}

#[test]
fn request_refuses_invalid_idempotency_key() {
    let client = create_test_action("https://example.com", None, None);
    let err = client.prepare_request(b"{}".to_vec(), 0, Some("bad\u{7f}key")).unwrap_err();
    assert_eq!(
        err.to_string(),
        "Notification failed: Invalid idempotency key value: failed to parse header value"
    );
}

#[test]
fn request_refuses_timestamp_overflow() {
    let client = create_test_action("https://example.com", Some("s"), None);
    let err = client.prepare_request(b"{}".to_vec(), (i64::MAX as u128) + 1, None).unwrap_err();
    assert_eq!(err.to_string(), "Signing error: Timestamp overflow");
}

#[test]
fn request_with_empty_secret_fails_to_sign() {
    let client = create_test_action("https://example.com", Some(""), None);
    let err = client.prepare_request(b"{}".to_vec(), 1, None).unwrap_err();
    assert_eq!(err.to_string(), "Signing error: Invalid secret: cannot be empty.");
}

#[test]
fn response_outcomes() {
    let quiet = create_test_action("https://example.com", None, None);
    assert!(matches!(quiet.response_outcome(200, "200 OK"), ResponseOutcome::Delivered));
    assert!(matches!(quiet.response_outcome(299, "299"), ResponseOutcome::Delivered));
    match quiet.response_outcome(400, "400 Bad Request") {
        ResponseOutcome::Refused(e) => {
            let msg = e.to_string();
            assert!(msg.contains("400 Bad Request"));
            assert_eq!(msg, "Notification failed: Webhook request failed with status: 400 Bad Request");
        }
        other => panic!("unexpected: {:?}", other),
    }
    let config = WebhookConfig::new(Url::parse("https://example.com").unwrap()).with_error_body(true);
    let verbose = WebhookClient::new(config, create_test_http_client()).unwrap();
    assert!(matches!(
        verbose.response_outcome(500, "500 Internal Server Error"),
        ResponseOutcome::ReadErrorBody
    ));
    assert!(matches!(verbose.response_outcome(204, "204 No Content"), ResponseOutcome::Delivered));
}

#[test]
fn config_defaults_to_post_and_clones() {
    let url = Url::parse("https://example.com/hook").unwrap();
    let config = WebhookConfig::new(url.clone()).with_header("X-A", "1");
    assert_eq!(config.method(), HttpMethod::Post);
    assert_eq!(config.method().as_str(), "POST");
    assert_eq!(HttpMethod::Patch.as_str(), "PATCH");
    assert!(config.secret().is_none());
    assert!(config.url_params().is_none());
    assert!(config.timeout().is_none());
    assert!(!config.include_error_body());
    let copy = config.clone();
    assert_eq!(copy.url(), &url);
    assert_eq!(copy.method(), HttpMethod::Post);
    assert_eq!(copy.headers().unwrap().get("X-A").unwrap(), "1");
    let client = WebhookClient::new(copy, create_test_http_client()).unwrap();
    assert_eq!(client.method(), HttpMethod::Post);
}

#[test]
fn decimal_timestamps() {
    let (_, stamp) = WebhookClient::sign_payload("k", b"", i64::MIN).unwrap();
    assert_eq!(stamp, "-9223372036854775808");
    let (_, stamp) = WebhookClient::sign_payload("k", b"", 0).unwrap();
    assert_eq!(stamp, "0");
    let (_, stamp) = WebhookClient::sign_payload("k", b"", i64::MAX).unwrap();
    assert_eq!(stamp, "9223372036854775807");
}

struct CountBuilder;

impl WebhookPayloadBuilder for CountBuilder {
    fn build_payload(&self, title: &str, _body: &str) -> JsonValue {
        JsonValue::Object(vec![
            ("title".to_string(), JsonValue::String(title.to_string())),
            ("count".to_string(), JsonValue::Integer(3)),
            ("delta".to_string(), JsonValue::Integer(-7)),
            ("max".to_string(), JsonValue::Integer(i64::MAX)),
        ])
    }
}

#[test]
fn custom_builder_integer_members_are_json_numbers() {
    let payload = CountBuilder.build_payload("Disk", "ignored");
    let value = to_serde(&payload);
    assert_eq!(value["count"], serde_json::Value::from(3i64));
    assert_eq!(value["delta"], serde_json::Value::from(-7i64));
    assert_eq!(value["max"], serde_json::Value::from(i64::MAX));
    let bytes = serde_json::to_vec(&value).unwrap();
    let text = String::from_utf8(bytes.clone()).unwrap();
    assert!(text.contains("\"count\":3"));
    assert!(text.contains("\"delta\":-7"));
    assert!(text.contains("\"max\":9223372036854775807"));
    let (signature, stamp) = WebhookClient::sign_payload("k", &bytes, 10).unwrap();
    assert_eq!(stamp, "10");
    let mut message = bytes.clone();
    message.extend_from_slice(b"10");
    assert_eq!(signature, expected_hmac("k", &message));
}
