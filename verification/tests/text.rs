use tokencamp::config::{
    default_allowed_fails, default_cooldown_time, default_num_retries, default_retry_after_ms, resolve_env_vars,
    RouterSettings,
};
use tokencamp::extractors::{data_error_text, JsonErrorResponse, RejectionKind};
use tokencamp::strmap::StrMap;
use tokencamp::text::{is_valid_header_value, parse_count, u64_to_decimal};

#[test]
fn decimal_text() {
    assert_eq!(u64_to_decimal(0), "0");
    assert_eq!(u64_to_decimal(7), "7");
    assert_eq!(u64_to_decimal(1234567890), "1234567890");
    assert_eq!(u64_to_decimal(u64::MAX), u64::MAX.to_string());
}

#[test]
fn counts_are_read_from_digits() {
    assert_eq!(parse_count("42"), 42);
    assert_eq!(parse_count("007"), 7);
    assert_eq!(parse_count(""), 0);
    assert_eq!(parse_count("4x"), 0);
    assert_eq!(parse_count("-1"), 0);
    assert_eq!(parse_count("99999999999999999999999"), u64::MAX);
}

#[test]
fn header_values() {
    assert!(is_valid_header_value("Bearer sk-1"));
    assert!(is_valid_header_value("tab\there"));
    assert!(!is_valid_header_value("line\nbreak"));
    assert!(!is_valid_header_value("del\u{7f}"));
}

#[test]
fn config_defaults() {
    assert_eq!(default_num_retries(), 3);
    assert_eq!(default_retry_after_ms(), 500);
    assert_eq!(default_allowed_fails(), 3);
    assert_eq!(default_cooldown_time(), 30);
    let s = RouterSettings::default();
    assert_eq!(s.routing_strategy, "simple_shuffle");
    assert_eq!(s.latency_window_size, 100);
}

#[test]
fn env_placeholders() {
    let mut env = StrMap::new();
    env.insert("KEY", "sk-1".to_string());
    env.insert("HOST", "example.com".to_string());
    assert_eq!(resolve_env_vars("api_key: ${KEY}", &env), "api_key: sk-1");
    assert_eq!(resolve_env_vars("a: ${KEY} b: ${KEY} c: ${HOST}", &env), "a: sk-1 b: sk-1 c: example.com");
    assert_eq!(resolve_env_vars("x: ${UNSET}", &env), "x: ${UNSET}");
    assert_eq!(resolve_env_vars("x: ${KEY", &env), "x: ${KEY");
    assert_eq!(resolve_env_vars("no placeholders", &env), "no placeholders");
    assert_eq!(resolve_env_vars("", &env), "");
}

#[test]
fn env_values_are_substituted_in_order() {
    let mut env = StrMap::new();
    env.insert("A", "${B}".to_string());
    env.insert("B", "b".to_string());
    assert_eq!(resolve_env_vars("${A} ${B}", &env), "b b");
    assert_eq!(resolve_env_vars("${B} ${A}", &env), "b ${B}");
}

#[test]
fn json_error_messages() {
    assert_eq!(data_error_text("Failed to deserialize: missing field `model` at line 1 column 2"), "'model' is required");
    assert_eq!(data_error_text("missing field 'messages'"), "'messages' is required");
    assert_eq!(data_error_text("x missing field \n `a b` missing field `c`"), "'a' is required");
    assert_eq!(
        data_error_text("invalid type: string \"x\", expected u32 at line 1 column 20"),
        "string \"x\", expected u32 1 20"
    );
    assert_eq!(data_error_text("something else"), "invalid request body");
}

#[test]
fn rejection_answers() {
    let r = JsonErrorResponse::from_rejection(RejectionKind::JsonSyntaxError, "");
    assert_eq!(r.message(), "invalid JSON");
    assert_eq!(r.status(), 400);
    assert_eq!(r.error_type(), "invalid_request_error");
    let r = JsonErrorResponse::from_rejection(RejectionKind::MissingJsonContentType, "");
    assert_eq!(r.message(), "Content-Type must be application/json");
    let r = JsonErrorResponse::from_rejection(RejectionKind::Other, "");
    assert_eq!(r.message(), "invalid request");
    let r = JsonErrorResponse::from_rejection(RejectionKind::JsonDataError, "missing field `model`");
    assert_eq!(r.message(), "'model' is required");
}
