use std::path::PathBuf;

use zeroclaw::claude_code::{
    ClaudeCodeProvider, ClaudeJsonOutput, CliOutputError, DEFAULT_MODEL_MARKER,
};
use zeroclaw::text::trim;

/// Reads the CLI's JSON output the way the typed decoding does: `result` and
/// `session_id` are optional strings, `is_error` an optional boolean.
fn decode(stdout: &str) -> Option<ClaudeJsonOutput> {
    let trimmed = trim(stdout);
    let value: serde_json::Value = serde_json::from_str(&trimmed).ok()?;
    let object = value.as_object()?;
    let text_field = |name: &str| -> Result<Option<String>, ()> {
        match object.get(name) {
            None => Ok(None),
            Some(serde_json::Value::Null) => Ok(None),
            Some(serde_json::Value::String(s)) => Ok(Some(s.clone())),
            Some(_) => Err(()),
        }
    };
    let result = text_field("result").ok()?;
    let session_id = text_field("session_id").ok()?;
    let is_error = match object.get("is_error") {
        None => false,
        Some(serde_json::Value::Bool(b)) => *b,
        Some(_) => return None,
    };
    Some(ClaudeJsonOutput { result, session_id, is_error })
}

fn parse(stdout: &str) -> (String, Option<String>) {
    ClaudeCodeProvider::parse_output(stdout, decode(stdout))
}

// ── Constructor ──

/// The executable name used in these tests when no override is configured.
const DEFAULT_BINARY: &str = "agent-cli";

/// How error messages name the CLI in these tests.
const PRODUCT: &str = "Agent Code";

fn provider() -> ClaudeCodeProvider {
    ClaudeCodeProvider::new(None, DEFAULT_BINARY, PRODUCT)
}

#[test]
fn new_uses_env_override() {
    let provider = ClaudeCodeProvider::new(Some("/usr/local/bin/agent-cli".to_string()), DEFAULT_BINARY, PRODUCT);
    assert_eq!(PathBuf::from(provider.binary_path()), PathBuf::from("/usr/local/bin/agent-cli"));
}

#[test]
fn new_defaults_to_claude() {
    let provider = provider();
    assert_eq!(PathBuf::from(provider.binary_path()), PathBuf::from(DEFAULT_BINARY));
}

#[test]
fn new_ignores_blank_env_override() {
    let provider = ClaudeCodeProvider::new(Some("   ".to_string()), DEFAULT_BINARY, PRODUCT);
    assert_eq!(PathBuf::from(provider.binary_path()), PathBuf::from(DEFAULT_BINARY));
}

#[test]
fn new_keeps_product_name() {
    assert_eq!(provider().product_name(), PRODUCT);
}

#[test]
fn new_keeps_override_untrimmed() {
    let provider = ClaudeCodeProvider::new(Some(" /opt/agent ".to_string()), DEFAULT_BINARY, PRODUCT);
    assert_eq!(provider.binary_path(), " /opt/agent ");
}

// ── Model forwarding ──

#[test]
fn should_forward_model_standard() {
    assert!(ClaudeCodeProvider::should_forward_model("sonnet-4-20250514"));
    assert!(ClaudeCodeProvider::should_forward_model("3.5-sonnet"));
}

#[test]
fn should_not_forward_default_model() {
    assert!(!ClaudeCodeProvider::should_forward_model(DEFAULT_MODEL_MARKER));
    assert!(!ClaudeCodeProvider::should_forward_model(""));
    assert!(!ClaudeCodeProvider::should_forward_model("   "));
}

#[test]
fn should_not_forward_padded_default_model() {
    assert!(!ClaudeCodeProvider::should_forward_model("  default\n"));
    assert!(ClaudeCodeProvider::should_forward_model("Default"));
}

// ── CWD directive ──

#[test]
fn extract_cwd_parses_directive() {
    let (cwd, rest) =
        ClaudeCodeProvider::extract_cwd("[ZEROCLAW_CWD:/Users/dustin/projects/alpha]\nHello world");
    assert_eq!(PathBuf::from(cwd.unwrap()), PathBuf::from("/Users/dustin/projects/alpha"));
    assert_eq!(rest, "Hello world");
}

#[test]
fn extract_cwd_returns_none_without_directive() {
    let (cwd, rest) = ClaudeCodeProvider::extract_cwd("Hello world");
    assert!(cwd.is_none());
    assert_eq!(rest, "Hello world");
}

#[test]
fn extract_cwd_trims_value_and_drops_all_leading_newlines() {
    let (cwd, rest) = ClaudeCodeProvider::extract_cwd("[ZEROCLAW_CWD:  /srv/a \t]\n\n\nfirst\nsecond");
    assert_eq!(cwd.unwrap(), "/srv/a");
    assert_eq!(rest, "first\nsecond");
}

#[test]
fn extract_cwd_without_closing_bracket_keeps_message() {
    let (cwd, rest) = ClaudeCodeProvider::extract_cwd("[ZEROCLAW_CWD:/srv/a\nHello");
    assert!(cwd.is_none());
    assert_eq!(rest, "[ZEROCLAW_CWD:/srv/a\nHello");
}

#[test]
fn extract_cwd_stops_at_first_bracket() {
    let (cwd, rest) = ClaudeCodeProvider::extract_cwd("[ZEROCLAW_CWD:/a]b]\nc");
    assert_eq!(cwd.unwrap(), "/a");
    assert_eq!(rest, "b]\nc");
}

// ── Session key directive ──

#[test]
fn extract_session_key_parses_directive() {
    let (key, rest) =
        ClaudeCodeProvider::extract_session_key("[ZEROCLAW_SESSION_KEY:!room123:server]\nHello world");
    assert_eq!(key.unwrap(), "!room123:server");
    assert_eq!(rest, "Hello world");
}

#[test]
fn extract_session_key_returns_none_without_directive() {
    let (key, rest) = ClaudeCodeProvider::extract_session_key("Hello world");
    assert!(key.is_none());
    assert_eq!(rest, "Hello world");
}

#[test]
fn extract_session_key_ignores_empty_key() {
    let (key, rest) = ClaudeCodeProvider::extract_session_key("[ZEROCLAW_SESSION_KEY:]\nHello");
    assert!(key.is_none());
    assert_eq!(rest, "[ZEROCLAW_SESSION_KEY:]\nHello");
}

#[test]
fn extract_session_key_ignores_blank_key() {
    let (key, rest) = ClaudeCodeProvider::extract_session_key("[ZEROCLAW_SESSION_KEY: \u{3000} ]Hi");
    assert!(key.is_none());
    assert_eq!(rest, "[ZEROCLAW_SESSION_KEY: \u{3000} ]Hi");
}

// ── Combined directive extraction ──

#[test]
fn extract_chained_directives() {
    let input = "[ZEROCLAW_CWD:/projects/a]\n[ZEROCLAW_SESSION_KEY:room1]\nWhat time is it?";
    let (cwd, rest) = ClaudeCodeProvider::extract_cwd(input);
    assert_eq!(PathBuf::from(cwd.unwrap()), PathBuf::from("/projects/a"));
    let (key, rest) = ClaudeCodeProvider::extract_session_key(&rest);
    assert_eq!(key.unwrap(), "room1");
    assert_eq!(rest, "What time is it?");
}

// ── JSON output parsing ──

#[test]
fn parse_output_extracts_result_and_session() {
    let json = r#"{"type":"result","subtype":"success","is_error":false,"result":"Hello world","session_id":"abc-123","total_cost_usd":0.01}"#;
    let (text, session_id) = parse(json);
    assert_eq!(text, "Hello world");
    assert_eq!(session_id.unwrap(), "abc-123");
}

#[test]
fn parse_output_handles_error_response() {
    let json = r#"{"type":"result","is_error":true,"result":"Not logged in","session_id":"def-456"}"#;
    let (text, session_id) = parse(json);
    assert_eq!(text, "Not logged in");
    assert_eq!(session_id.unwrap(), "def-456");
}

#[test]
fn parse_output_handles_missing_fields() {
    let json = r#"{"type":"result"}"#;
    let (text, session_id) = parse(json);
    assert_eq!(text, "");
    assert!(session_id.is_none());
}

#[test]
fn parse_output_falls_back_to_raw_text() {
    let raw = "This is plain text, not JSON";
    let (text, session_id) = parse(raw);
    assert_eq!(text, raw);
    assert!(session_id.is_none());
}

#[test]
fn parse_output_fallback_is_trimmed() {
    let (text, session_id) = ClaudeCodeProvider::parse_output("\n  plain answer \n", None);
    assert_eq!(text, "plain answer");
    assert!(session_id.is_none());
}

// ── Session storage ──

#[test]
fn session_store_and_retrieve() {
    let mut provider = provider();
    assert!(provider.get_session("room1").is_none());

    provider.set_session("room1".into(), "session-abc".into());
    assert_eq!(provider.get_session("room1").unwrap(), "session-abc");

    // Update overwrites.
    provider.set_session("room1".into(), "session-def".into());
    assert_eq!(provider.get_session("room1").unwrap(), "session-def");
}

#[test]
fn session_clear_removes_entry() {
    let mut provider = provider();
    provider.set_session("room1".into(), "session-abc".into());
    provider.clear_session("room1");
    assert!(provider.get_session("room1").is_none());
}

#[test]
fn session_clear_nonexistent_is_noop() {
    let mut provider = provider();
    provider.set_session("room2".into(), "session-keep".into());
    provider.clear_session("nonexistent");
    assert_eq!(provider.get_session("room2").unwrap(), "session-keep");
}

#[test]
fn session_keys_are_independent() {
    let mut provider = provider();
    provider.set_session("a".into(), "1".into());
    provider.set_session("b".into(), "2".into());
    provider.clear_session("a");
    assert!(provider.get_session("a").is_none());
    assert_eq!(provider.get_session("b").unwrap(), "2");
}

// ── Response session extraction ──

#[test]
fn store_session_from_response_extracts_and_stores() {
    let mut provider = provider();
    let mut response = "[ZEROCLAW_NEW_SESSION:sess-xyz]\nHello world".to_string();
    provider.store_session_from_response(&mut response, Some("room1"));
    assert_eq!(response, "Hello world");
    assert_eq!(provider.get_session("room1").unwrap(), "sess-xyz");
}

#[test]
fn store_session_from_response_no_directive() {
    let mut provider = provider();
    let mut response = "Hello world".to_string();
    provider.store_session_from_response(&mut response, Some("room1"));
    assert_eq!(response, "Hello world");
    assert!(provider.get_session("room1").is_none());
}

#[test]
fn store_session_from_response_no_key_strips_but_does_not_store() {
    let mut provider = provider();
    let mut response = "[ZEROCLAW_NEW_SESSION:sess-xyz]\nHello world".to_string();
    provider.store_session_from_response(&mut response, None);
    assert_eq!(response, "Hello world");
    assert!(provider.get_session("anything").is_none());
}

#[test]
fn store_session_from_response_accepts_empty_id() {
    let mut provider = provider();
    let mut response = "[ZEROCLAW_NEW_SESSION:]\nHi".to_string();
    provider.store_session_from_response(&mut response, Some("k"));
    assert_eq!(response, "Hi");
    assert_eq!(provider.get_session("k").unwrap(), "");
}

#[test]
fn session_response_round_trip() {
    let tagged = ClaudeCodeProvider::session_response("Hello world".into(), Some("abc-123".into()));
    assert_eq!(tagged, "[ZEROCLAW_NEW_SESSION:abc-123]\nHello world");
    let mut provider = provider();
    let mut response = tagged;
    provider.store_session_from_response(&mut response, Some("room9"));
    assert_eq!(response, "Hello world");
    assert_eq!(provider.get_session("room9").unwrap(), "abc-123");
}

#[test]
fn session_response_without_id_is_text() {
    let r = ClaudeCodeProvider::session_response("plain".into(), None);
    assert_eq!(r, "plain");
}

// ── Command line ──

#[test]
fn cli_args_default_model_no_resume() {
    let args = ClaudeCodeProvider::cli_args("default", None);
    assert_eq!(
        args,
        vec!["--print", "--dangerously-skip-permissions", "--output-format", "json", "-"]
    );
}

#[test]
fn cli_args_with_resume_and_model() {
    let args = ClaudeCodeProvider::cli_args("opus-4", Some("sess-1"));
    assert_eq!(
        args,
        vec![
            "--print",
            "--dangerously-skip-permissions",
            "--output-format",
            "json",
            "--resume",
            "sess-1",
            "--model",
            "opus-4",
            "-"
        ]
    );
}

// ── Invocation and retry ──

#[test]
fn plan_invocation_resumes_stored_session() {
    let mut provider = provider();
    provider.set_session("room1".into(), "sess-old".into());
    let plan = provider.plan_invocation("[ZEROCLAW_CWD:/w]\n[ZEROCLAW_SESSION_KEY:room1]\nHi");
    assert_eq!(plan.cwd.as_deref(), Some("/w"));
    assert_eq!(plan.session_key.as_deref(), Some("room1"));
    assert_eq!(plan.prompt, "Hi");
    assert_eq!(plan.resume_session_id.as_deref(), Some("sess-old"));
}

#[test]
fn plan_invocation_without_directives() {
    let provider = provider();
    let plan = provider.plan_invocation("hello");
    assert!(plan.cwd.is_none());
    assert!(plan.session_key.is_none());
    assert_eq!(plan.prompt, "hello");
    assert!(plan.resume_session_id.is_none());
}

#[test]
fn failed_resume_is_retried_once_without_session() {
    let mut provider = provider();
    provider.set_session("room1".into(), "sess-stale".into());
    let plan = provider.plan_invocation("[ZEROCLAW_SESSION_KEY:room1]\nHi");
    let retry = provider.retry_after_failure(plan).expect("a resumed call is retried");
    assert!(retry.resume_session_id.is_none());
    assert_eq!(retry.prompt, "Hi");
    assert_eq!(retry.session_key.as_deref(), Some("room1"));
    assert!(provider.get_session("room1").is_none());
    assert!(provider.retry_after_failure(retry).is_none());
}

#[test]
fn failure_without_resume_is_not_retried() {
    let mut provider = provider();
    provider.set_session("other".into(), "sess".into());
    let plan = provider.plan_invocation("[ZEROCLAW_SESSION_KEY:room1]\nHi");
    assert!(provider.retry_after_failure(plan).is_none());
    assert_eq!(provider.get_session("other").unwrap(), "sess");
}

// ── Chat message ──

#[test]
fn compose_message_with_system_prompt() {
    let m = ClaudeCodeProvider::compose_message(Some("Be brief."), "Hi");
    assert_eq!(m, "Be brief.\n\nHi");
}

#[test]
fn compose_message_without_system_prompt() {
    assert_eq!(ClaudeCodeProvider::compose_message(None, "Hi"), "Hi");
    assert_eq!(ClaudeCodeProvider::compose_message(Some(""), "Hi"), "Hi");
}

#[test]
fn chat_session_key_after_cwd_directive() {
    let key = ClaudeCodeProvider::chat_session_key("[ZEROCLAW_CWD:/a]\n[ZEROCLAW_SESSION_KEY:r1]\nq");
    assert_eq!(key.as_deref(), Some("r1"));
    // A system prompt in front hides the directives, as in the original flow.
    let composed = ClaudeCodeProvider::compose_message(Some("sys"), "[ZEROCLAW_SESSION_KEY:r1]\nq");
    assert!(ClaudeCodeProvider::chat_session_key(&composed).is_none());
}

// ── Stderr and exit status ──

#[test]
fn redact_stderr_trims() {
    assert_eq!(ClaudeCodeProvider::redact_stderr(b"  \n error: boom \n"), "error: boom");
    assert_eq!(ClaudeCodeProvider::redact_stderr(b" \t\n"), "");
}

#[test]
fn redact_stderr_clips_long_output() {
    let long = "x".repeat(600);
    let r = ClaudeCodeProvider::redact_stderr(long.as_bytes());
    assert_eq!(r, format!("{}...", "x".repeat(512)));
    let exact = "y".repeat(512);
    assert_eq!(ClaudeCodeProvider::redact_stderr(exact.as_bytes()), exact);
}

#[test]
fn redact_stderr_counts_characters_not_bytes() {
    let long = "é".repeat(513);
    let r = ClaudeCodeProvider::redact_stderr(long.as_bytes());
    assert_eq!(r, format!("{}...", "é".repeat(512)));
}

#[test]
fn redact_stderr_replaces_invalid_utf8() {
    assert_eq!(ClaudeCodeProvider::redact_stderr(&[0x66, 0xff, 0x6f]), "f\u{FFFD}o");
}

#[test]
fn exit_failure_message_with_stderr() {
    let m = provider().exit_failure_message(Some(2), b"not logged in\n");
    assert_eq!(
        m,
        "Agent Code exited with non-zero status 2. Check that Agent Code is authenticated and the CLI is supported. Stderr: not logged in"
    );
}

#[test]
fn exit_failure_message_without_code_or_stderr() {
    let m = provider().exit_failure_message(None, b"");
    assert_eq!(
        m,
        "Agent Code exited with non-zero status -1. Check that Agent Code is authenticated and the CLI is supported."
    );
    let m = provider().exit_failure_message(Some(-2147483648), b"");
    assert!(m.starts_with("Agent Code exited with non-zero status -2147483648."));
}

#[test]
fn decode_cli_stdout_accepts_utf8_only() {
    let ok = ClaudeCodeProvider::decode_cli_stdout("héllo".as_bytes().to_vec());
    assert_eq!(ok.ok().unwrap(), "héllo");
    let err = ClaudeCodeProvider::decode_cli_stdout(vec![0x68, 0xc3]);
    assert!(matches!(err, Err(CliOutputError::NonUtf8Output(_))));
}

#[test]
fn trim_handles_unicode_whitespace() {
    assert_eq!(trim("\u{3000}\u{a0} x y \u{2028}"), "x y");
    assert_eq!(trim(""), "");
}
