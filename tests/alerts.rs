use chatgate::alerts::{
    custom_code_block, custom_payload, outgoing_text, safe_http_url, sanitize_field,
    supabase_payload, transform_custom, transform_supabase, transform_upstash, transform_vercel,
    truncate_bytes, upstash_payload, vercel_payload, VercelPayload,
};

fn json(text: &str) -> serde_json::Value {
    serde_json::from_str(text).unwrap()
}

#[test]
fn safe_http_url_accepts_https() {
    assert_eq!(safe_http_url("https://example.com"), Some("https://example.com".to_string()));
}

#[test]
fn safe_http_url_prepends_https_to_bare_host() {
    assert_eq!(safe_http_url("myapp.vercel.app"), Some("https://myapp.vercel.app".to_string()));
}

#[test]
fn safe_http_url_rejects_javascript_scheme() {
    assert_eq!(safe_http_url("javascript:alert(1)"), None);
}

#[test]
fn sanitize_field_strips_mention_and_link_chars() {
    let out = sanitize_field("@channel [click here](http://evil.com) **bold**", 512);
    assert!(!out.contains('@'));
    assert!(!out.contains('['));
    assert!(!out.contains('*'));
}

#[test]
fn sanitize_field_strips_heading_and_blockquote_chars() {
    let out = sanitize_field("# Heading\n> Quote", 512);
    assert!(!out.contains('#'));
    assert!(!out.contains('>'));
}

#[test]
fn truncate_bytes_stays_on_utf8_boundary() {
    let s = "日本語";
    assert_eq!(s.len(), 9);
    let result = truncate_bytes(s, 5);
    assert!(s.is_char_boundary(result.len()));
    assert_eq!(result, "日");
}

#[test]
fn truncate_bytes_exact_boundary_unchanged() {
    let s = "abc";
    assert_eq!(truncate_bytes(s, 3), "abc");
    assert_eq!(truncate_bytes(s, 10), "abc");
}

#[test]
fn truncate_bytes_zero_max_returns_empty() {
    assert_eq!(truncate_bytes("hello", 0), "");
}

#[test]
fn safe_http_url_rejects_control_characters() {
    assert_eq!(safe_http_url("https://example.com/\nX-Injected: header"), None);
    assert_eq!(safe_http_url("https://example.com/\0null"), None);
    assert_eq!(safe_http_url("https://example.com/\rpath"), None);
}

#[test]
fn safe_http_url_keeps_http_and_rejects_ftp() {
    assert_eq!(safe_http_url("http://x.io/a"), Some("http://x.io/a".to_string()));
    assert_eq!(safe_http_url("ftp://x.io"), None);
    assert_eq!(safe_http_url("\u{85}x"), None);
}

#[test]
fn sanitize_field_exact_output_and_limit() {
    assert_eq!(sanitize_field("a@b[c]d", 512), "abcd");
    assert_eq!(sanitize_field("a@b[c]d", 2), "ab");
    assert_eq!(sanitize_field("", 5), "");
}

#[test]
fn vercel_succeeded_formats_correctly() {
    let payload = json(r#"{
        "type": "deployment.succeeded",
        "payload": {
            "project": {"name": "zeroclaw-dashboard"},
            "deployment": {
                "url": "zeroclaw-dashboard-abc.vercel.app",
                "meta": {"githubCommitMessage": "fix: handle edge case"}
            },
            "links": {"deployment": "https://vercel.com/team/zeroclaw-dashboard/abc"}
        }
    }"#);
    let msg = transform_vercel(&vercel_payload(&payload));
    assert!(msg.contains("zeroclaw-dashboard"));
    assert!(msg.contains("Deploy succeeded"));
    assert!(msg.contains("fix: handle edge case"));
    assert!(msg.contains("zeroclaw-dashboard-abc.vercel.app"));
}

#[test]
fn vercel_failed_uses_failure_status() {
    let payload = json(r#"{"type": "deployment.failed", "payload": {"project": {"name": "zeroclaw-api"}, "deployment": {}, "links": {}}}"#);
    let msg = transform_vercel(&vercel_payload(&payload));
    assert!(msg.contains("Deploy failed"));
    assert!(msg.contains("zeroclaw-api"));
}

#[test]
fn vercel_unknown_type_passes_through() {
    let payload = json(r#"{"type": "deployment.queued", "payload": {"project": {"name": "proj"}, "deployment": {}, "links": {}}}"#);
    assert!(transform_vercel(&vercel_payload(&payload)).contains("deployment.queued"));
}

#[test]
fn vercel_prepends_https_to_bare_hostname() {
    let payload = json(r#"{"type": "deployment.succeeded", "payload": {"project": {"name": "proj"}, "deployment": {"url": "myapp-abc.vercel.app"}, "links": {}}}"#);
    let msg = transform_vercel(&vercel_payload(&payload));
    assert!(msg.contains("https://myapp-abc.vercel.app"));
    assert!(!msg.contains("https://https://"));
}

#[test]
fn vercel_rejects_non_http_inspector_url() {
    let payload = json(r#"{"type": "deployment.succeeded", "payload": {"project": {"name": "proj"}, "deployment": {}, "links": {"deployment": "javascript:alert(1)"}}}"#);
    let msg = transform_vercel(&vercel_payload(&payload));
    assert!(!msg.contains("javascript:"));
    assert!(!msg.contains("View deployment"));
}

#[test]
fn vercel_strips_at_mentions_from_commit_msg() {
    let payload = json(r#"{"type": "deployment.succeeded", "payload": {"project": {"name": "proj"}, "deployment": {"meta": {"githubCommitMessage": "@channel urgent fix"}}, "links": {}}}"#);
    let msg = transform_vercel(&vercel_payload(&payload));
    assert!(!msg.contains("@channel"));
    assert!(msg.contains("channel urgent fix"));
}

#[test]
fn vercel_message_exact_text() {
    let msg = transform_vercel(&VercelPayload {
        event_type: "deployment.promoted".into(),
        project: "web".into(),
        url: String::new(),
        inspector: String::new(),
        commit: String::new(),
    });
    assert_eq!(msg, ":rocket: **Vercel** \u{b7} **web** \u{2014} Deploy promoted to production");
}

#[test]
fn supabase_alert_formats_correctly() {
    let payload = json(r#"{"alert_name": "High CPU", "project_ref": "zeroclaw-project", "message": "CPU above 80%"}"#);
    let msg = transform_supabase(&supabase_payload(&payload));
    assert!(msg.contains("High CPU"));
    assert!(msg.contains("zeroclaw-project"));
    assert!(msg.contains("CPU above 80%"));
}

#[test]
fn supabase_edge_function_error_formats_correctly() {
    let payload = json(r#"{"error": "timeout after 5000ms", "function_name": "process-webhook"}"#);
    let msg = transform_supabase(&supabase_payload(&payload));
    assert!(msg.contains("process-webhook"));
    assert!(msg.contains("timeout after 5000ms"));
}

#[test]
fn supabase_db_event_formats_correctly() {
    let payload = json(r#"{"type": "INSERT", "table": "issues", "schema": "public"}"#);
    let msg = transform_supabase(&supabase_payload(&payload));
    assert!(msg.contains("public.issues"));
    assert!(msg.contains("INSERT"));
}

#[test]
fn upstash_rate_limit_formats_correctly() {
    let payload = json(r#"{"event": "rate_limit_exceeded", "database_id": "zeroclaw-cache", "message": "100 req/s limit hit"}"#);
    let msg = transform_upstash(&upstash_payload(&payload));
    assert!(msg.contains("zeroclaw-cache"));
    assert!(msg.contains("Rate limit exceeded"));
    assert!(msg.contains("100 req/s limit hit"));
}

#[test]
fn upstash_unknown_event_passes_through() {
    let payload = json(r#"{"event": "custom_event", "database_id": "db"}"#);
    assert!(transform_upstash(&upstash_payload(&payload)).contains("custom_event"));
}

#[test]
fn custom_with_message_field() {
    let payload = json(r#"{"message": "build finished", "source": "jenkins"}"#);
    let msg = transform_custom(&custom_payload(&payload));
    assert!(msg.contains("jenkins"));
    assert!(msg.contains("build finished"));
}

#[test]
fn custom_webhook_channel_mention_is_sanitized() {
    let payload = json(r#"{"message": "@channel urgent"}"#);
    let msg = transform_custom(&custom_payload(&payload));
    assert!(msg.contains("channel urgent"));
    assert!(!msg.contains("@channel"));
}

#[test]
fn custom_without_message_renders_code_block() {
    let payload = json(r#"{"a": "```x"}"#);
    let msg = transform_custom(&custom_payload(&payload));
    assert!(msg.starts_with(":incoming_envelope: **Custom webhook**\n```json\n"));
    assert!(msg.ends_with("\n```"));
    assert!(msg.contains("\\`\\`\\`x"));
}

#[test]
fn custom_code_block_truncates_long_json() {
    let long = "x".repeat(5000);
    let msg = custom_code_block(&long);
    assert!(msg.contains("...(truncated)"));
    assert!(msg.len() < 4100);
}

#[test]
fn outgoing_text_is_cut_at_limit() {
    let long = "é".repeat(9000);
    let out = outgoing_text(&long);
    assert_eq!(out.len(), 16000);
    assert_eq!(outgoing_text("short"), "short");
}

#[test]
fn custom_without_message_falls_back_to_code_block() {
    let msg = transform_custom(&custom_payload(&json(r#"{"foo": "bar", "count": 42}"#)));
    assert!(msg.contains("Custom webhook"));
    assert!(msg.contains("foo"));
}

#[test]
fn custom_strips_at_mentions() {
    let msg = transform_custom(&custom_payload(&json(r#"{"message": "@here urgent security alert", "source": "prod-monitor"}"#)));
    assert!(!msg.contains("@here"), "@ mentions must be stripped");
    assert!(msg.contains("here urgent security alert"));
}

#[test]
fn custom_truncates_large_json_payload() {
    let large_value = json(&format!("{{\"data\": \"{}\"}}", "x".repeat(5000)));
    let msg = transform_custom(&custom_payload(&large_value));
    assert!(msg.contains("truncated"), "large payloads must be truncated");
}
