use minitrace::clock::Timestamp;
use minitrace::context::Context;
use minitrace::payload::Payload;
use minitrace::span::{Span, SPAN_KIND_PDO, SPAN_KIND_URL};

fn at(micros: i64, clock: &str) -> Timestamp {
    Timestamp { micros, clock: clock.to_string() }
}

fn is_clock(s: &str) -> bool {
    let c: Vec<char> = s.chars().collect();
    c.len() == 12
        && c[2] == ':'
        && c[5] == ':'
        && c[8] == '.'
        && c.iter().enumerate().all(|(i, ch)| i == 2 || i == 5 || i == 8 || ch.is_ascii_digit())
}

#[test]
fn span_json_of_a_closed_span() {
    let mut payload = Payload::new();
    payload.insert("statement".to_string(), "SELECT \"x\"".to_string());
    let mut span = Span::new_at("tid".to_string(), "PDO", "query", payload, at(1_000, "10:00:00.001"));
    span.end_at(at(3_500, "10:00:00.003"));
    assert_eq!(
        span.to_json(),
        "{\"trace_id\":\"tid\",\"kind\":\"PDO\",\"name\":\"query\",\"payload\":{\"statement\":\"SELECT \\\"x\\\"\"},\"start_time\":\"10:00:00.001\",\"end_time\":\"10:00:00.003\",\"duration_in_micro\":2500}"
    );
}

#[test]
fn span_json_of_an_open_span_and_empty_payload() {
    let span = Span::new_at("t".to_string(), "URL", "/", Payload::new(), at(5, "00:00:00.000"));
    assert_eq!(
        span.to_json(),
        "{\"trace_id\":\"t\",\"kind\":\"URL\",\"name\":\"/\",\"payload\":{},\"start_time\":\"00:00:00.000\",\"end_time\":\"00:00:00.000\",\"duration_in_micro\":0}"
    );
}

#[test]
fn span_duration_can_be_negative_and_wraps() {
    let mut span = Span::new_at("t".to_string(), "URL", "/", Payload::new(), at(10, "00:00:00.000"));
    span.end_at(at(4, "00:00:00.000"));
    assert!(span.to_json().ends_with("\"duration_in_micro\":-6}"));
    let mut span = Span::new_at("t".to_string(), "URL", "/", Payload::new(), at(i64::MIN, "00:00:00.000"));
    span.end_at(at(i64::MAX, "00:00:00.000"));
    assert!(span.to_json().ends_with("\"duration_in_micro\":-1}"));
}

#[test]
fn span_json_is_one_line() {
    let span = Span::new_at("t".to_string(), "ERROR", "a\nb\r", Payload::single("k\n".to_string(), "v\r\n".to_string()), at(0, "00:00:00.000"));
    let json = span.to_json();
    assert!(!json.contains('\n'));
    assert!(!json.contains('\r'));
}

#[test]
fn span_extend_payload_and_set_trace_id() {
    let mut span = Span::new_at("t".to_string(), "PDO", "exec", Payload::single("a".to_string(), "1".to_string()), at(0, "00:00:00.000"));
    span.extend_payload(Payload::single("a".to_string(), "2".to_string()));
    span.set_trace_id("other");
    assert_eq!(span.trace_id(), "other");
    assert!(span.to_json().contains("\"payload\":{\"a\":\"2\"}"));
}

#[test]
fn span_from_the_clock() {
    let mut span = Span::new("t".to_string(), "URL", "/", Payload::new());
    span.end();
    let json = span.to_json();
    let start = json.find("\"start_time\":\"").unwrap() + 14;
    assert!(is_clock(&json[start..start + 12]));
    let end = json.find("\"end_time\":\"").unwrap() + 12;
    assert!(is_clock(&json[end..end + 12]));
}

#[test]
fn clock_reading_has_the_clock_shape() {
    let t = Timestamp::now();
    assert!(is_clock(&t.clock));
    assert!(t.micros > 1_500_000_000_000_000);
    let c = t.copy();
    assert_eq!(c.micros, t.micros);
    assert_eq!(c.clock, t.clock);
}

#[test]
fn trace_id_is_a_random_v4_uuid() {
    let a = Context::new();
    let b = Context::new();
    let id: Vec<char> = a.get_trace_id().chars().collect();
    assert_eq!(id.len(), 36);
    for (i, c) in id.iter().enumerate() {
        if i == 8 || i == 13 || i == 18 || i == 23 {
            assert_eq!(*c, '-');
        } else {
            assert!(c.is_ascii_digit() || ('a'..='f').contains(c));
        }
    }
    assert_eq!(id[14], '4');
    assert!("89ab".contains(id[19]));
    assert_ne!(a.get_trace_id(), b.get_trace_id());
}

#[test]
fn context_records_spans_in_order() {
    let mut ctx = Context::new();
    assert!(ctx.trace_lines().is_empty());
    ctx.start_root_span(SPAN_KIND_URL, "/index", Payload::single("method".to_string(), "GET".to_string()));
    ctx.start_span(SPAN_KIND_PDO, "exec", Payload::new());
    ctx.extend_span_payload(Payload::single("return_value".to_string(), "1".to_string()));
    ctx.end_span();
    ctx.start_span(SPAN_KIND_PDO, "query", Payload::new());
    ctx.end_span();
    ctx.extend_root_span_payload(Payload::single("status_code".to_string(), "200".to_string()));
    ctx.end_root_span();
    let lines = ctx.trace_lines();
    assert_eq!(lines.len(), 3);
    let head = format!("{{\"trace_id\":\"{}\",", ctx.get_trace_id());
    for l in &lines {
        assert!(l.starts_with(&head));
        assert!(!l.contains('\n'));
    }
    assert!(lines[0].contains("\"kind\":\"PDO\",\"name\":\"exec\",\"payload\":{\"return_value\":\"1\"}"));
    assert!(lines[1].contains("\"name\":\"query\",\"payload\":{}"));
    assert!(lines[2].contains("\"kind\":\"URL\",\"name\":\"/index\",\"payload\":{\"method\":\"GET\",\"status_code\":\"200\"}"));
}
