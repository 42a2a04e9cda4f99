use minitrace::context::Context;
use minitrace::handlers::{minitrace_error_handler, minitrace_exception_handler};
use minitrace::request::{get_page_request_method, get_page_request_uri, init, shutdown, trace_header};

#[test]
fn request_uri_without_query() {
    assert_eq!(get_page_request_uri(Some("/a/b?x=1?y".to_string())), "/a/b");
    assert_eq!(get_page_request_uri(Some("/plain".to_string())), "/plain");
    assert_eq!(get_page_request_uri(Some("?only".to_string())), "");
    assert_eq!(get_page_request_uri(Some("/é?q".to_string())), "/é");
    assert_eq!(get_page_request_uri(None), "UNKNOWN");
}

#[test]
fn request_method_or_unknown() {
    assert_eq!(get_page_request_method(Some("POST".to_string())), "POST");
    assert_eq!(get_page_request_method(None), "UNKNOWN");
}

#[test]
fn header_carries_the_trace_id() {
    let ctx = Context::new();
    assert_eq!(trace_header(&ctx), format!("X-MiniTrace-Id: {}", ctx.get_trace_id()));
}

#[test]
fn a_whole_request() {
    let mut ctx = Context::new();
    init(&mut ctx, "{\"a\":\"1\"}".to_string(), "[]".to_string(), Some("/users?id=3".to_string()), Some("GET".to_string()));
    minitrace_error_handler(&mut ctx, 2, "Division by zero", "/app/x.php", 12);
    minitrace_exception_handler(&mut ctx, "RuntimeException", "oops", "/app/y.php", 7, "#0 {main}".to_string());
    shutdown(&mut ctx, 500);
    let lines = ctx.trace_lines();
    assert_eq!(lines.len(), 3);
    assert!(lines[0].contains("\"kind\":\"ERROR\",\"name\":\"E_WARNING: Division by zero in /app/x.php on line 12\",\"payload\":{}"));
    assert!(lines[1].contains("\"kind\":\"EXCEPTION\",\"name\":\"RuntimeException: oops in /app/y.php on line 7\",\"payload\":{\"trace\":\"#0 {main}\"}"));
    assert!(lines[2].contains("\"kind\":\"URL\",\"name\":\"/users\",\"payload\":{\"$_GET\":\"{\\\"a\\\":\\\"1\\\"}\",\"$_POST\":\"[]\",\"method\":\"GET\",\"status_code\":\"500\"}"));
    for l in &lines {
        assert!(l.starts_with(&format!("{{\"trace_id\":\"{}\"", ctx.get_trace_id())));
    }
}

#[test]
fn request_without_server_data() {
    let mut ctx = Context::new();
    init(&mut ctx, "null".to_string(), "null".to_string(), None, None);
    shutdown(&mut ctx, 200);
    let lines = ctx.trace_lines();
    assert_eq!(lines.len(), 1);
    assert!(lines[0].contains("\"name\":\"UNKNOWN\",\"payload\":{\"$_GET\":\"null\",\"$_POST\":\"null\",\"method\":\"UNKNOWN\",\"status_code\":\"200\"}"));
}
