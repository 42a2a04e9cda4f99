use minitrace::errors::Error;
use minitrace::hock::{
    after_needs_error_info, before_input, hook_after, hook_before, BeforeInput, CallInput,
    finish_hooked_call, get_curl_info, get_hock, get_pdo_error_info, hock_after_pdo,
    hock_before_curl_exec, hock_before_pdo_construct, hock_before_pdo_method,
    hock_before_pdo_statement_method, pdo_needs_error_info, Hook, HockSpan, Value,
};
use minitrace::context::Context;
use minitrace::payload::Payload;

fn s(x: &str) -> Option<String> {
    Some(x.to_string())
}

fn pairs(p: &Payload) -> Vec<(String, String)> {
    (0..p.len()).map(|i| { let (k, v) = p.entry(i); (k.clone(), v.clone()) }).collect()
}

fn kv(k: &str, v: &str) -> (String, String) {
    (k.to_string(), v.to_string())
}

#[test]
fn hook_for_pdo_constructor_and_methods() {
    assert_eq!(get_hock(&s("PDO"), &s("__construct")), Some(Hook::PdoConstruct));
    for f in ["exec", "query", "prepare", "commit", "beginTransaction", "rollBack"] {
        assert_eq!(get_hock(&s("PDO"), &s(f)), Some(Hook::PdoMethod));
    }
    assert_eq!(get_hock(&s("PDO"), &s("lastInsertId")), None);
    assert_eq!(get_hock(&s("PDO"), &s("Exec")), None);
}

#[test]
fn hook_for_pdo_statement_methods() {
    for f in ["execute", "fetch", "fetchAll", "fetchColumn", "fetchObject"] {
        assert_eq!(get_hock(&s("PDOStatement"), &s(f)), Some(Hook::PdoStatementMethod));
    }
    assert_eq!(get_hock(&s("PDOStatement"), &s("exec")), None);
    assert_eq!(get_hock(&s("PDOStatement"), &s("__construct")), None);
}

#[test]
fn hook_for_curl_exec_with_any_class() {
    assert_eq!(get_hock(&None, &s("curl_exec")), Some(Hook::Curl));
    assert_eq!(get_hock(&s("Foo"), &s("curl_exec")), Some(Hook::Curl));
    assert_eq!(get_hock(&s("PDO"), &s("curl_exec")), Some(Hook::Curl));
    assert_eq!(get_hock(&None, &s("curl_init")), None);
}

#[test]
fn no_hook_without_function_name() {
    assert_eq!(get_hock(&s("PDO"), &None), None);
    assert_eq!(get_hock(&None, &None), None);
    assert_eq!(get_hock(&None, &s("exec")), None);
}

fn check(h: &HockSpan, kind: &str, name: &str, payload: Vec<(String, String)>) {
    assert_eq!(h.kind, kind);
    assert_eq!(h.name, name);
    assert_eq!(pairs(&h.payload), payload);
}

#[test]
fn pdo_construct_records_the_dsn() {
    check(&hock_before_pdo_construct(Value::Str(Ok("mysql:host=db".to_string()))), "PDO", "__construct", vec![kv("dsn", "mysql:host=db")]);
    check(&hock_before_pdo_construct(Value::Str(Err("bad".to_string()))), "PDO", "__construct", vec![kv("dsn", "can't get dsn")]);
    check(&hock_before_pdo_construct(Value::Long(3)), "PDO", "__construct", vec![kv("dsn", "dsn isn't str")]);
}

#[test]
fn pdo_method_records_the_statement() {
    let name = "query".to_string();
    check(&hock_before_pdo_method(&name, Some(Value::Str(Ok("SELECT 1".to_string())))), "PDO", "query", vec![kv("statement", "SELECT 1")]);
    check(&hock_before_pdo_method(&name, None), "PDO", "query", vec![kv("statement", "")]);
    check(&hock_before_pdo_method(&name, Some(Value::Null)), "PDO", "query", vec![kv("statement", "")]);
    check(&hock_before_pdo_method(&name, Some(Value::Str(Err("e".to_string())))), "PDO", "query", vec![kv("statement", "")]);
}

#[test]
fn pdo_statement_method_records_the_query_string() {
    let name = "fetchAll".to_string();
    check(&hock_before_pdo_statement_method(&name, Some(Value::Str(Ok("SELECT *".to_string())))), "PDO", "fetchAll", vec![kv("query_string", "SELECT *")]);
    check(&hock_before_pdo_statement_method(&name, None), "PDO", "fetchAll", vec![kv("query_string", "")]);
}

#[test]
fn curl_exec_span() {
    let name = "curl_exec".to_string();
    check(&hock_before_curl_exec(&name, 0), "CURL", "curl_exec", vec![]);
    check(&hock_before_curl_exec(&name, 1), "PDO", "__construct", vec![]);
}

fn info(state: Value, code: Value, error: Value) -> Option<Vec<Value>> {
    Some(vec![state, code, error])
}

#[test]
fn pdo_error_info_reading() {
    assert_eq!(
        get_pdo_error_info(info(Value::Str(Ok("42S02".to_string())), Value::Long(1146), Value::Str(Ok("no table".to_string())))),
        Some(("42S02".to_string(), 1146, "no table".to_string()))
    );
    assert_eq!(get_pdo_error_info(info(Value::Str(Ok("00000".to_string())), Value::Null, Value::Null)), None);
    assert_eq!(get_pdo_error_info(Some(vec![Value::Str(Ok("x".to_string())), Value::Long(1)])), None);
    assert_eq!(get_pdo_error_info(info(Value::Long(1), Value::Long(1), Value::Str(Ok("e".to_string())))), None);
    assert_eq!(get_pdo_error_info(None), None);
}

fn message(e: Error) -> String {
    e.message()
}

#[test]
fn after_pdo_false_with_error_info() {
    let r = hock_after_pdo(
        Value::Bool(false),
        Some(info(Value::Str(Ok("HY000".to_string())), Value::Long(2006), Value::Str(Ok("gone away".to_string())))),
    );
    assert_eq!(pairs(&r.unwrap()), vec![kv("state", "HY000"), kv("code", "2006"), kv("error", "gone away")]);
}

#[test]
fn after_pdo_false_without_receiver_is_an_error() {
    match hock_after_pdo(Value::Bool(false), None) {
        Err(e @ Error::Anyhow(_)) => assert_eq!(message(e), "this is null"),
        _ => panic!("expected an error"),
    }
}

#[test]
fn after_pdo_false_with_unreadable_error_info() {
    let r = hock_after_pdo(Value::Bool(false), Some(None));
    assert!(pairs(&r.unwrap()).is_empty());
}

#[test]
fn after_pdo_other_return_values() {
    assert!(pairs(&hock_after_pdo(Value::Bool(true), None).unwrap()).is_empty());
    assert_eq!(pairs(&hock_after_pdo(Value::Object(Ok("PDOStatement".to_string())), None).unwrap()), vec![kv("class_name", "PDOStatement")]);
    assert_eq!(pairs(&hock_after_pdo(Value::Long(-3), None).unwrap()), vec![kv("return_value", "-3")]);
    assert_eq!(pairs(&hock_after_pdo(Value::Array(12), None).unwrap()), vec![kv("fetch_array_length", "12")]);
    assert!(pairs(&hock_after_pdo(Value::Null, None).unwrap()).is_empty());
    assert!(pairs(&hock_after_pdo(Value::Str(Ok("x".to_string())), None).unwrap()).is_empty());
    match hock_after_pdo(Value::Object(Err("invalid utf-8".to_string())), None) {
        Err(e) => assert_eq!(message(e), "invalid utf-8"),
        Ok(_) => panic!("expected an error"),
    }
}

#[test]
fn needs_error_info_only_for_false() {
    assert!(pdo_needs_error_info(&Value::Bool(false)));
    assert!(!pdo_needs_error_info(&Value::Bool(true)));
    assert!(!pdo_needs_error_info(&Value::Long(0)));
}

#[test]
fn curl_info_strips_query_and_fragment() {
    assert_eq!(
        get_curl_info(s("https://example.com/a/b?x=1&y=2#frag"), Some(200)),
        Some(("https://example.com/a/b".to_string(), 200))
    );
    assert_eq!(get_curl_info(s("http://host"), Some(404)), Some(("http://host/".to_string(), 404)));
}

#[test]
fn curl_info_needs_url_and_code() {
    assert_eq!(get_curl_info(s("not a url"), Some(200)), None);
    assert_eq!(get_curl_info(None, Some(200)), None);
    assert_eq!(get_curl_info(s("https://example.com/"), None), None);
}

#[test]
fn hooked_call_span_gets_the_after_payload() {
    let mut ctx = Context::new();
    ctx.start_span("PDO", "exec", Payload::single("statement".to_string(), "DELETE".to_string()));
    finish_hooked_call(&mut ctx, Ok(Payload::single("return_value".to_string(), "5".to_string())));
    ctx.start_span("PDO", "query", Payload::new());
    finish_hooked_call(&mut ctx, Err(Error::Anyhow("x".to_string())));
    let lines = ctx.trace_lines();
    assert_eq!(lines.len(), 2);
    assert!(lines[0].contains("\"payload\":{\"statement\":\"DELETE\",\"return_value\":\"5\"}"));
    assert!(lines[1].contains("\"name\":\"query\",\"payload\":{}"));
}

#[test]
fn error_from_string() {
    let e: Error = Error::from("boom".to_string());
    assert!(matches!(e, Error::Anyhow(_)));
    assert_eq!(e.message(), "boom");
    assert_eq!(Error::PHPer("p".to_string()).message(), "p");
}

#[test]
fn each_hook_reads_its_input() {
    assert_eq!(before_input(Hook::PdoConstruct), BeforeInput::FirstParameter);
    assert_eq!(before_input(Hook::PdoMethod), BeforeInput::FirstArgument);
    assert_eq!(before_input(Hook::PdoStatementMethod), BeforeInput::ReceiverQuery);
    assert_eq!(before_input(Hook::Curl), BeforeInput::ArgumentCount);
}

#[test]
fn hook_before_dispatches() {
    let name = "exec".to_string();
    check(&hook_before(Hook::PdoConstruct, &name, CallInput::FirstParameter(Value::Str(Ok("sqlite::memory:".to_string())))), "PDO", "__construct", vec![kv("dsn", "sqlite::memory:")]);
    check(&hook_before(Hook::PdoMethod, &name, CallInput::FirstArgument(Some(Value::Str(Ok("DELETE".to_string()))))), "PDO", "exec", vec![kv("statement", "DELETE")]);
    check(&hook_before(Hook::PdoStatementMethod, &name, CallInput::ReceiverQuery(None)), "PDO", "exec", vec![kv("query_string", "")]);
    check(&hook_before(Hook::Curl, &name, CallInput::ArgumentCount(0)), "CURL", "exec", vec![]);
}

#[test]
fn hook_after_dispatches() {
    assert!(after_needs_error_info(Hook::PdoMethod, &Value::Bool(false)));
    assert!(!after_needs_error_info(Hook::Curl, &Value::Bool(false)));
    assert!(!after_needs_error_info(Hook::PdoMethod, &Value::Bool(true)));
    assert!(pairs(&hook_after(Hook::Curl, Value::Long(5), None).unwrap()).is_empty());
    assert_eq!(pairs(&hook_after(Hook::PdoStatementMethod, Value::Long(5), None).unwrap()), vec![kv("return_value", "5")]);
    assert!(hook_after(Hook::PdoMethod, Value::Bool(false), None).is_err());
}

#[test]
fn curl_info_keeps_path_and_drops_fragment_only_url() {
    assert_eq!(
        get_curl_info(s("https://example.com/p#only-frag"), Some(301)),
        Some(("https://example.com/p".to_string(), 301))
    );
}
