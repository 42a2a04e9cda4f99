use vstd::prelude::*;
use crate::context::Context;
use crate::errors::Error;
use crate::payload::{Entries, Payload};
use crate::span::{SPAN_KIND_CURL, SPAN_KIND_PDO};
use crate::text::{decimal, decimal_i64, decimal_u64, digits};

verus! {

/// A PHP value as the hooks read it.
#[derive(Debug)]
pub enum Value {
    Null,
    Bool(bool),
    Long(i64),
    /// A string: its text, or the message of the error that reading it as
    /// UTF-8 gave.
    Str(Result<String, String>),
    /// An array, by its number of elements.
    Array(usize),
    /// An object, by its class name: the name, or the message of the error
    /// that reading it as UTF-8 gave.
    Object(Result<String, String>),
    /// Any other kind of value.
    Other,
}

/// Which pair of hooks traces a call.
#[derive(Debug, Clone, Copy, PartialEq, Eq, Structural)]
pub enum Hook {
    /// `PDO::__construct`.
    PdoConstruct,
    /// A traced method of `PDO`.
    PdoMethod,
    /// A traced method of `PDOStatement`.
    PdoStatementMethod,
    /// `curl_exec`.
    Curl,
}

/// What a hook run before a call opens a span with.
pub struct HockSpan {
    pub kind: String,
    pub name: String,
    pub payload: Payload,
}

/// The methods of `PDO` that are traced (besides its constructor).
pub open spec fn is_pdo_method(f: Seq<char>) -> bool {
    ||| f == "exec"@
    ||| f == "query"@
    ||| f == "prepare"@
    ||| f == "commit"@
    ||| f == "beginTransaction"@
    ||| f == "rollBack"@
}

/// The methods of `PDOStatement` that are traced.
pub open spec fn is_pdo_statement_method(f: Seq<char>) -> bool {
    ||| f == "execute"@
    ||| f == "fetch"@
    ||| f == "fetchAll"@
    ||| f == "fetchColumn"@
    ||| f == "fetchObject"@
}

/// The hooks that trace a call of `function` (of `class`, for a method).
pub open spec fn hook_for(class: Option<Seq<char>>, function: Option<Seq<char>>) -> Option<Hook> {
    if class == Some("PDO"@) && function == Some("__construct"@) {
        Some(Hook::PdoConstruct)
    } else if class == Some("PDO"@) && function is Some && is_pdo_method(function->Some_0) {
        Some(Hook::PdoMethod)
    } else if class == Some("PDOStatement"@) && function is Some && is_pdo_statement_method(
        function->Some_0,
    ) {
        Some(Hook::PdoStatementMethod)
    } else if function == Some("curl_exec"@) {
        Some(Hook::Curl)
    } else {
        None
    }
}

/// Which calls are traced, and by which hooks: `PDO::__construct`; the
/// methods `exec`, `query`, `prepare`, `commit`, `beginTransaction` and
/// `rollBack` of `PDO`; the methods `execute`, `fetch`, `fetchAll`,
/// `fetchColumn` and `fetchObject` of `PDOStatement` (of that class
/// exactly); and `curl_exec`, of whatever class. Nothing else is traced:
/// of any other class, only `curl_exec` is.
pub proof fn lemma_traced_calls(class: Option<Seq<char>>, function: Option<Seq<char>>)
    ensures
        (hook_for(class, function) == Some(Hook::PdoConstruct)) <==> (class == Some("PDO"@)
            && function == Some("__construct"@)),
        (hook_for(class, function) == Some(Hook::PdoMethod)) <==> (class == Some("PDO"@) && (
        function == Some("exec"@) || function == Some("query"@) || function == Some("prepare"@)
            || function == Some("commit"@) || function == Some("beginTransaction"@) || function
            == Some("rollBack"@))),
        (hook_for(class, function) == Some(Hook::PdoStatementMethod)) <==> (class == Some(
            "PDOStatement"@,
        ) && (function == Some("execute"@) || function == Some("fetch"@) || function == Some(
            "fetchAll"@,
        ) || function == Some("fetchColumn"@) || function == Some("fetchObject"@))),
        (hook_for(class, function) == Some(Hook::Curl)) <==> function == Some("curl_exec"@),
        class != Some("PDO"@) && class != Some("PDOStatement"@) ==> (hook_for(class, function) is Some
            <==> function == Some("curl_exec"@)),
        function is None ==> hook_for(class, function) is None,
{
    reveal_strlit("PDO");
    reveal_strlit("PDOStatement");
    reveal_strlit("curl_exec");
    reveal_strlit("__construct");
    reveal_strlit("exec");
    reveal_strlit("query");
    reveal_strlit("prepare");
    reveal_strlit("commit");
    reveal_strlit("beginTransaction");
    reveal_strlit("rollBack");
    reveal_strlit("execute");
    reveal_strlit("fetch");
    reveal_strlit("fetchAll");
    reveal_strlit("fetchColumn");
    reveal_strlit("fetchObject");
    assert("PDO"@.len() == 3);
    assert("PDOStatement"@.len() == 12);
    assert("curl_exec"@.len() == 9);
    assert("__construct"@.len() == 11);
    assert("exec"@.len() == 4);
    assert("query"@.len() == 5);
    assert("prepare"@.len() == 7);
    assert("commit"@.len() == 6);
    assert("beginTransaction"@.len() == 16);
    assert("rollBack"@.len() == 8);
    assert("execute"@.len() == 7);
    assert("fetch"@.len() == 5);
    assert("fetchAll"@.len() == 8);
    assert("fetchColumn"@.len() == 11);
    assert("fetchObject"@.len() == 11);
}

pub open spec fn option_view(s: Option<String>) -> Option<Seq<char>> {
    match s {
        Some(t) => Some(t@),
        None => None,
    }
}

fn is_text(s: &String, text: &str) -> (b: bool)
    ensures
        b == (s@ == text@),
{
    *s == text.to_owned()
}

fn is_pdo_method_name(f: &String) -> (b: bool)
    ensures
        b == is_pdo_method(f@),
{
    is_text(f, "exec") || is_text(f, "query") || is_text(f, "prepare") || is_text(f, "commit")
        || is_text(f, "beginTransaction") || is_text(f, "rollBack")
}

fn is_pdo_statement_method_name(f: &String) -> (b: bool)
    ensures
        b == is_pdo_statement_method(f@),
{
    is_text(f, "execute") || is_text(f, "fetch") || is_text(f, "fetchAll") || is_text(
        f,
        "fetchColumn",
    ) || is_text(f, "fetchObject")
}

/// The hooks that trace a call of `function_name` (of `class_name`, for a
/// method), if it is traced.
pub fn get_hock(class_name: &Option<String>, function_name: &Option<String>) -> (h: Option<Hook>)
    ensures
        h == hook_for(option_view(*class_name), option_view(*function_name)),
{
    proof {
        reveal_strlit("PDO");
        reveal_strlit("PDOStatement");
        assert("PDO"@.len() == 3);
        assert("PDOStatement"@.len() == 12);
    }
    match (class_name, function_name) {
        (Some(c), Some(f)) => {
            if is_text(c, "PDO") {
                if is_text(f, "__construct") {
                    return Some(Hook::PdoConstruct);
                }
                if is_pdo_method_name(f) {
                    return Some(Hook::PdoMethod);
                }
            } else if is_text(c, "PDOStatement") {
                if is_pdo_statement_method_name(f) {
                    return Some(Hook::PdoStatementMethod);
                }
            }
            if is_text(f, "curl_exec") {
                Some(Hook::Curl)
            } else {
                None
            }
        },
        (None, Some(f)) => {
            if is_text(f, "curl_exec") {
                Some(Hook::Curl)
            } else {
                None
            }
        },
        (_, None) => None,
    }
}

/// What the hooks of `PDO::__construct` record of the DSN argument.
pub open spec fn dsn_text(dsn: Value) -> Seq<char> {
    match dsn {
        Value::Str(Ok(s)) => s@,
        Value::Str(Err(_)) => "can't get dsn"@,
        _ => "dsn isn't str"@,
    }
}

/// The text of a string value, or nothing for anything else.
pub open spec fn text_or_empty(v: Option<Value>) -> Seq<char> {
    match v {
        Some(Value::Str(Ok(s))) => s@,
        _ => Seq::<char>::empty(),
    }
}

fn text_of(v: &Option<Value>) -> (t: String)
    ensures
        t@ == text_or_empty(*v),
{
    match v {
        Some(Value::Str(Ok(s))) => s.clone(),
        _ => String::new(),
    }
}

/// Opens the span of `PDO::__construct`, recording its DSN argument.
pub fn hock_before_pdo_construct(dsn: Value) -> (h: HockSpan)
    ensures
        h.kind@ == SPAN_KIND_PDO@,
        h.name@ == "__construct"@,
        h.payload@ == seq![("dsn"@, dsn_text(dsn))],
{
    let text = match dsn {
        Value::Str(Ok(s)) => s,
        Value::Str(Err(_)) => "can't get dsn".to_owned(),
        _ => "dsn isn't str".to_owned(),
    };
    HockSpan {
        kind: SPAN_KIND_PDO.to_owned(),
        name: "__construct".to_owned(),
        payload: Payload::single("dsn".to_owned(), text),
    }
}

/// Opens the span of a traced `PDO` method, recording the statement that
/// its first argument gives (`first_arg` is `None` for a call without
/// arguments).
pub fn hock_before_pdo_method(function_name: &String, first_arg: Option<Value>) -> (h: HockSpan)
    ensures
        h.kind@ == SPAN_KIND_PDO@,
        h.name@ == function_name@,
        h.payload@ == seq![("statement"@, text_or_empty(first_arg))],
{
    let statement = text_of(&first_arg);
    HockSpan {
        kind: SPAN_KIND_PDO.to_owned(),
        name: function_name.clone(),
        payload: Payload::single("statement".to_owned(), statement),
    }
}

/// Opens the span of a traced `PDOStatement` method, recording the
/// statement's `queryString` property (`query` is `None` where there is no
/// receiver).
pub fn hock_before_pdo_statement_method(function_name: &String, query: Option<Value>) -> (h:
    HockSpan)
    ensures
        h.kind@ == SPAN_KIND_PDO@,
        h.name@ == function_name@,
        h.payload@ == seq![("query_string"@, text_or_empty(query))],
{
    let query_string = text_of(&query);
    HockSpan {
        kind: SPAN_KIND_PDO.to_owned(),
        name: function_name.clone(),
        payload: Payload::single("query_string".to_owned(), query_string),
    }
}

/// Opens the span of `curl_exec`, called with `num_args` arguments. With
/// no argument the span is a `CURL` span named after the function; with
/// one, the span is the `PDO` `__construct` span that this hook records.
pub fn hock_before_curl_exec(function_name: &String, num_args: usize) -> (h: HockSpan)
    ensures
        num_args < 1 ==> h.kind@ == SPAN_KIND_CURL@ && h.name@ == function_name@,
        num_args >= 1 ==> h.kind@ == SPAN_KIND_PDO@ && h.name@ == "__construct"@,
        h.payload@ == Seq::<(Seq<char>, Seq<char>)>::empty(),
{
    if num_args < 1 {
        return HockSpan {
            kind: SPAN_KIND_CURL.to_owned(),
            name: function_name.clone(),
            payload: Payload::new(),
        };
    }
    HockSpan { kind: SPAN_KIND_PDO.to_owned(), name: "__construct".to_owned(), payload: Payload::new() }
}

/// The state, code and message of a PDO `errorInfo()` array, where its
/// first three elements are a string, an integer and a string.
pub open spec fn pdo_error_info(info: Option<Seq<Value>>) -> Option<(Seq<char>, i64, Seq<char>)> {
    match info {
        Some(a) => if a.len() >= 3 {
            match (a[0], a[1], a[2]) {
                (Value::Str(Ok(state)), Value::Long(code), Value::Str(Ok(error))) => Some(
                    (state@, code, error@),
                ),
                _ => None,
            }
        } else {
            None
        },
        None => None,
    }
}

pub open spec fn info_view(info: Option<Vec<Value>>) -> Option<Seq<Value>> {
    match info {
        Some(v) => Some(v@),
        None => None,
    }
}

/// Reads a PDO `errorInfo()` array (`None` where the call failed or gave no
/// array): state, code and message.
pub fn get_pdo_error_info(info: Option<Vec<Value>>) -> (r: Option<(String, i64, String)>)
    ensures
        match r {
            Some((state, code, error)) => pdo_error_info(info_view(info)) == Some(
                (state@, code, error@),
            ),
            None => pdo_error_info(info_view(info)) is None,
        },
{
    match info {
        None => None,
        Some(a) => {
            if a.len() < 3 {
                return None;
            }
            match (&a[0], &a[1], &a[2]) {
                (Value::Str(Ok(state)), Value::Long(code), Value::Str(Ok(error))) => Some(
                    (state.clone(), *code, error.clone()),
                ),
                _ => None,
            }
        },
    }
}

pub open spec fn receiver_view(r: Option<Option<Vec<Value>>>) -> Option<Option<Seq<Value>>> {
    match r {
        Some(info) => Some(info_view(info)),
        None => None,
    }
}

/// What the hook run after a PDO call records of its return value: the
/// payload entries, or the message of the error it stops at. A `false`
/// return asks the receiver for its error info (`receiver` is `None` where
/// there is no receiver).
pub open spec fn pdo_after(ret: Value, receiver: Option<Option<Seq<Value>>>) -> Result<
    Entries,
    Seq<char>,
> {
    match ret {
        Value::Bool(b) => if b {
            Ok(Seq::<(Seq<char>, Seq<char>)>::empty())
        } else {
            match receiver {
                None => Err("this is null"@),
                Some(info) => match pdo_error_info(info) {
                    Some((state, code, error)) => Ok(
                        seq![("state"@, state), ("code"@, decimal(code as int)), ("error"@, error)],
                    ),
                    None => Ok(Seq::<(Seq<char>, Seq<char>)>::empty()),
                },
            }
        },
        Value::Object(Ok(class_name)) => Ok(seq![("class_name"@, class_name@)]),
        Value::Object(Err(message)) => Err(message@),
        Value::Long(i) => Ok(seq![("return_value"@, decimal(i as int))]),
        Value::Array(n) => Ok(seq![("fetch_array_length"@, digits(n as nat))]),
        _ => Ok(Seq::<(Seq<char>, Seq<char>)>::empty()),
    }
}

/// What the hook run after a PDO call records, for every return value:
/// nothing for `true`, `null`, a string or another value; the error info
/// of the receiver for `false` (an error where there is no receiver); the
/// class name of an object (an error where it is not UTF-8); the decimal
/// text of an integer, zero included; the length of an array.
pub proof fn lemma_pdo_after_results(ret: Value, receiver: Option<Option<Seq<Value>>>)
    ensures
        ret matches Value::Long(i) ==> pdo_after(ret, receiver) == Ok::<Entries, Seq<char>>(
            seq![("return_value"@, decimal(i as int))],
        ),
        ret matches Value::Array(n) ==> pdo_after(ret, receiver) == Ok::<Entries, Seq<char>>(
            seq![("fetch_array_length"@, digits(n as nat))],
        ),
        ret matches Value::Object(Ok(c)) ==> pdo_after(ret, receiver) == Ok::<Entries, Seq<char>>(
            seq![("class_name"@, c@)],
        ),
        ret matches Value::Object(Err(m)) ==> pdo_after(ret, receiver) == Err::<Entries, Seq<char>>(
            m@,
        ),
        ret matches Value::Bool(true) ==> pdo_after(ret, receiver) == Ok::<Entries, Seq<char>>(
            Seq::empty(),
        ),
        (ret matches Value::Bool(false) && receiver is None) ==> pdo_after(ret, receiver) == Err::<
            Entries,
            Seq<char>,
        >("this is null"@),
        ret matches Value::Bool(false) ==> (receiver matches Some(info) ==> match pdo_error_info(
            info,
        ) {
            Some((state, code, error)) => pdo_after(ret, receiver) == Ok::<Entries, Seq<char>>(
                seq![("state"@, state), ("code"@, decimal(code as int)), ("error"@, error)],
            ),
            None => pdo_after(ret, receiver) == Ok::<Entries, Seq<char>>(Seq::empty()),
        }),
        (ret is Null || ret is Str || ret is Other) ==> pdo_after(ret, receiver) == Ok::<
            Entries,
            Seq<char>,
        >(Seq::empty()),
{
}

/// Whether the hook run after a PDO call needs the receiver's error info
/// for this return value.
pub fn pdo_needs_error_info(ret: &Value) -> (b: bool)
    ensures
        b == (*ret matches Value::Bool(false)),
{
    match ret {
        Value::Bool(b) => !*b,
        _ => false,
    }
}

/// The hook run after a traced PDO call: records what the call returned.
pub fn hock_after_pdo(ret: Value, receiver: Option<Option<Vec<Value>>>) -> (r: Result<
    Payload,
    Error,
>)
    ensures
        match r {
            Ok(p) => pdo_after(ret, receiver_view(receiver)) == Ok::<Entries, Seq<char>>(p@),
            Err(e) => e matches Error::Anyhow(m) && pdo_after(ret, receiver_view(receiver))
                == Err::<Entries, Seq<char>>(m@),
        },
        ret matches Value::Long(i) ==> (r matches Ok(p) && p@ == seq![
            ("return_value"@, decimal(i as int)),
        ]),
        ret matches Value::Array(n) ==> (r matches Ok(p) && p@ == seq![
            ("fetch_array_length"@, digits(n as nat)),
        ]),
        ret matches Value::Object(Ok(c)) ==> (r matches Ok(p) && p@ == seq![
            ("class_name"@, c@),
        ]),
        ret matches Value::Object(Err(m)) ==> (r matches Err(Error::Anyhow(e)) && e@ == m@),
        ret matches Value::Bool(true) ==> (r matches Ok(p) && p@.len() == 0),
        (ret matches Value::Bool(false) && receiver is None) ==> (r matches Err(Error::Anyhow(e))
            && e@ == "this is null"@),
        (ret is Null || ret is Str || ret is Other) ==> (r matches Ok(p) && p@.len() == 0),
{
    proof {
        reveal_strlit("state");
        reveal_strlit("code");
        reveal_strlit("error");
        assert("state"@[0] != "error"@[0]);
        assert("code"@.len() == 4);
        assert("state"@.len() == 5);
    }
    match ret {
        Value::Bool(b) => {
            if b {
                return Ok(Payload::new());
            }
            match receiver {
                None => Err(Error::from("this is null".to_owned())),
                Some(info) => match get_pdo_error_info(info) {
                    Some((state, code, error)) => {
                        let mut p = Payload::single("state".to_owned(), state);
                        p.push_new("code".to_owned(), decimal_i64(code));
                        p.push_new("error".to_owned(), error);
                        assert(p@ =~= seq![
                            ("state"@, state@),
                            ("code"@, decimal(code as int)),
                            ("error"@, error@),
                        ]);
                        Ok(p)
                    },
                    None => Ok(Payload::new()),
                },
            }
        },
        Value::Object(Ok(class_name)) => Ok(Payload::single("class_name".to_owned(), class_name)),
        Value::Object(Err(message)) => Err(Error::Anyhow(message)),
        Value::Long(i) => Ok(Payload::single("return_value".to_owned(), decimal_i64(i))),
        Value::Array(n) => Ok(
            Payload::single("fetch_array_length".to_owned(), decimal_u64(n as u64)),
        ),
        _ => Ok(Payload::new()),
    }
}

/// What the hook run before a call reads of the call.
#[derive(Debug, Clone, Copy, PartialEq, Eq, Structural)]
pub enum BeforeInput {
    /// The first parameter slot.
    FirstParameter,
    /// The first argument, where the call has one.
    FirstArgument,
    /// The `queryString` property of the receiver, where there is one.
    ReceiverQuery,
    /// The number of arguments.
    ArgumentCount,
}

/// What was read of a call for the hook run before it.
#[derive(Debug)]
pub enum CallInput {
    FirstParameter(Value),
    /// `None` for a call without arguments.
    FirstArgument(Option<Value>),
    /// `None` where there is no receiver.
    ReceiverQuery(Option<Value>),
    ArgumentCount(usize),
}

/// What each hook run before a call reads of it.
pub open spec fn before_input_of(hook: Hook) -> BeforeInput {
    match hook {
        Hook::PdoConstruct => BeforeInput::FirstParameter,
        Hook::PdoMethod => BeforeInput::FirstArgument,
        Hook::PdoStatementMethod => BeforeInput::ReceiverQuery,
        Hook::Curl => BeforeInput::ArgumentCount,
    }
}

/// `input` is of the kind that `hook` reads.
pub open spec fn input_fits(hook: Hook, input: CallInput) -> bool {
    match (before_input_of(hook), input) {
        (BeforeInput::FirstParameter, CallInput::FirstParameter(_)) => true,
        (BeforeInput::FirstArgument, CallInput::FirstArgument(_)) => true,
        (BeforeInput::ReceiverQuery, CallInput::ReceiverQuery(_)) => true,
        (BeforeInput::ArgumentCount, CallInput::ArgumentCount(_)) => true,
        _ => false,
    }
}

/// What the hook run before a call reads of it.
pub fn before_input(hook: Hook) -> (i: BeforeInput)
    ensures
        i == before_input_of(hook),
{
    match hook {
        Hook::PdoConstruct => BeforeInput::FirstParameter,
        Hook::PdoMethod => BeforeInput::FirstArgument,
        Hook::PdoStatementMethod => BeforeInput::ReceiverQuery,
        Hook::Curl => BeforeInput::ArgumentCount,
    }
}

/// Runs the hook that `hook` names before a call of `function_name`, on
/// what was read of the call.
pub fn hook_before(hook: Hook, function_name: &String, input: CallInput) -> (h: HockSpan)
    requires
        input_fits(hook, input),
    ensures
        match input {
            CallInput::FirstParameter(dsn) => h.kind@ == SPAN_KIND_PDO@ && h.name@
                == "__construct"@ && h.payload@ == seq![("dsn"@, dsn_text(dsn))],
            CallInput::FirstArgument(first) => h.kind@ == SPAN_KIND_PDO@ && h.name@
                == function_name@ && h.payload@ == seq![("statement"@, text_or_empty(first))],
            CallInput::ReceiverQuery(query) => h.kind@ == SPAN_KIND_PDO@ && h.name@
                == function_name@ && h.payload@ == seq![("query_string"@, text_or_empty(query))],
            CallInput::ArgumentCount(n) => (n < 1 ==> h.kind@ == SPAN_KIND_CURL@ && h.name@
                == function_name@) && (n >= 1 ==> h.kind@ == SPAN_KIND_PDO@ && h.name@
                == "__construct"@) && h.payload@ == Seq::<(Seq<char>, Seq<char>)>::empty(),
        },
{
    match input {
        CallInput::FirstParameter(dsn) => hock_before_pdo_construct(dsn),
        CallInput::FirstArgument(first) => hock_before_pdo_method(function_name, first),
        CallInput::ReceiverQuery(query) => hock_before_pdo_statement_method(function_name, query),
        CallInput::ArgumentCount(n) => hock_before_curl_exec(function_name, n),
    }
}

/// Whether the hook run after a call needs the receiver's error info for
/// this return value: only the PDO hooks do, for a `false` return.
pub fn after_needs_error_info(hook: Hook, ret: &Value) -> (b: bool)
    ensures
        b == (hook != Hook::Curl && *ret matches Value::Bool(false)),
{
    match hook {
        Hook::Curl => false,
        _ => pdo_needs_error_info(ret),
    }
}

/// Runs the hook that `hook` names after a call that returned `ret`
/// (`receiver` as for `hock_after_pdo`). `curl_exec` has no hook after it
/// and adds nothing to the span.
pub fn hook_after(hook: Hook, ret: Value, receiver: Option<Option<Vec<Value>>>) -> (r: Result<
    Payload,
    Error,
>)
    ensures
        hook == Hook::Curl ==> (r matches Ok(p) && p@ == Seq::<(Seq<char>, Seq<char>)>::empty()),
        hook != Hook::Curl ==> match r {
            Ok(p) => pdo_after(ret, receiver_view(receiver)) == Ok::<Entries, Seq<char>>(p@),
            Err(e) => e matches Error::Anyhow(m) && pdo_after(ret, receiver_view(receiver))
                == Err::<Entries, Seq<char>>(m@),
        },
{
    match hook {
        Hook::Curl => Ok(Payload::new()),
        _ => hock_after_pdo(ret, receiver),
    }
}

/// Whether `url::Url::parse` accepts the text.
pub uninterp spec fn url_parses(text: Seq<char>) -> bool;

/// The serialisation of the URL that `url::Url::parse` makes of the text,
/// after `set_query(None)` and `set_fragment(None)`.
pub uninterp spec fn url_without_query_fragment(text: Seq<char>) -> Seq<char>;

/// `url::Url::parse` (through `str::parse`), then `Url::set_query(None)`,
/// `Url::set_fragment(None)` and `to_string` (`Display`, the
/// serialisation). Whether the parse succeeds, and the text that comes
/// out, are functions of the input text alone, named `url_parses` and
/// `url_without_query_fragment`; the URL in between never leaves the call.
/// With `None`, neither setter panics.
#[verifier::external_body]
fn strip_query_fragment(text: &str) -> (r: Option<String>)
    ensures
        r is Some <==> url_parses(text@),
        r is Some ==> r->Some_0@ == url_without_query_fragment(text@),
{
    let mut u = text.parse::<url::Url>().ok()?;
    u.set_query(None);
    u.set_fragment(None);
    Some(u.to_string())
}

/// Reads the `url` and `http_code` that `curl_getinfo` gave (`None` for
/// what it did not give): the URL without its query and fragment, and the
/// HTTP status code, where the URL parses and both are there.
pub fn get_curl_info(url: Option<String>, http_code: Option<i64>) -> (r: Option<(String, i64)>)
    ensures
        r is Some <==> (url is Some && url_parses(url->Some_0@) && http_code is Some),
        r is Some ==> r->Some_0.1 == http_code->Some_0,
        r is Some ==> r->Some_0.0@ == url_without_query_fragment(url->Some_0@),
{
    let text = match url {
        Some(t) => t,
        None => return None,
    };
    let stripped = match strip_query_fragment(text.as_str()) {
        Some(u) => u,
        None => return None,
    };
    match http_code {
        Some(code) => Some((stripped, code)),
        None => None,
    }
}

/// Closes the span of a traced call after its hook has run: the payload
/// that the hook gave, if it gave one, is set in the span first.
pub fn finish_hooked_call(ctx: &mut Context, after: Result<Payload, Error>)
    requires
        old(ctx)@.top is Some,
    ensures
        match after {
            Ok(p) => old(ctx)@.with_top_extended(p@).ended_top(final(ctx)@),
            Err(_) => old(ctx)@.ended_top(final(ctx)@),
        },
        final(ctx)@.traced(),
{
    if let Ok(payload) = after {
        ctx.extend_span_payload(payload);
    }
    ctx.end_span();
}

} // verus!
