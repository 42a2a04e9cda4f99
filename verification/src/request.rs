use vstd::prelude::*;
use crate::context::Context;
use crate::payload::{Entries, Payload};
use crate::span::SPAN_KIND_URL;
use crate::text::{decimal, decimal_i64};

verus! {

/// `path` is `uri` up to (not including) its first `?`, or all of `uri`
/// where it has none.
pub open spec fn is_path_part(path: Seq<char>, uri: Seq<char>) -> bool {
    &&& path.len() <= uri.len()
    &&& path == uri.subrange(0, path.len() as int)
    &&& !path.contains('?')
    &&& path.len() < uri.len() ==> uri[path.len() as int] == '?'
}

/// `path` is what a request records as its URI: the path part of
/// `REQUEST_URI`, or `UNKNOWN` where there is none.
pub open spec fn is_request_path(uri: Option<Seq<char>>, path: Seq<char>) -> bool {
    match uri {
        Some(u) => is_path_part(path, u),
        None => path == "UNKNOWN"@,
    }
}

/// What a request records as its method: `REQUEST_METHOD`, or `UNKNOWN`
/// where there is none.
pub open spec fn request_method(method: Option<Seq<char>>) -> Seq<char> {
    match method {
        Some(m) => m,
        None => "UNKNOWN"@,
    }
}

pub open spec fn text_view(s: Option<String>) -> Option<Seq<char>> {
    match s {
        Some(t) => Some(t@),
        None => None,
    }
}

/// The payload of the root span of a request.
pub open spec fn request_payload(get: Seq<char>, post: Seq<char>, method: Seq<char>) -> Entries {
    seq![("$_GET"@, get), ("$_POST"@, post), ("method"@, method)]
}

/// The path part of a URI is one text only: `is_path_part` pins it down.
pub proof fn lemma_path_part_unique(p1: Seq<char>, p2: Seq<char>, uri: Seq<char>)
    requires
        is_path_part(p1, uri),
        is_path_part(p2, uri),
    ensures
        p1 == p2,
{
    if p1.len() < p2.len() {
        assert(p2[p1.len() as int] == uri[p1.len() as int]);
        assert(p2.contains('?'));
    } else if p2.len() < p1.len() {
        assert(p1[p2.len() as int] == uri[p2.len() as int]);
        assert(p1.contains('?'));
    } else {
        assert(p1 =~= p2);
    }
}

/// The URI that a request records: `REQUEST_URI` without its query
/// (`uri` is `None` where the server gives no `REQUEST_URI` string).
pub fn get_page_request_uri(uri: Option<String>) -> (path: String)
    ensures
        is_request_path(text_view(uri), path@),
{
    let u = match uri {
        Some(u) => u,
        None => return "UNKNOWN".to_owned(),
    };
    let s = u.as_str();
    let n = s.unicode_len();
    let mut i: usize = 0;
    while i < n
        invariant
            n == s@.len(),
            0 <= i <= n,
            forall|j: int| 0 <= j < i ==> s@[j] != '?',
        ensures
            0 <= i <= n,
            forall|j: int| 0 <= j < i ==> s@[j] != '?',
            i < n ==> s@[i as int] == '?',
        decreases n - i,
    {
        if s.get_char(i) == '?' {
            break;
        }
        i = i + 1;
    }
    let path = s.substring_char(0, i).to_owned();
    proof {
        assert forall|j: int| 0 <= j < path@.len() implies path@[j] != '?' by {
            assert(path@[j] == s@[j]);
        }
        if i < n {
            assert(s@[i as int] == '?');
        }
    }
    path
}

/// The method that a request records (`method` is `None` where the server
/// gives no `REQUEST_METHOD` string).
pub fn get_page_request_method(method: Option<String>) -> (m: String)
    ensures
        m@ == request_method(text_view(method)),
{
    match method {
        Some(m) => m,
        None => "UNKNOWN".to_owned(),
    }
}

/// The header that tells the client the trace id of its request.
pub fn trace_header(ctx: &Context) -> (h: String)
    ensures
        h@ == "X-MiniTrace-Id: "@ + ctx@.trace_id,
{
    let mut h = "X-MiniTrace-Id: ".to_owned();
    h.append(ctx.get_trace_id());
    h
}

/// Opens the root span of a request: a `URL` span named after the path of
/// its URI, with the JSON of `$_GET` and `$_POST` and the method.
pub fn init(ctx: &mut Context, get: String, post: String, uri: Option<String>, method: Option<String>)
    requires
        old(ctx)@.root is None,
    ensures
        exists|path: Seq<char>|
            is_request_path(text_view(uri), path) && #[trigger] old(ctx)@.started_root(
                final(ctx)@,
                SPAN_KIND_URL@,
                path,
                request_payload(get@, post@, request_method(text_view(method))),
            ),
        final(ctx)@.traced(),
{
    proof {
        reveal_strlit("$_GET");
        reveal_strlit("$_POST");
        reveal_strlit("method");
        assert("$_GET"@.len() == 5);
        assert("$_POST"@.len() == 6);
        assert("method"@.len() == 6);
        assert("$_POST"@[0] != "method"@[0]);
    }
    let path = get_page_request_uri(uri);
    let m = get_page_request_method(method);
    let ghost m_view = m@;
    let mut payload = Payload::single("$_GET".to_owned(), get);
    payload.push_new("$_POST".to_owned(), post);
    payload.push_new("method".to_owned(), m);
    assert(payload@ =~= request_payload(get@, post@, m_view));
    ctx.start_root_span(SPAN_KIND_URL, path.as_str(), payload);
}

/// Ends a request: records its HTTP status code in the root span and
/// closes it.
pub fn shutdown(ctx: &mut Context, status_code: i32)
    requires
        old(ctx)@.root is Some,
    ensures
        old(ctx)@.with_root_extended(seq![("status_code"@, decimal(status_code as int))]).ended_root(
            final(ctx)@,
        ),
        final(ctx)@.traced(),
{
    let payload = Payload::single("status_code".to_owned(), decimal_i64(status_code as i64));
    ctx.extend_root_span_payload(payload);
    ctx.end_root_span();
}

} // verus!
