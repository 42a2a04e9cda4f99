use vstd::prelude::*;
use crate::payload::{Entries, Payload};
use crate::span::{Span, SpanView, span_json};
use crate::text::json_quote;

verus! {

/// `c` is a lower-case hexadecimal digit.
pub open spec fn is_lower_hex(c: char) -> bool {
    ('0' <= c && c <= '9') || ('a' <= c && c <= 'f')
}

/// `s` is a random (version 4) UUID in lower-case hyphenated form, such as
/// `67e55044-10b1-426f-9247-bb680e5fe0c8`.
pub open spec fn is_trace_id(s: Seq<char>) -> bool {
    &&& s.len() == 36
    &&& s[8] == '-' && s[13] == '-' && s[18] == '-' && s[23] == '-'
    &&& forall|i: int|
        0 <= i < 36 && i != 8 && i != 13 && i != 18 && i != 23 ==> #[trigger] is_lower_hex(s[i])
    &&& s[14] == '4'
    &&& (s[19] == '8' || s[19] == '9' || s[19] == 'a' || s[19] == 'b')
}

/// `uuid::Uuid::new_v4` written out with `to_string`. The value is random;
/// `Display` for `Uuid` is its `LowerHex` form, which `format_hyphenated`
/// lays out as 32 lower-case hex digits in groups of 8-4-4-4-12, and
/// `new_v4` sets the version nibble to 4 and the two variant bits to `10`.
/// This contract claims that shape and no more.
#[verifier::external_body]
fn new_trace_id() -> (id: String)
    ensures
        is_trace_id(id@),
{
    uuid::Uuid::new_v4().to_string()
}

/// What a context holds, as plain values.
pub struct ContextView {
    pub trace_id: Seq<char>,
    pub spans: Seq<SpanView>,
    pub root: Option<SpanView>,
    pub top: Option<SpanView>,
}

impl ContextView {
    /// Every span that the context holds, recorded or open, carries its
    /// trace id.
    pub open spec fn traced(self) -> bool {
        &&& forall|i: int| 0 <= i < self.spans.len() ==> #[trigger] self.spans[i].trace_id
            == self.trace_id
        &&& self.root matches Some(r) ==> r.trace_id == self.trace_id
        &&& self.top matches Some(t) ==> t.trace_id == self.trace_id
    }

    /// `next` is `self` with a root span opened.
    pub open spec fn started_root(
        self,
        next: ContextView,
        kind: Seq<char>,
        name: Seq<char>,
        payload: Entries,
    ) -> bool {
        &&& next.trace_id == self.trace_id
        &&& next.spans == self.spans
        &&& next.top == self.top
        &&& next.root matches Some(r) && r.is_opened(self.trace_id, kind, name, payload)
    }

    /// `next` is `self` with its root span closed and recorded last.
    pub open spec fn ended_root(self, next: ContextView) -> bool {
        &&& self.root is Some
        &&& next.trace_id == self.trace_id
        &&& next.root is None
        &&& next.top == self.top
        &&& next.spans.len() == self.spans.len() + 1
        &&& next.spans.drop_last() == self.spans
        &&& self.root->Some_0.is_ended(next.spans.last())
    }

    /// `next` is `self` with a (non-root) span opened.
    pub open spec fn started_top(
        self,
        next: ContextView,
        kind: Seq<char>,
        name: Seq<char>,
        payload: Entries,
    ) -> bool {
        &&& next.trace_id == self.trace_id
        &&& next.spans == self.spans
        &&& next.root == self.root
        &&& next.top matches Some(t) && t.is_opened(self.trace_id, kind, name, payload)
    }

    /// `next` is `self` with its open (non-root) span closed and recorded
    /// last.
    pub open spec fn ended_top(self, next: ContextView) -> bool {
        &&& self.top is Some
        &&& next.trace_id == self.trace_id
        &&& next.top is None
        &&& next.root == self.root
        &&& next.spans.len() == self.spans.len() + 1
        &&& next.spans.drop_last() == self.spans
        &&& self.top->Some_0.is_ended(next.spans.last())
    }

    /// `self` with `extend` set in the payload of the open (non-root) span.
    pub open spec fn with_top_extended(self, extend: Entries) -> ContextView {
        ContextView { top: Some(self.top->Some_0.extended(extend)), ..self }
    }

    /// `next` is `self` with `extend` set in the payload of the open
    /// (non-root) span.
    pub open spec fn extended_top(self, next: ContextView, extend: Entries) -> bool {
        &&& self.top is Some
        &&& next == self.with_top_extended(extend)
    }

    /// `self` with `extend` set in the payload of the root span.
    pub open spec fn with_root_extended(self, extend: Entries) -> ContextView {
        ContextView { root: Some(self.root->Some_0.extended(extend)), ..self }
    }

    /// `next` is `self` with `extend` set in the payload of the root span.
    pub open spec fn extended_root(self, next: ContextView, extend: Entries) -> bool {
        &&& self.root is Some
        &&& next == self.with_root_extended(extend)
    }
}

/// The spans of one request: those recorded, the root span of the request
/// and the span of the call in progress, all under one trace id.
pub struct Context {
    trace_id: String,
    spans: Vec<Box<Span>>,
    root: Option<Box<Span>>,
    top: Option<Box<Span>>,
}

pub open spec fn spans_view(s: Seq<Box<Span>>) -> Seq<SpanView> {
    s.map_values(|b: Box<Span>| b@)
}

pub open spec fn option_span_view(s: Option<Box<Span>>) -> Option<SpanView> {
    match s {
        Some(b) => Some(b@),
        None => None,
    }
}

impl View for Context {
    type V = ContextView;

    closed spec fn view(&self) -> ContextView {
        ContextView {
            trace_id: self.trace_id@,
            spans: spans_view(self.spans@),
            root: option_span_view(self.root),
            top: option_span_view(self.top),
        }
    }
}

impl Context {
    #[verifier::type_invariant]
    closed spec fn inv(self) -> bool {
        self@.traced()
    }

    /// A context with a fresh random trace id and no spans.
    pub fn new() -> (ctx: Context)
        ensures
            is_trace_id(ctx@.trace_id),
            ctx@.spans == Seq::<SpanView>::empty(),
            ctx@.root is None,
            ctx@.top is None,
    {
        let ctx = Context { trace_id: new_trace_id(), spans: Vec::new(), root: None, top: None };
        assert(ctx@.spans =~= Seq::<SpanView>::empty());
        ctx
    }

    /// The trace id.
    pub fn get_trace_id(&self) -> (id: &str)
        ensures
            id@ == self@.trace_id,
            self@.traced(),
    {
        proof {
            use_type_invariant(self);
        }
        self.trace_id.as_str()
    }

    /// Whether a root span is open.
    pub fn has_root_span(&self) -> (b: bool)
        ensures
            b == self@.root is Some,
    {
        self.root.is_some()
    }

    /// Whether the span of a call is open.
    pub fn has_open_span(&self) -> (b: bool)
        ensures
            b == self@.top is Some,
    {
        self.top.is_some()
    }

    /// Opens the root span of the request.
    pub fn start_root_span(&mut self, kind: &str, name: &str, payload: Payload)
        requires
            old(self)@.root is None,
        ensures
            old(self)@.started_root(final(self)@, kind@, name@, payload@),
            final(self)@.traced(),
    {
        proof {
            use_type_invariant(&*self);
        }
        let s = Span::new(self.trace_id.clone(), kind, name, payload);
        assert(option_span_view(Some(s)) == Some(s@));
        assert((ContextView { root: Some(s@), ..self@ }).traced());
        self.root = Some(s);
    }

    /// Closes the root span and records it.
    pub fn end_root_span(&mut self)
        requires
            old(self)@.root is Some,
        ensures
            old(self)@.ended_root(final(self)@),
            final(self)@.traced(),
    {
        proof {
            use_type_invariant(&*self);
        }
        let mut root: Option<Box<Span>> = None;
        assert(option_span_view(root) == None::<SpanView>);
        assert((ContextView { root: None, ..self@ }).traced());
        std::mem::swap(&mut root, &mut self.root);
        let mut span = root.unwrap();
        span.end();
        let mut spans: Vec<Box<Span>> = Vec::new();
        assert(spans_view(spans@) =~= Seq::<SpanView>::empty());
        assert((ContextView { spans: Seq::<SpanView>::empty(), ..self@ }).traced());
        std::mem::swap(&mut spans, &mut self.spans);
        let ghost before = spans_view(spans@);
        spans.push(span);
        assert(spans_view(spans@) =~= before.push(span@));
        assert((ContextView { spans: before.push(span@), ..self@ }).traced());
        self.spans = spans;
        assert(self@.spans.drop_last() =~= old(self)@.spans);
    }

    /// Opens the span of a call.
    pub fn start_span(&mut self, kind: &str, name: &str, payload: Payload)
        requires
            old(self)@.top is None,
        ensures
            old(self)@.started_top(final(self)@, kind@, name@, payload@),
            final(self)@.traced(),
    {
        proof {
            use_type_invariant(&*self);
        }
        let s = Span::new(self.trace_id.clone(), kind, name, payload);
        assert(option_span_view(Some(s)) == Some(s@));
        assert((ContextView { top: Some(s@), ..self@ }).traced());
        self.top = Some(s);
    }

    /// Closes the span of the call and records it.
    pub fn end_span(&mut self)
        requires
            old(self)@.top is Some,
        ensures
            old(self)@.ended_top(final(self)@),
            final(self)@.traced(),
    {
        proof {
            use_type_invariant(&*self);
        }
        let mut top: Option<Box<Span>> = None;
        assert(option_span_view(top) == None::<SpanView>);
        assert((ContextView { top: None, ..self@ }).traced());
        std::mem::swap(&mut top, &mut self.top);
        let mut span = top.unwrap();
        span.end();
        let mut spans: Vec<Box<Span>> = Vec::new();
        assert(spans_view(spans@) =~= Seq::<SpanView>::empty());
        assert((ContextView { spans: Seq::<SpanView>::empty(), ..self@ }).traced());
        std::mem::swap(&mut spans, &mut self.spans);
        let ghost before = spans_view(spans@);
        spans.push(span);
        assert(spans_view(spans@) =~= before.push(span@));
        assert((ContextView { spans: before.push(span@), ..self@ }).traced());
        self.spans = spans;
        assert(self@.spans.drop_last() =~= old(self)@.spans);
    }

    /// Sets the entries of `extend` in the payload of the call's span.
    pub fn extend_span_payload(&mut self, extend: Payload)
        requires
            old(self)@.top is Some,
        ensures
            old(self)@.extended_top(final(self)@, extend@),
            final(self)@.traced(),
    {
        proof {
            use_type_invariant(&*self);
        }
        let mut top: Option<Box<Span>> = None;
        assert(option_span_view(top) == None::<SpanView>);
        assert((ContextView { top: None, ..self@ }).traced());
        std::mem::swap(&mut top, &mut self.top);
        let mut span = top.unwrap();
        span.extend_payload(extend);
        assert(option_span_view(Some(span)) == Some(span@));
        assert((ContextView { top: Some(span@), ..self@ }).traced());
        self.top = Some(span);
    }

    /// Sets the entries of `extend` in the payload of the root span.
    pub fn extend_root_span_payload(&mut self, extend: Payload)
        requires
            old(self)@.root is Some,
        ensures
            old(self)@.extended_root(final(self)@, extend@),
            final(self)@.traced(),
    {
        proof {
            use_type_invariant(&*self);
        }
        let mut root: Option<Box<Span>> = None;
        assert(option_span_view(root) == None::<SpanView>);
        assert((ContextView { root: None, ..self@ }).traced());
        std::mem::swap(&mut root, &mut self.root);
        let mut span = root.unwrap();
        span.extend_payload(extend);
        assert(option_span_view(Some(span)) == Some(span@));
        assert((ContextView { root: Some(span@), ..self@ }).traced());
        self.root = Some(span);
    }

    /// The lines of the trace log for the recorded spans: one JSON object
    /// per span, in the order they were recorded.
    pub fn trace_lines(&self) -> (lines: Vec<String>)
        ensures
            lines@.len() == self@.spans.len(),
            forall|i: int| 0 <= i < lines@.len() ==> #[trigger] lines@[i]@ == span_json(
                self@.spans[i],
            ),
    {
        let n = self.spans.len();
        let mut lines: Vec<String> = Vec::new();
        let mut i: usize = 0;
        while i < n
            invariant
                n == self.spans@.len(),
                0 <= i <= n,
                lines@.len() == i,
                forall|j: int| 0 <= j < i ==> #[trigger] lines@[j]@ == span_json(self@.spans[j]),
            decreases n - i,
        {
            lines.push(self.spans[i].to_json());
            i = i + 1;
        }
        lines
    }
}

/// The spans recorded in `c0` stay, unchanged and in place, in `c1`.
pub open spec fn keeps_recorded(c0: ContextView, c1: ContextView) -> bool {
    &&& c0.spans.len() <= c1.spans.len()
    &&& forall|i: int| 0 <= i < c0.spans.len() ==> #[trigger] c1.spans[i] == c0.spans[i]
}

/// `c1` comes from `c0` by one operation of a context.
pub open spec fn one_step(c0: ContextView, c1: ContextView) -> bool {
    ||| exists|k: Seq<char>, n: Seq<char>, p: Entries| #[trigger] c0.started_root(c1, k, n, p)
    ||| c0.ended_root(c1)
    ||| exists|k: Seq<char>, n: Seq<char>, p: Entries| #[trigger] c0.started_top(c1, k, n, p)
    ||| c0.ended_top(c1)
    ||| exists|e: Entries| #[trigger] c0.extended_top(c1, e)
    ||| exists|e: Entries| #[trigger] c0.extended_root(c1, e)
}

/// No operation of a context changes its trace id, drops or alters a
/// recorded span, or lets a span under another trace id in.
pub proof fn lemma_one_step_keeps_record(c0: ContextView, c1: ContextView)
    requires
        c0.traced(),
        one_step(c0, c1),
    ensures
        c1.trace_id == c0.trace_id,
        keeps_recorded(c0, c1),
        c1.traced(),
{
    if c0.ended_root(c1) || c0.ended_top(c1) {
        assert forall|i: int| 0 <= i < c0.spans.len() implies #[trigger] c1.spans[i]
            == c0.spans[i] by {
            assert(c1.spans.drop_last()[i] == c1.spans[i]);
        }
        assert forall|i: int| 0 <= i < c1.spans.len() implies #[trigger] c1.spans[i].trace_id
            == c1.trace_id by {
            if i < c0.spans.len() {
                assert(c1.spans.drop_last()[i] == c1.spans[i]);
            }
        }
    }
}

/// Each state of `cs` comes from the one before by one operation of a
/// context.
pub open spec fn is_run(cs: Seq<ContextView>) -> bool {
    forall|i: int| 0 <= i < cs.len() - 1 ==> #[trigger] one_step(cs[i], cs[i + 1])
}

/// Over any run of operations, a context keeps its trace id, every span it
/// holds carries that id, and every span once recorded stays recorded,
/// unchanged and in place.
pub proof fn lemma_run_keeps_record(cs: Seq<ContextView>, i: int)
    requires
        is_run(cs),
        0 <= i < cs.len(),
        cs[0].traced(),
    ensures
        cs[i].trace_id == cs[0].trace_id,
        cs[i].traced(),
        keeps_recorded(cs[0], cs[i]),
    decreases i,
{
    if i > 0 {
        lemma_run_keeps_record(cs, i - 1);
        let k = i - 1;
        assert(one_step(cs[k], cs[k + 1]));
        assert(k + 1 == i);
        lemma_one_step_keeps_record(cs[i - 1], cs[i]);
        assert forall|j: int| 0 <= j < cs[0].spans.len() implies #[trigger] cs[i].spans[j]
            == cs[0].spans[j] by {
            assert(cs[i - 1].spans[j] == cs[0].spans[j]);
        }
    }
}

/// A call's span, opened and then closed, is recorded last, with the
/// context's trace id and the kind, name and payload it was opened with;
/// its duration is the time between the two readings of the clock. The
/// root span and the spans recorded before are left as they were.
pub proof fn lemma_span_lifecycle(
    c0: ContextView,
    c1: ContextView,
    c2: ContextView,
    kind: Seq<char>,
    name: Seq<char>,
    payload: Entries,
)
    requires
        c0.started_top(c1, kind, name, payload),
        c1.ended_top(c2),
    ensures
        c2.trace_id == c0.trace_id,
        c2.root == c0.root,
        c2.top is None,
        c2.spans == c0.spans.push(c2.spans.last()),
        c2.spans.last().trace_id == c0.trace_id,
        c2.spans.last().kind == kind,
        c2.spans.last().name == name,
        c2.spans.last().payload == payload,
        c2.spans.last().duration_in_micro == c2.spans.last().end.micros.wrapping_sub(
            c2.spans.last().start.micros,
        ),
{
    assert(c2.spans =~= c2.spans.drop_last().push(c2.spans.last()));
}

/// The root span, opened and then closed, is recorded last, with the
/// context's trace id and the kind, name and payload it was opened with.
/// The call's span and the spans recorded before are left as they were.
pub proof fn lemma_root_span_lifecycle(
    c0: ContextView,
    c1: ContextView,
    c2: ContextView,
    kind: Seq<char>,
    name: Seq<char>,
    payload: Entries,
)
    requires
        c0.started_root(c1, kind, name, payload),
        c1.ended_root(c2),
    ensures
        c2.trace_id == c0.trace_id,
        c2.top == c0.top,
        c2.root is None,
        c2.spans == c0.spans.push(c2.spans.last()),
        c2.spans.last().trace_id == c0.trace_id,
        c2.spans.last().kind == kind,
        c2.spans.last().name == name,
        c2.spans.last().payload == payload,
        c2.spans.last().duration_in_micro == c2.spans.last().end.micros.wrapping_sub(
            c2.spans.last().start.micros,
        ),
{
    assert(c2.spans =~= c2.spans.drop_last().push(c2.spans.last()));
}

/// Every line that the trace log gets from a context starts with that
/// context's trace id, the one its header reports: the log lines of a
/// request can be found by it.
pub proof fn lemma_lines_start_with_trace_id(c: ContextView, i: int)
    requires
        c.traced(),
        0 <= i < c.spans.len(),
    ensures
        ("{\"trace_id\":"@ + json_quote(c.trace_id)).is_prefix_of(span_json(c.spans[i])),
{
    let s = c.spans[i];
    let head = "{\"trace_id\":"@ + json_quote(c.trace_id);
    assert(s.trace_id == c.trace_id);
    let whole = span_json(s);
    let rest = whole.subrange(head.len() as int, whole.len() as int);
    assert(whole =~= head + (",\"kind\":"@ + json_quote(s.kind) + ",\"name\":"@ + json_quote(s.name)
        + ",\"payload\":"@ + crate::span::payload_json(s.payload) + ",\"start_time\":"@
        + json_quote(s.start.clock) + ",\"end_time\":"@ + json_quote(s.end.clock)
        + ",\"duration_in_micro\":"@ + crate::text::decimal(s.duration_in_micro as int) + "}"@));
}

} // verus!
