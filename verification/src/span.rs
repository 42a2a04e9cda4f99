use vstd::prelude::*;
use crate::clock::{Timestamp, TimestampView, is_clock_text, is_reading};
use crate::payload::{Entries, Payload, with_entries};
use crate::text::{
    decimal, decimal_i64, json_quote, lemma_decimal_single_line, lemma_json_quote_single_line,
    lemma_single_line_concat, push_json_string, single_line,
};

verus! {

pub const SPAN_KIND_URL: &'static str = "URL";

pub const SPAN_KIND_PDO: &'static str = "PDO";

pub const SPAN_KIND_CURL: &'static str = "CURL";

pub const SPAN_KIND_ERROR: &'static str = "ERROR";

pub const SPAN_KIND_EXCEPTION: &'static str = "EXCEPTION";

/// What a span holds, as plain values.
pub struct SpanView {
    pub trace_id: Seq<char>,
    pub kind: Seq<char>,
    pub name: Seq<char>,
    pub payload: Entries,
    pub start: TimestampView,
    pub end: TimestampView,
    pub duration_in_micro: i64,
}

impl SpanView {
    /// A span just opened at `now`: it ends where it starts and has lasted
    /// no time.
    pub open spec fn opened_at(
        trace_id: Seq<char>,
        kind: Seq<char>,
        name: Seq<char>,
        payload: Entries,
        now: TimestampView,
    ) -> SpanView {
        SpanView { trace_id, kind, name, payload, start: now, end: now, duration_in_micro: 0 }
    }

    /// `self` was opened with these values, at one reading of the clock:
    /// its start is that reading, micros and text together.
    pub open spec fn is_opened(
        self,
        trace_id: Seq<char>,
        kind: Seq<char>,
        name: Seq<char>,
        payload: Entries,
    ) -> bool {
        &&& is_clock_text(self.start.clock)
        &&& is_reading(self.start)
        &&& self == SpanView::opened_at(trace_id, kind, name, payload, self.start)
    }

    /// `self` closed at `now`: the end is `now`, and the duration is the
    /// difference of the two readings in microseconds (wrapping as `i64`
    /// arithmetic does where it would overflow).
    pub open spec fn ended_at(self, now: TimestampView) -> SpanView {
        SpanView {
            end: now,
            duration_in_micro: now.micros.wrapping_sub(self.start.micros),
            ..self
        }
    }

    /// `closed` is `self` closed at one reading of the clock: its end is
    /// that reading, micros and text together.
    pub open spec fn is_ended(self, closed: SpanView) -> bool {
        &&& is_clock_text(closed.end.clock)
        &&& is_reading(closed.end)
        &&& closed == self.ended_at(closed.end)
    }

    /// `self` with the entries of `extend` set in its payload.
    pub open spec fn extended(self, extend: Entries) -> SpanView {
        SpanView { payload: with_entries(self.payload, extend), ..self }
    }
}

/// The JSON text of a payload's entries, separated by commas.
pub open spec fn entries_json(e: Entries) -> Seq<char>
    decreases e.len(),
{
    if e.len() == 0 {
        seq![]
    } else {
        let head = entries_json(e.drop_last());
        let sep = if e.len() > 1 {
            seq![',']
        } else {
            seq![]
        };
        head + sep + json_quote(e.last().0) + seq![':'] + json_quote(e.last().1)
    }
}

/// The JSON object of a payload.
pub open spec fn payload_json(e: Entries) -> Seq<char> {
    seq!['{'] + entries_json(e) + seq!['}']
}

/// The JSON object that a span is written out as: its fields in the order
/// trace_id, kind, name, payload, start_time, end_time, duration_in_micro.
pub open spec fn span_json(s: SpanView) -> Seq<char> {
    "{\"trace_id\":"@ + json_quote(s.trace_id) + ",\"kind\":"@ + json_quote(s.kind)
        + ",\"name\":"@ + json_quote(s.name) + ",\"payload\":"@ + payload_json(s.payload)
        + ",\"start_time\":"@ + json_quote(s.start.clock) + ",\"end_time\":"@ + json_quote(
        s.end.clock,
    ) + ",\"duration_in_micro\":"@ + decimal(s.duration_in_micro as int) + "}"@
}

/// One timed operation of a request.
pub struct Span {
    trace_id: String,
    kind: String,
    name: String,
    payload: Payload,
    start_time: Timestamp,
    end_time: Timestamp,
    duration_in_micro: i64,
}

impl View for Span {
    type V = SpanView;

    closed spec fn view(&self) -> SpanView {
        SpanView {
            trace_id: self.trace_id@,
            kind: self.kind@,
            name: self.name@,
            payload: self.payload@,
            start: self.start_time@,
            end: self.end_time@,
            duration_in_micro: self.duration_in_micro,
        }
    }
}

impl Span {
    /// Opens a span now.
    pub fn new(trace_id: String, kind: &str, name: &str, payload: Payload) -> (s: Box<Span>)
        ensures
            s@.is_opened(trace_id@, kind@, name@, payload@),
    {
        Span::new_at(trace_id, kind, name, payload, Timestamp::now())
    }

    /// Opens a span at the clock reading `now`.
    pub fn new_at(trace_id: String, kind: &str, name: &str, payload: Payload, now: Timestamp) -> (s:
        Box<Span>)
        ensures
            s@ == SpanView::opened_at(trace_id@, kind@, name@, payload@, now@),
    {
        let end_time = now.copy();
        Box::new(
            Span {
                trace_id,
                kind: kind.to_owned(),
                name: name.to_owned(),
                payload,
                start_time: now,
                end_time,
                duration_in_micro: 0,
            },
        )
    }

    /// Sets the entries of `extend` in the payload.
    pub fn extend_payload(&mut self, extend: Payload)
        ensures
            final(self)@ == old(self)@.extended(extend@),
    {
        self.payload.extend(extend);
    }

    /// Closes the span now.
    pub fn end(&mut self)
        ensures
            old(self)@.is_ended(final(self)@),
    {
        self.end_at(Timestamp::now());
    }

    /// Closes the span at the clock reading `now`.
    pub fn end_at(&mut self, now: Timestamp)
        ensures
            final(self)@ == old(self)@.ended_at(now@),
    {
        self.duration_in_micro = now.micros.wrapping_sub(self.start_time.micros);
        self.end_time = now;
    }

    /// Replaces the trace id.
    pub fn set_trace_id(&mut self, trace_id: &str)
        ensures
            final(self)@ == (SpanView { trace_id: trace_id@, ..old(self)@ }),
    {
        self.trace_id = trace_id.to_owned();
    }

    /// The trace id.
    pub fn trace_id(&self) -> (t: &str)
        ensures
            t@ == self@.trace_id,
    {
        self.trace_id.as_str()
    }

    /// The JSON object of this span, as one line of the trace log holds it.
    pub fn to_json(&self) -> (json: String)
        ensures
            json@ == span_json(self@),
    {
        let mut out = String::new();
        out.append("{\"trace_id\":");
        push_json_string(&mut out, self.trace_id.as_str());
        out.append(",\"kind\":");
        push_json_string(&mut out, self.kind.as_str());
        out.append(",\"name\":");
        push_json_string(&mut out, self.name.as_str());
        out.append(",\"payload\":");
        push_payload_json(&mut out, &self.payload);
        out.append(",\"start_time\":");
        push_json_string(&mut out, self.start_time.clock.as_str());
        out.append(",\"end_time\":");
        push_json_string(&mut out, self.end_time.clock.as_str());
        out.append(",\"duration_in_micro\":");
        let d = decimal_i64(self.duration_in_micro);
        out.append(d.as_str());
        out.append("}");
        out
    }
}

/// Appends the JSON object of `payload` to `out`.
pub fn push_payload_json(out: &mut String, payload: &Payload)
    ensures
        final(out)@ == old(out)@ + payload_json(payload@),
{
    proof {
        reveal_strlit("{");
        reveal_strlit("}");
        reveal_strlit(",");
        reveal_strlit(":");
    }
    let ghost start = out@;
    out.append("{");
    let n = payload.len();
    let mut i: usize = 0;
    while i < n
        invariant
            n == payload@.len(),
            0 <= i <= n,
            out@ == start + seq!['{'] + entries_json(payload@.subrange(0, i as int)),
        decreases n - i,
    {
        proof {
            reveal_strlit(",");
            reveal_strlit(":");
        }
        let (k, v) = payload.entry(i);
        let ghost before = out@;
        let ghost sep: Seq<char> = if i > 0 {
            seq![',']
        } else {
            seq![]
        };
        if i > 0 {
            out.append(",");
        }
        assert(out@ =~= before + sep);
        push_json_string(out, k.as_str());
        out.append(":");
        push_json_string(out, v.as_str());
        proof {
            let e = payload@.subrange(0, i + 1);
            assert(e.drop_last() =~= payload@.subrange(0, i as int));
            assert(e.last() == payload@[i as int]);
            assert(out@ =~= before + sep + json_quote(k@) + seq![':'] + json_quote(v@));
        }
        i = i + 1;
    }
    assert(payload@.subrange(0, n as int) =~= payload@);
    out.append("}");
}

/// Where the difference of the two readings fits in an `i64`, a closed
/// span's duration is exactly that difference.
pub proof fn lemma_duration_exact(s: SpanView, now: TimestampView)
    requires
        i64::MIN <= now.micros - s.start.micros <= i64::MAX,
    ensures
        s.ended_at(now).duration_in_micro == now.micros - s.start.micros,
{
}

/// A span opened now starts and ends at one reading of the clock, taken by
/// the open (its micros and its text belong to the same instant), has
/// lasted no time, and holds exactly what it was opened with.
pub proof fn lemma_opened_span(
    s: SpanView,
    trace_id: Seq<char>,
    kind: Seq<char>,
    name: Seq<char>,
    payload: Entries,
)
    requires
        s.is_opened(trace_id, kind, name, payload),
    ensures
        is_reading(s.start),
        s.end == s.start,
        s.duration_in_micro == 0,
        s.trace_id == trace_id,
        s.kind == kind,
        s.name == name,
        s.payload == payload,
{
}

/// Closing a span keeps its start and everything it holds, sets its end to
/// one reading of the clock taken by the close, and sets its duration to
/// that reading's micros minus the start's (exactly, where the difference
/// fits in an `i64`).
pub proof fn lemma_closed_span(s0: SpanView, s1: SpanView)
    requires
        s0.is_ended(s1),
    ensures
        is_reading(s1.end),
        s1.start == s0.start,
        s1.trace_id == s0.trace_id,
        s1.kind == s0.kind,
        s1.name == s0.name,
        s1.payload == s0.payload,
        i64::MIN <= s1.end.micros - s0.start.micros <= i64::MAX ==> s1.duration_in_micro
            == s1.end.micros - s0.start.micros,
{
}

/// A span opened now and closed later lasts from the reading taken by the
/// open to the reading taken by the close: its duration is the close
/// reading's micros minus the open reading's, both true readings of the
/// clock.
pub proof fn lemma_span_lasts_between_readings(
    s0: SpanView,
    s1: SpanView,
    trace_id: Seq<char>,
    kind: Seq<char>,
    name: Seq<char>,
    payload: Entries,
)
    requires
        s0.is_opened(trace_id, kind, name, payload),
        s0.is_ended(s1),
        i64::MIN <= s1.end.micros - s1.start.micros <= i64::MAX,
    ensures
        is_reading(s1.start),
        is_reading(s1.end),
        s1.start == s0.start,
        s1.duration_in_micro == s1.end.micros - s1.start.micros,
{
}

/// The JSON text of a payload never spans more than one line.
pub proof fn lemma_payload_json_single_line(e: Entries)
    ensures
        single_line(payload_json(e)),
{
    lemma_entries_json_single_line(e);
    lemma_single_line_concat(seq!['{'], entries_json(e));
    lemma_single_line_concat(seq!['{'] + entries_json(e), seq!['}']);
}

proof fn lemma_entries_json_single_line(e: Entries)
    ensures
        single_line(entries_json(e)),
    decreases e.len(),
{
    if e.len() > 0 {
        lemma_entries_json_single_line(e.drop_last());
        let head = entries_json(e.drop_last());
        let sep: Seq<char> = if e.len() > 1 {
            seq![',']
        } else {
            seq![]
        };
        lemma_json_quote_single_line(e.last().0);
        lemma_json_quote_single_line(e.last().1);
        lemma_single_line_concat(head, sep);
        lemma_single_line_concat(head + sep, json_quote(e.last().0));
        lemma_single_line_concat(head + sep + json_quote(e.last().0), seq![':']);
        lemma_single_line_concat(
            head + sep + json_quote(e.last().0) + seq![':'],
            json_quote(e.last().1),
        );
    }
}

/// Every span is written out as exactly one line: its JSON text holds no
/// line break, so the trace log holds one span per line.
pub proof fn lemma_span_json_single_line(s: SpanView)
    ensures
        single_line(span_json(s)),
{
    reveal_strlit("{\"trace_id\":");
    reveal_strlit(",\"kind\":");
    reveal_strlit(",\"name\":");
    reveal_strlit(",\"payload\":");
    reveal_strlit(",\"start_time\":");
    reveal_strlit(",\"end_time\":");
    reveal_strlit(",\"duration_in_micro\":");
    reveal_strlit("}");
    lemma_json_quote_single_line(s.trace_id);
    lemma_json_quote_single_line(s.kind);
    lemma_json_quote_single_line(s.name);
    lemma_payload_json_single_line(s.payload);
    lemma_json_quote_single_line(s.start.clock);
    lemma_json_quote_single_line(s.end.clock);
    lemma_decimal_single_line(s.duration_in_micro as int);
    let p0 = "{\"trace_id\":"@;
    let p1 = p0 + json_quote(s.trace_id);
    lemma_single_line_concat(p0, json_quote(s.trace_id));
    let p2 = p1 + ",\"kind\":"@;
    lemma_single_line_concat(p1, ",\"kind\":"@);
    let p3 = p2 + json_quote(s.kind);
    lemma_single_line_concat(p2, json_quote(s.kind));
    let p4 = p3 + ",\"name\":"@;
    lemma_single_line_concat(p3, ",\"name\":"@);
    let p5 = p4 + json_quote(s.name);
    lemma_single_line_concat(p4, json_quote(s.name));
    let p6 = p5 + ",\"payload\":"@;
    lemma_single_line_concat(p5, ",\"payload\":"@);
    let p7 = p6 + payload_json(s.payload);
    lemma_single_line_concat(p6, payload_json(s.payload));
    let p8 = p7 + ",\"start_time\":"@;
    lemma_single_line_concat(p7, ",\"start_time\":"@);
    let p9 = p8 + json_quote(s.start.clock);
    lemma_single_line_concat(p8, json_quote(s.start.clock));
    let p10 = p9 + ",\"end_time\":"@;
    lemma_single_line_concat(p9, ",\"end_time\":"@);
    let p11 = p10 + json_quote(s.end.clock);
    lemma_single_line_concat(p10, json_quote(s.end.clock));
    let p12 = p11 + ",\"duration_in_micro\":"@;
    lemma_single_line_concat(p11, ",\"duration_in_micro\":"@);
    let p13 = p12 + decimal(s.duration_in_micro as int);
    lemma_single_line_concat(p12, decimal(s.duration_in_micro as int));
    lemma_single_line_concat(p13, "}"@);
}

} // verus!
