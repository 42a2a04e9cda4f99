use vstd::prelude::*;
use crate::context::{Context, ContextView};
use crate::payload::Payload;
use crate::span::{SPAN_KIND_ERROR, SPAN_KIND_EXCEPTION};
use crate::text::{decimal, decimal_i64};
use crate::util::{errno_2_str, errno_name};

verus! {

/// `<what>: <message> in <file> on line <line>`, the name of the span of an
/// error or an exception.
pub open spec fn incident_name(what: Seq<char>, message: Seq<char>, file: Seq<char>, line: i64) -> Seq<
    char,
> {
    what + ": "@ + message + " in "@ + file + " on line "@ + decimal(line as int)
}

fn incident_text(what: String, message: &str, file: &str, line: i64) -> (t: String)
    ensures
        t@ == incident_name(what@, message@, file@, line),
{
    let mut t = what;
    t.append(": ");
    t.append(message);
    t.append(" in ");
    t.append(file);
    t.append(" on line ");
    let l = decimal_i64(line);
    t.append(l.as_str());
    t
}

/// Records a PHP error as an `ERROR` span, opened and closed at once.
pub fn minitrace_error_handler(
    ctx: &mut Context,
    errno: i64,
    errstr: &str,
    errfile: &str,
    errline: i64,
)
    requires
        old(ctx)@.top is None,
    ensures
        exists|mid: ContextView|
            #[trigger] old(ctx)@.started_top(
                mid,
                SPAN_KIND_ERROR@,
                incident_name(errno_name(errno), errstr@, errfile@, errline),
                Seq::<(Seq<char>, Seq<char>)>::empty(),
            ) && mid.ended_top(final(ctx)@),
        final(ctx)@.traced(),
{
    let name = incident_text(errno_2_str(errno), errstr, errfile, errline);
    ctx.start_span(SPAN_KIND_ERROR, name.as_str(), Payload::new());
    let ghost mid = ctx@;
    ctx.end_span();
    assert(old(ctx)@.started_top(
        mid,
        SPAN_KIND_ERROR@,
        incident_name(errno_name(errno), errstr@, errfile@, errline),
        Seq::<(Seq<char>, Seq<char>)>::empty(),
    ));
}

/// Records an uncaught exception as an `EXCEPTION` span, opened and closed
/// at once, with its stack trace in the payload.
pub fn minitrace_exception_handler(
    ctx: &mut Context,
    class_name: &str,
    message: &str,
    file: &str,
    line: i64,
    trace: String,
)
    requires
        old(ctx)@.top is None,
    ensures
        exists|mid: ContextView|
            #[trigger] old(ctx)@.started_top(
                mid,
                SPAN_KIND_EXCEPTION@,
                incident_name(class_name@, message@, file@, line),
                seq![("trace"@, trace@)],
            ) && mid.ended_top(final(ctx)@),
        final(ctx)@.traced(),
{
    let name = incident_text(class_name.to_owned(), message, file, line);
    let ghost trace_view = trace@;
    ctx.start_span(SPAN_KIND_EXCEPTION, name.as_str(), Payload::single("trace".to_owned(), trace));
    let ghost mid = ctx@;
    ctx.end_span();
    assert(old(ctx)@.started_top(
        mid,
        SPAN_KIND_EXCEPTION@,
        incident_name(class_name@, message@, file@, line),
        seq![("trace"@, trace_view)],
    ));
}

} // verus!
