use vstd::prelude::*;
use crate::text::digit_char;

verus! {

/// `c` is one of the ASCII digits.
pub open spec fn is_digit(c: char) -> bool {
    '0' <= c && c <= '9'
}

/// `s` reads `HH:MM:SS.mmm`, the wall-clock text that a span records.
pub open spec fn is_clock_text(s: Seq<char>) -> bool {
    &&& s.len() == 12
    &&& s[2] == ':' && s[5] == ':' && s[8] == '.'
    &&& forall|i: int|
        0 <= i < 12 && i != 2 && i != 5 && i != 8 ==> #[trigger] is_digit(s[i])
}

/// `n` (below 100) in two decimal digits.
pub open spec fn two_digits(n: int) -> Seq<char> {
    seq![digit_char((n / 10) as nat), digit_char((n % 10) as nat)]
}

/// `n` (below 1000) in three decimal digits.
pub open spec fn three_digits(n: int) -> Seq<char> {
    seq![digit_char((n / 100) as nat), digit_char(((n / 10) % 10) as nat), digit_char((n % 10) as nat)]
}

/// The `HH:MM:SS.mmm` text of the instant `micros` microseconds after the
/// Unix epoch, on a clock `offset` seconds ahead of UTC: hour, minute and
/// second of the local day, and the whole milliseconds of the second.
pub open spec fn local_clock_text(micros: int, offset: int) -> Seq<char> {
    let secs = (micros / 1_000_000 + offset) % 86_400;
    two_digits(secs / 3600) + seq![':'] + two_digits((secs / 60) % 60) + seq![':'] + two_digits(
        secs % 60,
    ) + seq!['.'] + three_digits((micros / 1000) % 1000)
}

/// `t` is one reading of a clock: its text is the local wall-clock text of
/// the very instant its microseconds give, in some time zone (less than a
/// day away from UTC, as every zone is).
pub open spec fn is_reading(t: TimestampView) -> bool {
    exists|offset: int|
        -86_400 < offset < 86_400 && #[trigger] local_clock_text(t.micros as int, offset)
            == t.clock
}

/// A reading of the clock: microseconds since the Unix epoch and the local
/// wall-clock text.
pub struct Timestamp {
    pub micros: i64,
    pub clock: String,
}

/// What a `Timestamp` holds, as plain values.
pub struct TimestampView {
    pub micros: i64,
    pub clock: Seq<char>,
}

impl View for Timestamp {
    type V = TimestampView;

    open spec fn view(&self) -> TimestampView {
        TimestampView { micros: self.micros, clock: self.clock@ }
    }
}

impl Timestamp {
    /// Reads the clock.
    pub fn now() -> (t: Timestamp)
        ensures
            is_clock_text(t@.clock),
            is_reading(t@),
    {
        read_local_clock()
    }

    /// A copy of this reading.
    pub fn copy(&self) -> (t: Timestamp)
        ensures
            t@ == self@,
    {
        Timestamp { micros: self.micros, clock: self.clock.clone() }
    }
}

/// `chrono::Local::now`, taken apart into plain values: its
/// `timestamp_micros` and its `format("%H:%M:%S%.3f")` text. Both depend on
/// the instant, and the text on the time zone, so neither is claimed. What
/// is claimed is that they belong together: chrono's `DateTime<Local>` is a
/// UTC date-time with a `FixedOffset` of whole seconds, strictly within a
/// day of UTC; `timestamp_micros` counts the UTC instant, and the format
/// writes the local time of day (UTC plus the offset) as two zero-padded
/// digits each for `%H`, `%M`, `%S`, and `%.3f` as a dot and the whole
/// milliseconds (`nanosecond / 1_000_000 % 1000`) in three digits.
#[verifier::external_body]
fn read_local_clock() -> (t: Timestamp)
    ensures
        is_clock_text(t@.clock),
        is_reading(t@),
{
    let now = chrono::Local::now();
    Timestamp { micros: now.timestamp_micros(), clock: now.format("%H:%M:%S%.3f").to_string() }
}

/// The text of a reading is a well-formed `HH:MM:SS.mmm`.
pub proof fn lemma_reading_is_clock_text(t: TimestampView)
    requires
        is_reading(t),
    ensures
        is_clock_text(t.clock),
{
    let offset = choose|offset: int|
        -86_400 < offset < 86_400 && #[trigger] local_clock_text(t.micros as int, offset)
            == t.clock;
    let c = local_clock_text(t.micros as int, offset);
    assert(c.len() == 12);
    assert forall|i: int| 0 <= i < 12 && i != 2 && i != 5 && i != 8 implies #[trigger] is_digit(
        c[i],
    ) by {}
}

/// The last three digits of a reading's text are the whole milliseconds of
/// its instant: they do not depend on the time zone.
pub proof fn lemma_reading_millis(t: TimestampView)
    requires
        is_reading(t),
    ensures
        t.clock.subrange(9, 12) == three_digits((t.micros as int / 1000) % 1000),
{
    let offset = choose|offset: int|
        -86_400 < offset < 86_400 && #[trigger] local_clock_text(t.micros as int, offset)
            == t.clock;
    assert(t.clock.subrange(9, 12) =~= three_digits((t.micros as int / 1000) % 1000));
}

proof fn lemma_digit_char_injective(a: nat, b: nat)
    requires
        a < 10,
        b < 10,
        digit_char(a) == digit_char(b),
    ensures
        a == b,
{
}

proof fn lemma_two_digits_injective(a: int, b: int)
    requires
        0 <= a < 100,
        0 <= b < 100,
        two_digits(a) == two_digits(b),
    ensures
        a == b,
{
    assert(two_digits(a)[0] == two_digits(b)[0]);
    assert(two_digits(a)[1] == two_digits(b)[1]);
    lemma_digit_char_injective((a / 10) as nat, (b / 10) as nat);
    lemma_digit_char_injective((a % 10) as nat, (b % 10) as nat);
}

proof fn lemma_three_digits_injective(a: int, b: int)
    requires
        0 <= a < 1000,
        0 <= b < 1000,
        three_digits(a) == three_digits(b),
    ensures
        a == b,
{
    assert(three_digits(a)[0] == three_digits(b)[0]);
    assert(three_digits(a)[1] == three_digits(b)[1]);
    assert(three_digits(a)[2] == three_digits(b)[2]);
    lemma_digit_char_injective((a / 100) as nat, (b / 100) as nat);
    lemma_digit_char_injective(((a / 10) % 10) as nat, ((b / 10) % 10) as nat);
    lemma_digit_char_injective((a % 10) as nat, (b % 10) as nat);
}

proof fn lemma_time_of_day_parts(x: int, y: int)
    requires
        0 <= x < 86_400,
        0 <= y < 86_400,
        x / 3600 == y / 3600,
        (x / 60) % 60 == (y / 60) % 60,
        x % 60 == y % 60,
    ensures
        x == y,
{
    assert(x == 3600 * (x / 3600) + 60 * ((x / 60) % 60) + x % 60) by (nonlinear_arith)
        requires
            0 <= x,
    ;
    assert(y == 3600 * (y / 3600) + 60 * ((y / 60) % 60) + y % 60) by (nonlinear_arith)
        requires
            0 <= y,
    ;
}

/// The text of a clock gives its local time of day to the millisecond:
/// two instants with the same text in the same time zone fall on the same
/// second of the local day and the same millisecond of that second, so
/// instants a second or more apart within a day never share a text.
pub proof fn lemma_clock_text_fixes_time_of_day(m1: int, m2: int, offset: int)
    requires
        local_clock_text(m1, offset) == local_clock_text(m2, offset),
    ensures
        (m1 / 1_000_000 + offset) % 86_400 == (m2 / 1_000_000 + offset) % 86_400,
        (m1 / 1000) % 1000 == (m2 / 1000) % 1000,
{
    let x = (m1 / 1_000_000 + offset) % 86_400;
    let y = (m2 / 1_000_000 + offset) % 86_400;
    let t1 = local_clock_text(m1, offset);
    let t2 = local_clock_text(m2, offset);
    assert(t1.subrange(0, 2) =~= two_digits(x / 3600));
    assert(t2.subrange(0, 2) =~= two_digits(y / 3600));
    assert(t1.subrange(3, 5) =~= two_digits((x / 60) % 60));
    assert(t2.subrange(3, 5) =~= two_digits((y / 60) % 60));
    assert(t1.subrange(6, 8) =~= two_digits(x % 60));
    assert(t2.subrange(6, 8) =~= two_digits(y % 60));
    assert(t1.subrange(9, 12) =~= three_digits((m1 / 1000) % 1000));
    assert(t2.subrange(9, 12) =~= three_digits((m2 / 1000) % 1000));
    lemma_two_digits_injective(x / 3600, y / 3600);
    lemma_two_digits_injective((x / 60) % 60, (y / 60) % 60);
    lemma_two_digits_injective(x % 60, y % 60);
    lemma_three_digits_injective((m1 / 1000) % 1000, (m2 / 1000) % 1000);
    lemma_time_of_day_parts(x, y);
}

} // verus!
