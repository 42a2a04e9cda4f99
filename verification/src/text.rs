use vstd::prelude::*;

verus! {

/// The decimal digit character for `d` (`d < 10`).
pub open spec fn digit_char(d: nat) -> char {
    if d == 0 {
        '0'
    } else if d == 1 {
        '1'
    } else if d == 2 {
        '2'
    } else if d == 3 {
        '3'
    } else if d == 4 {
        '4'
    } else if d == 5 {
        '5'
    } else if d == 6 {
        '6'
    } else if d == 7 {
        '7'
    } else if d == 8 {
        '8'
    } else {
        '9'
    }
}

/// The lower-case hexadecimal digit character for `d` (`d < 16`).
pub open spec fn hex_char(d: nat) -> char {
    if d < 10 {
        digit_char(d)
    } else if d == 10 {
        'a'
    } else if d == 11 {
        'b'
    } else if d == 12 {
        'c'
    } else if d == 13 {
        'd'
    } else if d == 14 {
        'e'
    } else {
        'f'
    }
}

/// The decimal digits of `n`, without leading zeros.
pub open spec fn digits(n: nat) -> Seq<char>
    decreases n,
{
    if n < 10 {
        seq![digit_char(n)]
    } else {
        digits(n / 10).push(digit_char(n % 10))
    }
}

/// The decimal text of an integer: a minus sign before the digits of a negative one.
pub open spec fn decimal(n: int) -> Seq<char> {
    if n < 0 {
        seq!['-'] + digits((-n) as nat)
    } else {
        digits(n as nat)
    }
}

/// How a JSON string literal writes the character `c`: quote, backslash and
/// the control characters below U+0020 are escaped, every other character
/// stands for itself.
pub open spec fn json_char(c: char) -> Seq<char> {
    if c == '"' {
        seq!['\\', '"']
    } else if c == '\\' {
        seq!['\\', '\\']
    } else if c == '\x08' {
        seq!['\\', 'b']
    } else if c == '\t' {
        seq!['\\', 't']
    } else if c == '\n' {
        seq!['\\', 'n']
    } else if c == '\x0c' {
        seq!['\\', 'f']
    } else if c == '\r' {
        seq!['\\', 'r']
    } else if (c as int) < 0x20 {
        seq!['\\', 'u', '0', '0', hex_char((c as int / 16) as nat), hex_char((c as int % 16) as nat)]
    } else {
        seq![c]
    }
}

/// The escaped body of a JSON string literal for `s`.
pub open spec fn json_escape(s: Seq<char>) -> Seq<char>
    decreases s.len(),
{
    if s.len() == 0 {
        seq![]
    } else {
        json_escape(s.drop_last()) + json_char(s.last())
    }
}

/// The JSON string literal for `s`, quotes included.
pub open spec fn json_quote(s: Seq<char>) -> Seq<char> {
    seq!['"'] + json_escape(s) + seq!['"']
}

/// A sequence of characters holds no line break.
pub open spec fn single_line(s: Seq<char>) -> bool {
    forall|i: int| 0 <= i < s.len() ==> s[i] != '\n' && s[i] != '\r'
}

/// Joining two texts without line breaks gives a text without line breaks.
pub proof fn lemma_single_line_concat(a: Seq<char>, b: Seq<char>)
    requires
        single_line(a),
        single_line(b),
    ensures
        single_line(a + b),
{
    assert forall|i: int| 0 <= i < (a + b).len() implies (a + b)[i] != '\n' && (a + b)[i]
        != '\r' by {
        if i >= a.len() {
            assert((a + b)[i] == b[i - a.len()]);
        }
    }
}

/// A JSON string literal never spans more than one line: every line break
/// of the text is escaped.
pub proof fn lemma_json_quote_single_line(s: Seq<char>)
    ensures
        single_line(json_quote(s)),
    decreases s.len(),
{
    lemma_json_escape_single_line(s);
}

proof fn lemma_json_escape_single_line(s: Seq<char>)
    ensures
        single_line(json_escape(s)),
    decreases s.len(),
{
    if s.len() > 0 {
        lemma_json_escape_single_line(s.drop_last());
        let c = s.last();
        let e = json_char(c);
        assert(single_line(e)) by {
            if (c as int) < 0x20 && c != '\x08' && c != '\t' && c != '\n' && c != '\x0c' && c
                != '\r' {
                assert(hex_char((c as int / 16) as nat) != '\n');
                assert(hex_char((c as int % 16) as nat) != '\n');
            }
        }
        assert(single_line(json_escape(s.drop_last()) + e));
    }
}

/// Decimal text never spans more than one line.
pub proof fn lemma_decimal_single_line(n: int)
    ensures
        single_line(decimal(n)),
{
    if n < 0 {
        lemma_digits_single_line((-n) as nat);
    } else {
        lemma_digits_single_line(n as nat);
    }
}

proof fn lemma_digits_single_line(n: nat)
    ensures
        single_line(digits(n)),
    decreases n,
{
    if n >= 10 {
        lemma_digits_single_line(n / 10);
    }
}

fn digit_str(d: u64) -> (s: &'static str)
    requires
        d < 10,
    ensures
        s@ == seq![digit_char(d as nat)],
{
    match d {
        0 => {
            proof {
                reveal_strlit("0");
            }
            "0"
        },
        1 => {
            proof {
                reveal_strlit("1");
            }
            "1"
        },
        2 => {
            proof {
                reveal_strlit("2");
            }
            "2"
        },
        3 => {
            proof {
                reveal_strlit("3");
            }
            "3"
        },
        4 => {
            proof {
                reveal_strlit("4");
            }
            "4"
        },
        5 => {
            proof {
                reveal_strlit("5");
            }
            "5"
        },
        6 => {
            proof {
                reveal_strlit("6");
            }
            "6"
        },
        7 => {
            proof {
                reveal_strlit("7");
            }
            "7"
        },
        8 => {
            proof {
                reveal_strlit("8");
            }
            "8"
        },
        _ => {
            proof {
                reveal_strlit("9");
            }
            "9"
        },
    }
}

fn push_digits(out: &mut String, m: u64)
    ensures
        final(out)@ == old(out)@ + digits(m as nat),
    decreases m,
{
    if m >= 10 {
        push_digits(out, m / 10);
    }
    out.append(digit_str(m % 10));
    assert(digits(m as nat) == if m < 10 {
        seq![digit_char(m as nat)]
    } else {
        digits((m / 10) as nat).push(digit_char((m % 10) as nat))
    });
}

/// The decimal text of an unsigned integer, as `to_string` writes it.
pub fn decimal_u64(n: u64) -> (res: String)
    ensures
        res@ == digits(n as nat),
{
    let mut out = String::new();
    push_digits(&mut out, n);
    out
}

/// The decimal text of a signed integer, as `to_string` writes it.
pub fn decimal_i64(n: i64) -> (res: String)
    ensures
        res@ == decimal(n as int),
{
    let mut out = String::new();
    if n < 0 {
        out.append("-");
        proof {
            reveal_strlit("-");
        }
        let m: u64 = (-(n as i128)) as u64;
        push_digits(&mut out, m);
    } else {
        push_digits(&mut out, n as u64);
    }
    out
}


/// `serde_json::to_string` on a string slice. Serialising a `str` writes
/// into a `Vec<u8>`, which never fails, and `format_escaped_str` emits the
/// quoted text with the escapes that `json_char` lists (its `ESCAPE` table:
/// `\"`, `\\`, `\b`, `\t`, `\n`, `\f`, `\r`, and `\u00xx` with lower-case hex
/// for the other control characters below U+0020); this contract claims
/// exactly that.
#[verifier::external_body]
fn json_string(s: &str) -> (r: Option<String>)
    ensures
        r is Some,
        r is Some ==> r->Some_0@ == json_quote(s@),
{
    serde_json::to_string(s).ok()
}

/// Appends the JSON string literal of `s` to `out`.
pub fn push_json_string(out: &mut String, s: &str)
    ensures
        final(out)@ == old(out)@ + json_quote(s@),
{
    match json_string(s) {
        Some(t) => out.append(t.as_str()),
        None => {},
    }
}

} // verus!
