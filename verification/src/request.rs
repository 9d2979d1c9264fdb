//! The outbound request: the `dateTime` field and the JSON body sent to the
//! remote conversion endpoint.
//!
//! The body is this tool's own fixed wire format — an object with the four
//! fields `fromTimeZone`, `dateTime`, `toTimeZone` and `dstAmbiguity` (the
//! last always empty) — so it is built here, verified, rather than handed to
//! a serializer.

use vstd::prelude::*;
use vstd::string::*;

use crate::date::Date;

verus! {

/// The hexadecimal digit character for a value below sixteen.
pub open spec fn hex_char(n: nat) -> char {
    if n == 0 {
        '0'
    } else if n == 1 {
        '1'
    } else if n == 2 {
        '2'
    } else if n == 3 {
        '3'
    } else if n == 4 {
        '4'
    } else if n == 5 {
        '5'
    } else if n == 6 {
        '6'
    } else if n == 7 {
        '7'
    } else if n == 8 {
        '8'
    } else if n == 9 {
        '9'
    } else if n == 10 {
        'a'
    } else if n == 11 {
        'b'
    } else if n == 12 {
        'c'
    } else if n == 13 {
        'd'
    } else if n == 14 {
        'e'
    } else {
        'f'
    }
}

/// How one character appears inside a JSON string literal: quote and
/// backslash are escaped, control characters take the `\u00XX` form, and
/// everything else stands as itself.
pub open spec fn json_escaped_char(c: char) -> Seq<char> {
    if c == '"' {
        seq!['\\', '"']
    } else if c == '\\' {
        seq!['\\', '\\']
    } else if (c as u32) < 32 {
        let hi = hex_char((c as u32 / 16) as nat);
        let lo = hex_char((c as u32 % 16) as nat);
        seq!['\\', 'u', '0', '0', hi, lo]
    } else {
        seq![c]
    }
}

/// A whole character sequence escaped for use inside a JSON string literal.
pub open spec fn json_escaped(s: Seq<char>) -> Seq<char>
    decreases s.len(),
{
    if s.len() == 0 {
        Seq::<char>::empty()
    } else {
        json_escaped_char(s[0]) + json_escaped(s.drop_first())
    }
}

/// Escaping distributes over concatenation.
pub proof fn lemma_json_escaped_append(a: Seq<char>, b: Seq<char>)
    ensures
        json_escaped(a + b) == json_escaped(a) + json_escaped(b),
    decreases a.len(),
{
    if a.len() == 0 {
        assert(a + b =~= b);
        assert(json_escaped(a) + json_escaped(b) =~= json_escaped(b));
    } else {
        lemma_json_escaped_append(a.drop_first(), b);
        assert((a + b).drop_first() =~= a.drop_first() + b);
        assert((a + b)[0] == a[0]);
        assert(json_escaped(a + b) =~= json_escaped_char(a[0]) + (json_escaped(a.drop_first())
            + json_escaped(b)));
        assert(json_escaped_char(a[0]) + (json_escaped(a.drop_first()) + json_escaped(b)) =~= (
        json_escaped_char(a[0]) + json_escaped(a.drop_first())) + json_escaped(b));
    }
}

/// Relies on `String::push`: appends exactly the given character.
#[verifier::external_body]
fn push_char(s: &mut String, c: char)
    ensures
        final(s)@ == old(s)@.push(c),
{
    s.push(c)
}

/// Escapes a string for use inside a JSON string literal.
pub fn json_escape(s: &str) -> (r: String)
    ensures
        r@ == json_escaped(s@),
{
    let len = s.unicode_len();
    let mut out = String::new();
    let mut i: usize = 0;
    while i < len
        invariant
            0 <= i <= len,
            len == s@.len(),
            out@ == json_escaped(s@.take(i as int)),
        decreases len - i,
    {
        let c = s.get_char(i);
        let u = c as u32;
        if u == 34 {
            out.append("\\\"");
            proof {
                reveal_strlit("\\\"");
                assert("\\\""@ =~= seq!['\\', '"']);
            }
        } else if u == 92 {
            out.append("\\\\");
            proof {
                reveal_strlit("\\\\");
                assert("\\\\"@ =~= seq!['\\', '\\']);
            }
        } else if u < 32 {
            out.append("\\u00");
            let hi = hex_str(u / 16);
            out.append(hi);
            let lo = hex_str(u % 16);
            out.append(lo);
            proof {
                reveal_strlit("\\u00");
                assert("\\u00"@ =~= seq!['\\', 'u', '0', '0']);
            }
        } else {
            push_char(&mut out, c);
        }
        proof {
            assert(out@ =~= json_escaped(s@.take(i as int)) + json_escaped_char(s@[i as int]));
            let t = s@.take(i + 1 as int);
            assert(t =~= s@.take(i as int) + seq![s@[i as int]]);
            lemma_json_escaped_append(s@.take(i as int), seq![s@[i as int]]);
            assert(seq![s@[i as int]].drop_first() =~= Seq::<char>::empty());
            assert(json_escaped(Seq::<char>::empty()) == Seq::<char>::empty());
            assert(json_escaped_char(s@[i as int]) + Seq::<char>::empty() =~= json_escaped_char(
                s@[i as int],
            ));
            assert(json_escaped(seq![s@[i as int]]) =~= json_escaped_char(s@[i as int]));
        }
        i = i + 1;
    }
    proof {
        assert(s@.take(len as int) =~= s@);
    }
    out
}

/// A one-character string slice holding the hexadecimal digit of `d`.
fn hex_str(d: u32) -> (r: &'static str)
    requires
        d < 16,
    ensures
        r@ == seq![hex_char(d as nat)],
{
    proof {
        reveal_strlit("0");
        reveal_strlit("1");
        reveal_strlit("2");
        reveal_strlit("3");
        reveal_strlit("4");
        reveal_strlit("5");
        reveal_strlit("6");
        reveal_strlit("7");
        reveal_strlit("8");
        reveal_strlit("9");
        reveal_strlit("a");
        reveal_strlit("b");
        reveal_strlit("c");
        reveal_strlit("d");
        reveal_strlit("e");
        reveal_strlit("f");
    }
    let r = if d == 0 {
        "0"
    } else if d == 1 {
        "1"
    } else if d == 2 {
        "2"
    } else if d == 3 {
        "3"
    } else if d == 4 {
        "4"
    } else if d == 5 {
        "5"
    } else if d == 6 {
        "6"
    } else if d == 7 {
        "7"
    } else if d == 8 {
        "8"
    } else if d == 9 {
        "9"
    } else if d == 10 {
        "a"
    } else if d == 11 {
        "b"
    } else if d == 12 {
        "c"
    } else if d == 13 {
        "d"
    } else if d == 14 {
        "e"
    } else {
        "f"
    };
    proof {
        assert(r@ =~= seq![hex_char(d as nat)]);
    }
    r
}

/// The local date and wire time joined by a single space: the value of the
/// outbound `dateTime` field, `"YYYY-MM-DD HH:MM:00"`.
pub fn build_date_time(date: &Date, time: &str) -> (r: String)
    requires
        date.wf(),
    ensures
        r@ == date.iso_spec() + seq![' '] + time@,
{
    let mut out = date.iso_string();
    out.append(" ");
    out.append(time);
    proof {
        reveal_strlit(" ");
        assert(" "@ =~= seq![' ']);
        assert(out@ =~= date.iso_spec() + seq![' '] + time@);
    }
    out
}

/// The JSON body of the conversion request: the four wire fields in fixed
/// order, each value escaped, `dstAmbiguity` always empty.
pub open spec fn payload_spec(from: Seq<char>, date_time: Seq<char>, to: Seq<char>) -> Seq<char> {
    "{\"fromTimeZone\":\""@ + json_escaped(from) + "\",\"dateTime\":\""@ + json_escaped(date_time)
        + "\",\"toTimeZone\":\""@ + json_escaped(to) + "\",\"dstAmbiguity\":\"\"}"@
}

/// Builds the JSON body of the conversion request.
pub fn payload_json(from: &str, date_time: &str, to: &str) -> (r: String)
    ensures
        r@ == payload_spec(from@, date_time@, to@),
{
    let mut out = "{\"fromTimeZone\":\"".to_owned();
    let f = json_escape(from);
    out.append(f.as_str());
    out.append("\",\"dateTime\":\"");
    let d = json_escape(date_time);
    out.append(d.as_str());
    out.append("\",\"toTimeZone\":\"");
    let t = json_escape(to);
    out.append(t.as_str());
    out.append("\",\"dstAmbiguity\":\"\"}");
    proof {
        assert(out@ =~= payload_spec(from@, date_time@, to@));
    }
    out
}

} // verus!
