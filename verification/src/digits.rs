//! Decimal numerals as character sequences: the mathematical model shared by
//! the clock normalizer and the display formatter, together with verified
//! parsing and printing routines.

use vstd::prelude::*;
use vstd::string::*;

verus! {

/// A decimal digit character.
pub open spec fn is_digit(c: char) -> bool {
    '0' <= c <= '9'
}

/// Numeric value of a digit character; zero for anything else.
pub open spec fn digit_val(c: char) -> nat {
    if is_digit(c) {
        (c as u32 - '0' as u32) as nat
    } else {
        0
    }
}

/// Every character of the sequence is a decimal digit.
pub open spec fn all_digits(s: Seq<char>) -> bool {
    forall|i: int| 0 <= i < s.len() ==> is_digit(#[trigger] s[i])
}

/// A non-empty, digits-only numeral.
pub open spec fn digits_nonempty(s: Seq<char>) -> bool {
    s.len() > 0 && all_digits(s)
}

/// The number denoted by a sequence of digit characters, most significant
/// digit first.
pub open spec fn str_to_nat(s: Seq<char>) -> nat
    decreases s.len(),
{
    if s.len() == 0 {
        0
    } else {
        str_to_nat(s.drop_last()) * 10 + digit_val(s.last())
    }
}

/// The digit character for a value below ten.
pub open spec fn digit_char(n: nat) -> char {
    if n == 0 {
        '0'
    } else if n == 1 {
        '1'
    } else if n == 2 {
        '2'
    } else if n == 3 {
        '3'
    } else if n == 4 {
        '4'
    } else if n == 5 {
        '5'
    } else if n == 6 {
        '6'
    } else if n == 7 {
        '7'
    } else if n == 8 {
        '8'
    } else {
        '9'
    }
}

/// The shortest decimal numeral of a number (no leading zeros, except for
/// the single digit of zero itself).
pub open spec fn nat_to_digits(n: nat) -> Seq<char>
    decreases n,
{
    if n < 10 {
        seq![digit_char(n)]
    } else {
        nat_to_digits(n / 10).push(digit_char(n % 10))
    }
}

/// A numeral denotes its own value again: printing then parsing is the
/// identity, and the printed form is a non-empty digit string.
pub proof fn lemma_nat_to_digits_roundtrip(n: nat)
    ensures
        str_to_nat(nat_to_digits(n)) == n,
        digits_nonempty(nat_to_digits(n)),
    decreases n,
{
    if n < 10 {
        let s = nat_to_digits(n);
        assert(s =~= seq![digit_char(n)]);
        assert(s.drop_last() =~= Seq::<char>::empty());
        assert(s.last() == digit_char(n));
        assert(str_to_nat(Seq::<char>::empty()) == 0);
        assert(digit_val(digit_char(n)) == n);
        assert(str_to_nat(s) == str_to_nat(s.drop_last()) * 10 + digit_val(s.last()));
    } else {
        lemma_nat_to_digits_roundtrip(n / 10);
        let p = nat_to_digits(n / 10);
        let s = p.push(digit_char(n % 10));
        assert(s.drop_last() =~= p);
        assert(s.last() == digit_char(n % 10));
        assert(digit_val(digit_char(n % 10)) == n % 10);
        assert(str_to_nat(s) == (n / 10) * 10 + n % 10);
        assert((n / 10) * 10 + n % 10 == n) by (nonlinear_arith);
        assert forall|i: int| 0 <= i < s.len() implies is_digit(#[trigger] s[i]) by {
            if i < p.len() {
                assert(is_digit(p[i]));
            }
        }
    }
}

/// The value of a two-character numeral, spelled out.
pub proof fn lemma_str_to_nat_pair(c0: char, c1: char)
    ensures
        str_to_nat(seq![c0, c1]) == digit_val(c0) * 10 + digit_val(c1),
{
    let s = seq![c0, c1];
    assert(s.drop_last() =~= seq![c0]);
    assert(s.last() == c1);
    assert(seq![c0].drop_last() =~= Seq::<char>::empty());
    assert(seq![c0].last() == c0);
    assert(str_to_nat(Seq::<char>::empty()) == 0);
    assert(str_to_nat(seq![c0]) == str_to_nat(seq![c0].drop_last()) * 10 + digit_val(
        seq![c0].last(),
    ));
    assert(str_to_nat(s) == str_to_nat(s.drop_last()) * 10 + digit_val(s.last()));
}

/// The printed form of a two-digit number, spelled out.
pub proof fn lemma_nat_to_digits_two(n: nat)
    requires
        10 <= n < 100,
    ensures
        nat_to_digits(n) == seq![digit_char(n / 10), digit_char(n % 10)],
{
    assert(nat_to_digits(n / 10) =~= seq![digit_char(n / 10)]);
    assert(nat_to_digits(n) =~= seq![digit_char(n / 10), digit_char(n % 10)]);
}

/// Extending a numeral by one digit multiplies its value by ten and adds
/// that digit.
pub proof fn lemma_str_to_nat_step(s: Seq<char>, i: int)
    requires
        0 <= i < s.len(),
    ensures
        str_to_nat(s.take(i + 1)) == str_to_nat(s.take(i)) * 10 + digit_val(s[i]),
{
    let t = s.take(i + 1);
    assert(t.drop_last() =~= s.take(i));
    assert(t.last() == s[i]);
}

/// A numeral's value never shrinks when more digits follow.
pub proof fn lemma_str_to_nat_take_le(s: Seq<char>, i: int, j: int)
    requires
        0 <= i <= j <= s.len(),
    ensures
        str_to_nat(s.take(i)) <= str_to_nat(s.take(j)),
    decreases j - i,
{
    if i < j {
        lemma_str_to_nat_take_le(s, i, j - 1);
        lemma_str_to_nat_step(s, j - 1);
        assert(str_to_nat(s.take(j - 1)) <= str_to_nat(s.take(j - 1)) * 10) by (nonlinear_arith);
    }
}

/// A one-character string slice holding the digit character of `d`.
pub fn digit_str(d: u32) -> (r: &'static str)
    requires
        d < 10,
    ensures
        r@ == seq![digit_char(d as nat)],
{
    proof {
        reveal_strlit("0");
        reveal_strlit("1");
        reveal_strlit("2");
        reveal_strlit("3");
        reveal_strlit("4");
        reveal_strlit("5");
        reveal_strlit("6");
        reveal_strlit("7");
        reveal_strlit("8");
        reveal_strlit("9");
    }
    let r = if d == 0 {
        "0"
    } else if d == 1 {
        "1"
    } else if d == 2 {
        "2"
    } else if d == 3 {
        "3"
    } else if d == 4 {
        "4"
    } else if d == 5 {
        "5"
    } else if d == 6 {
        "6"
    } else if d == 7 {
        "7"
    } else if d == 8 {
        "8"
    } else {
        "9"
    };
    proof {
        assert(r@ =~= seq![digit_char(d as nat)]);
    }
    r
}

/// Prints a number as its shortest decimal numeral.
pub fn u32_to_string(n: u32) -> (r: String)
    ensures
        r@ == nat_to_digits(n as nat),
    decreases n,
{
    if n < 10 {
        let s = digit_str(n);
        s.to_owned()
    } else {
        let mut prefix = u32_to_string(n / 10);
        prefix.append(digit_str(n % 10));
        proof {
            assert(prefix@ =~= nat_to_digits((n / 10) as nat).push(digit_char((n % 10) as nat)));
        }
        prefix
    }
}

/// True exactly when the string is a non-empty, digits-only numeral.
pub fn check_digits(s: &str) -> (r: bool)
    ensures
        r == digits_nonempty(s@),
{
    let len = s.unicode_len();
    if len == 0 {
        return false;
    }
    let mut i: usize = 0;
    while i < len
        invariant
            0 <= i <= len,
            len == s@.len(),
            all_digits(s@.take(i as int)),
        decreases len - i,
    {
        let c = s.get_char(i);
        let u = c as u32;
        if u < 48 || u > 57 {
            proof {
                assert(!is_digit(s@[i as int]));
            }
            return false;
        }
        proof {
            assert(s@.take(i + 1 as int) =~= s@.take(i as int).push(s@[i as int]));
        }
        i = i + 1;
    }
    proof {
        assert(s@.take(len as int) =~= s@);
    }
    true
}

/// Parses a non-empty, digits-only numeral whose value fits the result type;
/// returns nothing on any other input.
pub fn parse_decimal(s: &str) -> (r: Option<u32>)
    ensures
        match r {
            Some(v) => digits_nonempty(s@) && v == str_to_nat(s@) && str_to_nat(s@) <= u32::MAX,
            None => !(digits_nonempty(s@) && str_to_nat(s@) <= u32::MAX),
        },
{
    let len = s.unicode_len();
    if len == 0 {
        return None;
    }
    let mut i: usize = 0;
    let mut acc: u32 = 0;
    while i < len
        invariant
            0 <= i <= len,
            len == s@.len(),
            len > 0,
            all_digits(s@.take(i as int)),
            acc == str_to_nat(s@.take(i as int)),
        decreases len - i,
    {
        let c = s.get_char(i);
        let u = c as u32;
        if u < 48 || u > 57 {
            proof {
                assert(!is_digit(s@[i as int]));
            }
            return None;
        }
        let d: u32 = u - 48;
        proof {
            assert(d == digit_val(s@[i as int]));
            lemma_str_to_nat_step(s@, i as int);
        }
        if acc > (u32::MAX - d) / 10 {
            proof {
                assert(acc * 10 + d > u32::MAX) by (nonlinear_arith)
                    requires
                        acc > (u32::MAX - d) / 10,
                        d <= u32::MAX,
                ;
                lemma_str_to_nat_take_le(s@, i + 1, len as int);
                assert(s@.take(len as int) =~= s@);
            }
            return None;
        }
        acc = acc * 10 + d;
        proof {
            assert(s@.take(i + 1 as int) =~= s@.take(i as int).push(s@[i as int]));
        }
        i = i + 1;
    }
    proof {
        assert(s@.take(len as int) =~= s@);
    }
    Some(acc)
}

} // verus!
