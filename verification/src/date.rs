//! Calendar dates as plain year/month/day values, with the two fixed-width
//! renderings the tool needs: the ISO `"YYYY-MM-DD"` form that goes into the
//! outbound `dateTime` field, and the `"MM/DD"` form shown beside the entered
//! time.

use vstd::prelude::*;
use vstd::string::*;

use crate::digits::{digit_char, digit_str, is_digit};

verus! {

/// A date string in the fixed `"YYYY-MM-DD"` shape: the form of the `date`
/// field of a well-shaped answer, and of every rendering of a well-formed
/// [`Date`].
pub open spec fn valid_date_str(s: Seq<char>) -> bool {
    s.len() == 10 && is_digit(s[0]) && is_digit(s[1]) && is_digit(s[2]) && is_digit(s[3]) && s[4]
        == '-' && is_digit(s[5]) && is_digit(s[6]) && s[7] == '-' && is_digit(s[8]) && is_digit(
        s[9],
    )
}

/// Four zero-padded decimal digits of a number below ten thousand.
pub open spec fn four_digits(n: nat) -> Seq<char> {
    seq![
        digit_char(n / 1000 % 10),
        digit_char(n / 100 % 10),
        digit_char(n / 10 % 10),
        digit_char(n % 10),
    ]
}

/// Two zero-padded decimal digits of a number below one hundred.
pub open spec fn two_digits(n: nat) -> Seq<char> {
    seq![digit_char(n / 10 % 10), digit_char(n % 10)]
}

/// A calendar date held as plain field values.
#[derive(Clone, Copy, Debug, PartialEq, Eq, Structural)]
pub struct Date {
    pub year: u32,
    pub month: u32,
    pub day: u32,
}

impl Date {
    /// Field ranges of a renderable date. Day 31 is admitted for every
    /// month: the remote service, not this tool, owns the calendar.
    pub open spec fn wf(&self) -> bool {
        1 <= self.year <= 9999 && 1 <= self.month <= 12 && 1 <= self.day <= 31
    }

    /// The ISO rendering `"YYYY-MM-DD"`.
    pub open spec fn iso_spec(&self) -> Seq<char> {
        four_digits(self.year as nat) + seq!['-'] + two_digits(self.month as nat) + seq!['-']
            + two_digits(self.day as nat)
    }

    /// Accepts exactly the field values a renderable date may hold.
    pub fn new(year: u32, month: u32, day: u32) -> (r: Option<Date>)
        ensures
            match r {
                Some(d) => d.year == year && d.month == month && d.day == day && d.wf(),
                None => !(Date { year, month, day }).wf(),
            },
    {
        if 1 <= year && year <= 9999 && 1 <= month && month <= 12 && 1 <= day && day <= 31 {
            Some(Date { year, month, day })
        } else {
            None
        }
    }

    /// Renders the date in the ISO `"YYYY-MM-DD"` form.
    pub fn iso_string(&self) -> (r: String)
        requires
            self.wf(),
        ensures
            r@ == self.iso_spec(),
    {
        let mut out = four_digits_exec(self.year);
        out.append("-");
        let m = two_digits_exec(self.month);
        out.append(m.as_str());
        out.append("-");
        let d = two_digits_exec(self.day);
        out.append(d.as_str());
        proof {
            reveal_strlit("-");
            assert("-"@ =~= seq!['-']);
            assert(out@ =~= self.iso_spec());
        }
        out
    }

    /// Renders the date in the `"MM/DD"` form shown in the "before" panel.
    pub fn slash_display(&self) -> (r: String)
        requires
            self.wf(),
        ensures
            r@ == two_digits(self.month as nat) + seq!['/'] + two_digits(self.day as nat),
    {
        let mut out = two_digits_exec(self.month);
        out.append("/");
        let d = two_digits_exec(self.day);
        out.append(d.as_str());
        proof {
            reveal_strlit("/");
            assert("/"@ =~= seq!['/']);
            assert(out@ =~= two_digits(self.month as nat) + seq!['/'] + two_digits(
                self.day as nat,
            ));
        }
        out
    }
}

/// A well-formed date always renders in the `"YYYY-MM-DD"` shape.
pub proof fn lemma_iso_spec_shape(d: &Date)
    requires
        d.wf(),
    ensures
        valid_date_str(d.iso_spec()),
{
    let y = d.year as nat;
    let m = d.month as nat;
    let dd = d.day as nat;
    assert(d.iso_spec() =~= seq![
        digit_char(y / 1000 % 10),
        digit_char(y / 100 % 10),
        digit_char(y / 10 % 10),
        digit_char(y % 10),
        '-',
        digit_char(m / 10 % 10),
        digit_char(m % 10),
        '-',
        digit_char(dd / 10 % 10),
        digit_char(dd % 10),
    ]);
}

/// Prints a number below one hundred as two zero-padded digits.
pub fn two_digits_exec(n: u32) -> (r: String)
    requires
        n < 100,
    ensures
        r@ == two_digits(n as nat),
{
    let mut out = digit_str(n / 10).to_owned();
    out.append(digit_str(n % 10));
    proof {
        assert(out@ =~= two_digits(n as nat));
    }
    out
}

/// Prints a number below ten thousand as four zero-padded digits.
pub fn four_digits_exec(n: u32) -> (r: String)
    requires
        n < 10000,
    ensures
        r@ == four_digits(n as nat),
{
    let mut out = digit_str(n / 1000 % 10).to_owned();
    out.append(digit_str(n / 100 % 10));
    out.append(digit_str(n / 10 % 10));
    out.append(digit_str(n % 10));
    proof {
        assert(out@ =~= four_digits(n as nat));
    }
    out
}

} // verus!
