//! The inbound side: reading the remote service's answer and deriving the
//! two display strings from it.
//!
//! A failed transport, an empty or malformed body, and a response whose
//! fields do not have the expected fixed-width shapes all end in the same
//! sentinel pair, so the application never crashes on a bad answer.

use vstd::prelude::*;
use vstd::string::*;

use crate::clock::{ampm_time, format_res_time, valid_hhmm, valid_time_str};
use crate::date::valid_date_str;
use crate::digits::is_digit;
use crate::jsonval::{conv_fields_of, extract_two_fields};

verus! {

/// What the remote service answered: the raw `date` and `time` strings of
/// its `conversionResult` field, or the sentinel error pair.
pub struct ConversionResult {
    pub date: String,
    pub time: String,
}

/// The sentinel pair shown when no usable answer arrived.
pub open spec fn is_error_pair(date: Seq<char>, time: Seq<char>) -> bool {
    date == "Error"@ && time == "Please try again!"@
}

impl ConversionResult {
    /// The result holds the sentinel error pair.
    pub open spec fn is_error(&self) -> bool {
        is_error_pair(self.date@, self.time@)
    }

    /// The sentinel substitute for a real answer: shown as-is, it tells the
    /// user to try again, and it raises nothing.
    pub fn error_result() -> (r: ConversionResult)
        ensures
            r.is_error(),
    {
        ConversionResult { date: "Error".to_owned(), time: "Please try again!".to_owned() }
    }
}

/// The two read-only strings of the "after" panel.
pub struct DisplayState {
    pub date: String,
    pub time: String,
}

/// True exactly when the string has the `"YYYY-MM-DD"` shape.
fn check_date_str(s: &str) -> (r: bool)
    ensures
        r == valid_date_str(s@),
{
    if s.unicode_len() != 10 {
        return false;
    }
    let mut i: usize = 0;
    while i < 10
        invariant
            0 <= i <= 10,
            s@.len() == 10,
            forall|j: int|
                0 <= j < i ==> if j == 4 || j == 7 {
                    s@[j] == '-'
                } else {
                    is_digit(#[trigger] s@[j])
                },
        decreases 10 - i,
    {
        let c = s.get_char(i);
        if i == 4 || i == 7 {
            if c != '-' {
                return false;
            }
        } else {
            let u = c as u32;
            if u < 48 || u > 57 {
                return false;
            }
        }
        i = i + 1;
    }
    true
}

/// True exactly when the string has the `"HH:MM:SS"` shape.
fn check_time_str(s: &str) -> (r: bool)
    ensures
        r == valid_time_str(s@),
{
    if s.unicode_len() != 8 {
        return false;
    }
    let mut i: usize = 0;
    while i < 8
        invariant
            0 <= i <= 8,
            s@.len() == 8,
            forall|j: int|
                0 <= j < i ==> if j == 2 || j == 5 {
                    s@[j] == ':'
                } else {
                    is_digit(#[trigger] s@[j])
                },
        decreases 8 - i,
    {
        let c = s.get_char(i);
        if i == 2 || i == 5 {
            if c != ':' {
                return false;
            }
        } else {
            let u = c as u32;
            if u < 48 || u > 57 {
                return false;
            }
        }
        i = i + 1;
    }
    true
}

/// Derives the "after" display from a result: for a well-shaped answer, the
/// `"MM-DD"` part of its date and the 12-hour form of its `"HH:MM"` part;
/// for anything else — the sentinel pair included — the sentinel texts.
pub fn display_of_result(res: &ConversionResult) -> (r: DisplayState)
    ensures
        valid_date_str(res.date@) && valid_time_str(res.time@) ==> r.date@ == res.date@.skip(5)
            && r.time@ == ampm_time(res.time@.take(5)),
        !(valid_date_str(res.date@) && valid_time_str(res.time@)) ==> is_error_pair(
            r.date@,
            r.time@,
        ),
{
    if check_date_str(res.date.as_str()) && check_time_str(res.time.as_str()) {
        let date = res.date.as_str().substring_char(5, 10).to_owned();
        let hhmm = res.time.as_str().substring_char(0, 5).to_owned();
        proof {
            assert(date@ =~= res.date@.skip(5));
            assert(hhmm@ =~= res.time@.take(5));
            assert(valid_hhmm(hhmm@));
        }
        let time = format_res_time(hhmm);
        DisplayState { date, time }
    } else {
        let sentinel = ConversionResult::error_result();
        DisplayState { date: sentinel.date, time: sentinel.time }
    }
}

/// Reads the body of a transport-level success: parses it as JSON and pulls
/// the `date` and `time` strings out of its `conversionResult` field. Those
/// strings are delivered untouched; an empty body, a body that is not JSON,
/// and a body without those string fields all yield the sentinel, never a
/// fault.
pub fn process_response_body(body: &str) -> (r: ConversionResult)
    ensures
        match conv_fields_of(body@, "conversionResult"@, "date"@, "time"@) {
            Some(p) => r.date@ == p.0 && r.time@ == p.1,
            None => r.is_error(),
        },
        body@.len() == 0 ==> r.is_error(),
{
    match extract_two_fields(body, "conversionResult", "date", "time") {
        Some(p) => ConversionResult { date: p.0, time: p.1 },
        None => ConversionResult::error_result(),
    }
}

} // verus!
