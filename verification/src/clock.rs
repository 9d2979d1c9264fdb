//! Clock-value normalization and display formatting.
//!
//! `format_time` turns the hour/minute text a user typed, together with the
//! PM flag, into the canonical zero-padded 24-hour `"HH:MM:00"` wire string.
//! `format_res_time` turns a 24-hour `"HH:MM"` string from the remote
//! service back into the 12-hour display form.

use vstd::prelude::*;
use vstd::string::*;

use crate::digits::{
    check_digits, digits_nonempty, is_digit, lemma_nat_to_digits_roundtrip,
    lemma_nat_to_digits_two, lemma_str_to_nat_pair, lemma_str_to_nat_step, nat_to_digits,
    parse_decimal, str_to_nat, u32_to_string,
};

verus! {

/// Why a conversion request was rejected before anything was sent.
#[derive(Clone, Copy, Debug, PartialEq, Eq, Structural)]
pub enum TimeInputError {
    /// The hour text is not a usable numeral.
    InvalidHour,
    /// The minute text is not a usable numeral.
    InvalidMinute,
}

/// A numeral zero-padded to at least two characters.
pub open spec fn pad2(s: Seq<char>) -> Seq<char> {
    if s.len() <= 1 {
        seq!['0'] + s
    } else {
        s
    }
}

/// The hour field of the wire string before the midnight remap: in PM mode
/// the parsed hour plus twelve, printed as a plain numeral; otherwise the
/// hour text itself, zero-padded.
pub open spec fn hour_field(pm: bool, hour: Seq<char>) -> Seq<char> {
    if pm {
        nat_to_digits(str_to_nat(hour) + 12)
    } else {
        pad2(hour)
    }
}

/// The canonical wire string `"HH:MM:00"` for accepted input: the hour field
/// with `"24"` remapped to `"00"` (the service refuses hour 24), then the
/// zero-padded minute text, then the fixed seconds.
pub open spec fn normalized_time(pm: bool, hour: Seq<char>, minute: Seq<char>) -> Seq<char> {
    let hf = hour_field(pm, hour);
    let hr = if hf == seq!['2', '4'] {
        seq!['0', '0']
    } else {
        hf
    };
    hr + seq![':'] + pad2(minute) + seq![':', '0', '0']
}

/// Hour text is accepted when it is a non-empty digit string whose value,
/// plus twelve in PM mode, still fits the arithmetic type.
pub open spec fn valid_hour_text(pm: bool, hour: Seq<char>) -> bool {
    digits_nonempty(hour) && (pm ==> str_to_nat(hour) + 12 <= u32::MAX)
}

/// Zero-pads a string to at least two characters.
fn pad2_exec(s: &str) -> (r: String)
    ensures
        r@ == pad2(s@),
{
    let len = s.unicode_len();
    if len <= 1 {
        let mut r = "0".to_owned();
        proof {
            reveal_strlit("0");
            assert(r@ =~= seq!['0']);
        }
        r.append(s);
        r
    } else {
        s.to_owned()
    }
}

/// Normalizes user-entered hour and minute text into the canonical
/// zero-padded 24-hour wire string `"HH:MM:00"`.
///
/// In PM mode twelve is added to the hour, so hour text above `"12"` runs
/// past 24 on purpose: that matches the established behaviour of the tool,
/// which performs no upper bound check before the 24-to-00 remap.
pub fn format_time(pm: bool, hour: String, minute: String) -> (r: Result<String, TimeInputError>)
    ensures
        match r {
            Ok(s) => valid_hour_text(pm, hour@) && digits_nonempty(minute@) && s@
                == normalized_time(pm, hour@, minute@),
            Err(TimeInputError::InvalidHour) => !valid_hour_text(pm, hour@),
            Err(TimeInputError::InvalidMinute) => valid_hour_text(pm, hour@) && !digits_nonempty(
                minute@,
            ),
        },
{
    let formatted_hour: String;
    if pm {
        let parsed = match parse_decimal(hour.as_str()) {
            Some(h) => h,
            None => {
                return Err(TimeInputError::InvalidHour);
            },
        };
        if parsed > u32::MAX - 12 {
            return Err(TimeInputError::InvalidHour);
        }
        let military = parsed + 12;
        if military == 24 {
            formatted_hour = "00".to_owned();
            proof {
                reveal_strlit("00");
                assert(formatted_hour@ =~= seq!['0', '0']);
                lemma_nat_to_digits_two(24);
                assert(hour_field(pm, hour@) == seq!['2', '4']);
            }
        } else {
            formatted_hour = u32_to_string(military);
            proof {
                lemma_nat_to_digits_roundtrip(str_to_nat(hour@) + 12);
                if hour_field(pm, hour@) == seq!['2', '4'] {
                    lemma_str_to_nat_pair('2', '4');
                    assert(str_to_nat(hour_field(pm, hour@)) == 24);
                    assert(false);
                }
            }
        }
    } else {
        if !check_digits(hour.as_str()) {
            return Err(TimeInputError::InvalidHour);
        }
        let padded = pad2_exec(hour.as_str());
        let is_24 = padded.unicode_len() == 2 && padded.as_str().get_char(0) == '2'
            && padded.as_str().get_char(1) == '4';
        if is_24 {
            formatted_hour = "00".to_owned();
            proof {
                reveal_strlit("00");
                assert(formatted_hour@ =~= seq!['0', '0']);
                assert(padded@ =~= seq!['2', '4']);
            }
        } else {
            formatted_hour = padded;
            proof {
                if formatted_hour@ == seq!['2', '4'] {
                    assert(formatted_hour@[0] == '2' && formatted_hour@[1] == '4');
                    assert(false);
                }
            }
        }
    }
    if !check_digits(minute.as_str()) {
        return Err(TimeInputError::InvalidMinute);
    }
    let formatted_min = pad2_exec(minute.as_str());
    let mut out = formatted_hour;
    out.append(":");
    out.append(formatted_min.as_str());
    out.append(":00");
    proof {
        reveal_strlit(":");
        reveal_strlit(":00");
        assert(":"@ =~= seq![':']);
        assert(":00"@ =~= seq![':', '0', '0']);
        assert(out@ =~= normalized_time(pm, hour@, minute@));
    }
    Ok(out)
}

/// A clock string in the fixed `"HH:MM:SS"` shape: the form of the `time`
/// field of a well-shaped answer, and of every wire string built from the
/// input a session's text fields can hold.
pub open spec fn valid_time_str(s: Seq<char>) -> bool {
    s.len() == 8 && is_digit(s[0]) && is_digit(s[1]) && s[2] == ':' && is_digit(s[3]) && is_digit(
        s[4],
    ) && s[5] == ':' && is_digit(s[6]) && is_digit(s[7])
}

/// The wire-format invariant: for input the entry fields are meant to hold —
/// hour and minute text of at most two digits, the hour at most twelve when
/// the PM flag adds twelve to it — the normalized wire string always has the
/// zero-padded two-digit `"HH:MM:00"` shape, with `"24"` remapped away.
pub proof fn lemma_normalized_time_shape(pm: bool, hour: Seq<char>, minute: Seq<char>)
    requires
        digits_nonempty(hour),
        hour.len() <= 2,
        digits_nonempty(minute),
        minute.len() <= 2,
        pm ==> str_to_nat(hour) <= 12,
    ensures
        valid_time_str(normalized_time(pm, hour, minute)),
{
    let hf = hour_field(pm, hour);
    if pm {
        let military = str_to_nat(hour) + 12;
        if military < 24 {
            lemma_nat_to_digits_two(military);
        } else {
            lemma_nat_to_digits_two(24);
        }
    } else {
        if hour.len() == 1 {
            assert(hf =~= seq!['0'] + hour);
            assert(is_digit(hf[1]));
        } else {
            assert(is_digit(hf[0]) && is_digit(hf[1]));
        }
    }
    assert(hf.len() == 2 && is_digit(hf[0]) && is_digit(hf[1]));
    let hr = if hf == seq!['2', '4'] {
        seq!['0', '0']
    } else {
        hf
    };
    assert(hr.len() == 2 && is_digit(hr[0]) && is_digit(hr[1]));
    let mf = pad2(minute);
    if minute.len() == 1 {
        assert(mf =~= seq!['0'] + minute);
        assert(is_digit(mf[1]));
    }
    assert(mf.len() == 2 && is_digit(mf[0]) && is_digit(mf[1]));
    let w = normalized_time(pm, hour, minute);
    assert(w =~= seq![hr[0], hr[1], ':', mf[0], mf[1], ':', '0', '0']);
}

/// A five-character `"HH:MM"` string whose hour characters are digits: the
/// shape `format_res_time` assumes of the slice taken from a response.
pub open spec fn valid_hhmm(t: Seq<char>) -> bool {
    t.len() == 5 && is_digit(t[0]) && is_digit(t[1])
}

/// The 12-hour display form of a 24-hour `"HH:MM"` string.
///
/// Hour 0 is shown as `"12:MM PM"` and hour 12 falls into the AM branch:
/// both depart from the usual convention for midnight and noon, and both are
/// kept on purpose as the tool's established display behaviour.
pub open spec fn ampm_time(t: Seq<char>) -> Seq<char> {
    let h = str_to_nat(t.take(2));
    let m = t.skip(3);
    if h == 0 {
        seq!['1', '2', ':'] + m + seq![' ', 'P', 'M']
    } else if h > 12 {
        nat_to_digits((h - 12) as nat) + seq![':'] + m + seq![' ', 'P', 'M']
    } else {
        nat_to_digits(h) + seq![':'] + m + seq![' ', 'A', 'M']
    }
}

/// Reformats a 24-hour `"HH:MM"` string from the remote service into the
/// 12-hour display form, keeping the established midnight and noon labels.
pub fn format_res_time(time: String) -> (r: String)
    requires
        valid_hhmm(time@),
    ensures
        r@ == ampm_time(time@),
{
    let c0 = time.as_str().get_char(0);
    let c1 = time.as_str().get_char(1);
    let d0 = c0 as u32 - 48;
    let d1 = c1 as u32 - 48;
    let h = d0 * 10 + d1;
    proof {
        lemma_str_to_nat_step(time@, 0);
        lemma_str_to_nat_step(time@, 1);
        assert(time@.take(0) =~= Seq::<char>::empty());
        assert(str_to_nat(time@.take(0)) == 0);
        assert(h == str_to_nat(time@.take(2)));
    }
    let minute = time.as_str().substring_char(3, 5);
    proof {
        reveal_strlit("12:");
        reveal_strlit(":");
        reveal_strlit(" PM");
        reveal_strlit(" AM");
        assert("12:"@ =~= seq!['1', '2', ':']);
        assert(":"@ =~= seq![':']);
        assert(" PM"@ =~= seq![' ', 'P', 'M']);
        assert(" AM"@ =~= seq![' ', 'A', 'M']);
        assert(minute@ =~= time@.skip(3));
    }
    if h == 0 {
        let mut out = "12:".to_owned();
        out.append(minute);
        out.append(" PM");
        proof {
            assert(out@ =~= ampm_time(time@));
        }
        out
    } else if h > 12 {
        let mut out = u32_to_string(h - 12);
        out.append(":");
        out.append(minute);
        out.append(" PM");
        proof {
            assert(out@ =~= ampm_time(time@));
        }
        out
    } else {
        let mut out = u32_to_string(h);
        out.append(":");
        out.append(minute);
        out.append(" AM");
        proof {
            assert(out@ =~= ampm_time(time@));
        }
        out
    }
}

} // verus!
