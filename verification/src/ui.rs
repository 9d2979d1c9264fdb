//! The plain values behind the window: the fields a fresh session starts
//! with, and the "before" panel's time string.

use vstd::prelude::*;
use vstd::string::*;

verus! {

/// Everything the window edits or shows, held as plain values. The date is
/// kept separately as a [`crate::date::Date`].
pub struct UiFields {
    /// Hour text as typed.
    pub hours: String,
    /// Minute text as typed.
    pub mins: String,
    /// Source zone, an IANA zone name.
    pub from: String,
    /// Destination zone, an IANA zone name.
    pub to: String,
    /// Date shown in the "after" panel.
    pub res_date: String,
    /// Time shown in the "after" panel.
    pub res_time: String,
    /// Whether the entered time is PM.
    pub pm: bool,
}

/// The fields a fresh session starts with: noon, Los Angeles to Seoul, and
/// placeholder result texts.
pub fn initial_fields() -> (r: UiFields)
    ensures
        r.hours@ == "12"@,
        r.mins@ == "00"@,
        r.from@ == "America/Los_Angeles"@,
        r.to@ == "Asia/Seoul"@,
        r.res_date@ == "N/A"@,
        r.res_time@ == "N/A"@,
        !r.pm,
{
    UiFields {
        hours: "12".to_owned(),
        mins: "00".to_owned(),
        from: "America/Los_Angeles".to_owned(),
        to: "Asia/Seoul".to_owned(),
        res_date: "N/A".to_owned(),
        res_time: "N/A".to_owned(),
        pm: false,
    }
}

/// The "before" panel's time: the entered hour and minute texts joined by a
/// colon, labelled with the state of the PM flag.
pub fn before_time_display(hours: &str, mins: &str, pm: bool) -> (r: String)
    ensures
        r@ == hours@ + seq![':'] + mins@ + (if pm {
            " PM"@
        } else {
            " AM"@
        }),
{
    let mut out = hours.to_owned();
    out.append(":");
    out.append(mins);
    if pm {
        out.append(" PM");
    } else {
        out.append(" AM");
    }
    proof {
        reveal_strlit(":");
        assert(":"@ =~= seq![':']);
        if pm {
            assert(out@ =~= hours@ + seq![':'] + mins@ + " PM"@);
        } else {
            assert(out@ =~= hours@ + seq![':'] + mins@ + " AM"@);
        }
    }
    out
}

} // verus!
