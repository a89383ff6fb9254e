use vstd::prelude::*;
use crate::numfmt::{dec_str, u64_to_dec};

verus! {

/// Puts a single space in front of a new component unless nothing has been
/// written yet.
pub open spec fn with_sep(prefix: Seq<char>) -> Seq<char> {
    if prefix.len() == 0 {
        prefix
    } else {
        prefix + " "@
    }
}

/// An elapsed wall-clock span, truncated to whole seconds, rendered in
/// descending units (days, hours, minutes, seconds). A unit whose value is
/// zero is omitted; a span of zero seconds renders as "0s"; the day unit is
/// written out and pluralized.
pub open spec fn duration_str(secs: nat) -> Seq<char> {
    if secs == 0 {
        "0s"@
    } else {
        let d = secs / 86400;
        let h = (secs % 86400) / 3600;
        let m = (secs % 3600) / 60;
        let s = secs % 60;
        let with_days = if d == 0 {
            Seq::<char>::empty()
        } else {
            dec_str(d) + (if d == 1 { "day"@ } else { "days"@ })
        };
        let with_hours = if h == 0 { with_days } else { with_sep(with_days) + dec_str(h) + "h"@ };
        let with_minutes = if m == 0 { with_hours } else { with_sep(with_hours) + dec_str(m) + "m"@ };
        if s == 0 { with_minutes } else { with_sep(with_minutes) + dec_str(s) + "s"@ }
    }
}

/// Render an elapsed number of seconds as a human-readable duration.
pub fn format_elapsed(secs: u64) -> (r: String)
    ensures
        r@ == duration_str(secs as nat),
{
    proof {
        reveal_strlit("0s");
        reveal_strlit("day");
        reveal_strlit("days");
        reveal_strlit("h");
        reveal_strlit("m");
        reveal_strlit("s");
        reveal_strlit(" ");
    }
    if secs == 0 {
        return "0s".to_owned();
    }
    let d = secs / 86400;
    let h = (secs % 86400) / 3600;
    let m = (secs % 3600) / 60;
    let s = secs % 60;
    let mut out = String::new();
    let mut started = false;
    if d > 0 {
        let ds = u64_to_dec(d);
        out.append(ds.as_str());
        if d == 1 {
            out.append("day");
        } else {
            out.append("days");
        }
        started = true;
    }
    let ghost with_days = if d == 0 {
        Seq::<char>::empty()
    } else {
        dec_str(d as nat) + (if d == 1 { "day"@ } else { "days"@ })
    };
    proof {
        assert(out@ =~= with_days);
        assert(started == (with_days.len() != 0));
    }
    if h > 0 {
        if started {
            out.append(" ");
        }
        let hs = u64_to_dec(h);
        out.append(hs.as_str());
        out.append("h");
        started = true;
    }
    let ghost with_hours = if h == 0 { with_days } else { with_sep(with_days) + dec_str(h as nat) + "h"@ };
    proof {
        assert(out@ =~= with_hours);
        assert(started == (with_hours.len() != 0));
    }
    if m > 0 {
        if started {
            out.append(" ");
        }
        let ms = u64_to_dec(m);
        out.append(ms.as_str());
        out.append("m");
        started = true;
    }
    let ghost with_minutes = if m == 0 { with_hours } else { with_sep(with_hours) + dec_str(m as nat) + "m"@ };
    proof {
        assert(out@ =~= with_minutes);
        assert(started == (with_minutes.len() != 0));
    }
    if s > 0 {
        if started {
            out.append(" ");
        }
        let ss = u64_to_dec(s);
        out.append(ss.as_str());
        out.append("s");
    }
    proof {
        assert(out@ =~= duration_str(secs as nat));
    }
    out
}

} // verus!
