use vstd::prelude::*;
use vstd::string::StrSliceExecFns;

verus! {

// The device endpoint reports a flap's pack voltage as a JSON number. The
// library holds voltages in tenths of a millivolt, so the number's decimal
// text is parsed here into that fixed-point form: "5.6175" becomes 56175.
// Only the first four fractional digits matter at that resolution; further
// digits are truncated away. A negative reading clamps to zero and a reading
// beyond the cap clamps to the cap: either way the clamped value renders to
// exactly the same status line as the exact one, because the charge
// percentage is clamped to [0%, 100%] well inside those bounds.

pub open spec fn is_dec_digit(c: char) -> bool {
    '0' <= c && c <= '9'
}

pub open spec fn digit_val(c: char) -> nat
    recommends
        is_dec_digit(c),
{
    (c as int - '0' as int) as nat
}

pub open spec fn all_digits(s: Seq<char>) -> bool {
    forall|i: int| 0 <= i < s.len() ==> is_dec_digit(#[trigger] s[i])
}

/// The value of a run of decimal digits.
pub open spec fn digits_val(s: Seq<char>) -> nat
    decreases s.len(),
{
    if s.len() == 0 {
        0
    } else {
        digits_val(s.drop_last()) * 10 + digit_val(s.last())
    }
}

pub open spec fn pow10_small(k: nat) -> nat {
    if k == 0 {
        1
    } else if k == 1 {
        10
    } else if k == 2 {
        100
    } else if k == 3 {
        1000
    } else {
        10000
    }
}

/// The fractional digits scaled to tenths of a millivolt: the first four
/// count, further digits are truncated away.
pub open spec fn frac_scaled(s: Seq<char>) -> nat {
    if s.len() >= 4 {
        digits_val(s.take(4))
    } else {
        digits_val(s) * pow10_small((4 - s.len()) as nat)
    }
}

/// Split a piece of text at its first dot, if any: the part before, the part
/// after, and whether there was one.
pub open spec fn split_at_dot(s: Seq<char>) -> (Seq<char>, Seq<char>, bool)
    decreases s.len(),
{
    if s.len() == 0 {
        (Seq::<char>::empty(), Seq::<char>::empty(), false)
    } else if s[0] == '.' {
        (Seq::<char>::empty(), s.drop_first(), true)
    } else {
        let r = split_at_dot(s.drop_first());
        (seq![s[0]] + r.0, r.1, r.2)
    }
}

/// Whether text is a plain unsigned decimal number: at least one digit,
/// optionally followed by a dot and at least one more digit.
pub open spec fn voltage_digits_valid(s: Seq<char>) -> bool {
    let r = split_at_dot(s);
    r.0.len() > 0 && all_digits(r.0) && (r.2 ==> (r.1.len() > 0 && all_digits(r.1)))
}

/// One reading beyond every voltage that renders differently: the charge
/// percentage is already clamped to one hundred percent far below it.
pub open spec fn voltage_cap() -> nat {
    1000000
}

/// The fixed-point value of unsigned decimal voltage text, clamped to the cap.
pub open spec fn unsigned_voltage_val(s: Seq<char>) -> nat {
    let r = split_at_dot(s);
    let v = digits_val(r.0) * 10000 + if r.2 {
        frac_scaled(r.1)
    } else {
        0
    };
    if v > voltage_cap() {
        voltage_cap()
    } else {
        v
    }
}

/// What decimal voltage text stands for, in tenths of a millivolt, or
/// nothing when the text is not a plain decimal number.
pub open spec fn parse_voltage_spec(s: Seq<char>) -> Option<nat> {
    if s.len() > 0 && s[0] == '-' {
        if voltage_digits_valid(s.drop_first()) {
            Some(0)
        } else {
            None
        }
    } else if voltage_digits_valid(s) {
        Some(unsigned_voltage_val(s))
    } else {
        None
    }
}

/// Integer value saturated just beyond the last whole voltage that matters.
pub open spec fn sat101(v: nat) -> nat {
    if v <= 100 {
        v
    } else {
        101
    }
}

/// Where the first dot of a piece of text sits, the pieces of its split are
/// the text up to the dot and the text after it.
proof fn lemma_split_at_dot(s: Seq<char>, i: int)
    requires
        0 <= i <= s.len(),
        forall|k: int| 0 <= k < i ==> s[k] != '.',
        i < s.len() ==> s[i] == '.',
    ensures
        split_at_dot(s).0 =~= s.take(i),
        split_at_dot(s).2 == (i < s.len()),
        i < s.len() ==> split_at_dot(s).1 =~= s.skip(i + 1),
        i == s.len() ==> split_at_dot(s).1 =~= Seq::<char>::empty(),
    decreases s.len(),
{
    if s.len() == 0 {
    } else if s[0] == '.' {
        assert(i == 0);
        assert(s.drop_first() =~= s.skip(1));
    } else {
        assert(i >= 1);
        lemma_split_at_dot(s.drop_first(), i - 1);
        assert(seq![s[0]] + s.drop_first().take(i - 1) =~= s.take(i));
        if i < s.len() {
            assert(s.drop_first().skip(i) =~= s.skip(i + 1));
        }
    }
}

/// A digit run's value grows digit by digit from the left.
proof fn lemma_digits_val_step(s: Seq<char>, k: int)
    requires
        0 <= k < s.len(),
    ensures
        digits_val(s.take(k + 1)) == digits_val(s.take(k)) * 10 + digit_val(s[k]),
{
    assert(s.take(k + 1).drop_last() =~= s.take(k));
}

/// Validate a run of digits inside text and compute its value, saturated.
/// `lo` and `hi` delimit the run.
fn scan_digits(s: &str, lo: usize, hi: usize) -> (r: Option<u64>)
    requires
        lo <= hi <= s@.len(),
    ensures
        match r {
            Some(v) => all_digits(s@.subrange(lo as int, hi as int)) && v == sat101(
                digits_val(s@.subrange(lo as int, hi as int)),
            ),
            None => !all_digits(s@.subrange(lo as int, hi as int)),
        },
{
    let ghost t = s@.subrange(lo as int, hi as int);
    let mut acc: u64 = 0;
    let mut k: usize = 0;
    while k < hi - lo
        invariant
            lo <= hi <= s@.len(),
            0 <= k <= hi - lo,
            t == s@.subrange(lo as int, hi as int),
            all_digits(t.take(k as int)),
            acc == sat101(digits_val(t.take(k as int))),
        decreases hi - lo - k,
    {
        let c = s.get_char(lo + k);
        proof {
            assert(t[k as int] == s@[lo + k as int]);
        }
        if c < '0' || c > '9' {
            proof {
                assert(!is_dec_digit(t[k as int]));
            }
            return None;
        }
        let d: u64 = (c as u64) - ('0' as u64);
        proof {
            lemma_digits_val_step(t, k as int);
        }
        acc = acc * 10 + d;
        if acc > 100 {
            acc = 101;
        }
        proof {
            assert(t.take(k + 1 as int)[k as int] == t[k as int]);
            assert(all_digits(t.take(k + 1 as int)));
        }
        k = k + 1;
    }
    proof {
        assert(t.take((hi - lo) as int) =~= t);
    }
    Some(acc)
}

/// Validate the fractional digits and compute their fixed-point scaling.
fn scan_frac(s: &str, lo: usize) -> (r: Option<u64>)
    requires
        lo <= s@.len(),
    ensures
        match r {
            Some(v) => all_digits(s@.skip(lo as int)) && s@.skip(lo as int).len() > 0 && v
                == frac_scaled(s@.skip(lo as int)) && v <= 9999,
            None => !(all_digits(s@.skip(lo as int)) && s@.skip(lo as int).len() > 0),
        },
{
    let ghost f = s@.skip(lo as int);
    let n = s.unicode_len();
    if lo == n {
        return None;
    }
    let mut facc: u64 = 0;
    let mut k: usize = 0;
    while k < n - lo
        invariant
            lo < n == s@.len(),
            0 <= k <= n - lo,
            f == s@.skip(lo as int),
            f.len() == n - lo,
            all_digits(f.take(k as int)),
            facc == digits_val(f.take(if k < 4 { k as int } else { 4 })),
            facc < pow10_small(if k < 4 { k as nat } else { 4nat }),
        decreases n - lo - k,
    {
        let c = s.get_char(lo + k);
        proof {
            assert(f[k as int] == s@[lo + k as int]);
        }
        if c < '0' || c > '9' {
            proof {
                assert(!is_dec_digit(f[k as int]));
            }
            return None;
        }
        if k < 4 {
            let d: u64 = (c as u64) - ('0' as u64);
            proof {
                lemma_digits_val_step(f, k as int);
            }
            facc = facc * 10 + d;
        }
        proof {
            assert(f.take(k + 1 as int)[k as int] == f[k as int]);
            assert(all_digits(f.take(k + 1 as int)));
        }
        k = k + 1;
    }
    let fl = n - lo;
    let scaled: u64 = if fl >= 4 {
        facc
    } else if fl == 1 {
        facc * 1000
    } else if fl == 2 {
        facc * 100
    } else {
        facc * 10
    };
    proof {
        assert(f.take(f.len() as int) =~= f);
        if fl >= 4 {
            assert(facc == digits_val(f.take(4)));
        }
    }
    Some(scaled)
}

/// Parse decimal voltage text into tenths of a millivolt.
pub fn parse_voltage(s: &str) -> (r: Option<u32>)
    ensures
        match r {
            Some(v) => parse_voltage_spec(s@) == Some(v as nat),
            None => parse_voltage_spec(s@) is None,
        },
{
    let n = s.unicode_len();
    if n == 0 {
        proof {
            assert(split_at_dot(s@).0.len() == 0);
        }
        return None;
    }
    let first = s.get_char(0);
    if first == '-' {
        proof {
            assert(s@.drop_first() =~= s@.skip(1));
        }
        match scan_unsigned(s, 1) {
            Some(_) => Some(0),
            None => None,
        }
    } else {
        proof {
            assert(s@.skip(0) =~= s@);
        }
        match scan_unsigned(s, 0) {
            Some(v) => Some(v),
            None => None,
        }
    }
}

/// Parse the unsigned part of voltage text, from `lo` to the end.
fn scan_unsigned(s: &str, lo: usize) -> (r: Option<u32>)
    requires
        lo <= s@.len(),
    ensures
        match r {
            Some(v) => voltage_digits_valid(s@.skip(lo as int)) && v as nat == unsigned_voltage_val(
                s@.skip(lo as int),
            ),
            None => !voltage_digits_valid(s@.skip(lo as int)),
        },
{
    let ghost t = s@.skip(lo as int);
    let n = s.unicode_len();
    // find the first dot, if any
    let mut d: usize = lo;
    let mut seen_dot = false;
    while d < n && !seen_dot
        invariant
            lo <= d <= n == s@.len(),
            t == s@.skip(lo as int),
            forall|k: int| 0 <= k < d - lo ==> t[k] != '.',
            seen_dot ==> d < n && s@[d as int] == '.',
        decreases n - d, (if seen_dot { 0int } else { 1int }),
    {
        let c = s.get_char(d);
        if c == '.' {
            seen_dot = true;
        } else {
            proof {
                assert(t[d - lo as int] == s@[d as int]);
            }
            d = d + 1;
        }
    }
    proof {
        if d < n {
            assert(t[d - lo as int] == s@[d as int]);
        }
        lemma_split_at_dot(t, d - lo as int);
    }
    let ghost parts = split_at_dot(t);
    proof {
        assert(parts.0 == t.take(d - lo as int));
        assert(t.take(d - lo as int) =~= s@.subrange(lo as int, d as int));
    }
    if d == lo {
        // no integer digits at all
        return None;
    }
    let int_sat = match scan_digits(s, lo, d) {
        Some(v) => v,
        None => {
            return None;
        },
    };
    let has_dot = d < n;
    let frac: u64 = if has_dot {
        proof {
            assert(parts.1 == t.skip((d - lo + 1) as int));
            assert(t.skip((d - lo + 1) as int) =~= s@.skip((d + 1) as int));
        }
        match scan_frac(s, d + 1) {
            Some(v) => v,
            None => {
                return None;
            },
        }
    } else {
        0
    };
    proof {
        assert(int_sat <= 101);
    }
    let v: u64 = int_sat * 10000 + frac;
    let capped: u64 = if v > 1000000 {
        1000000
    } else {
        v
    };
    proof {
        let exact = digits_val(parts.0) * 10000 + if parts.2 {
            frac_scaled(parts.1)
        } else {
            0nat
        };
        if digits_val(parts.0) <= 100 {
            assert(int_sat == digits_val(parts.0));
        } else {
            assert(int_sat == 101);
            assert(exact >= 101 * 10000);
        }
    }
    Some(capped as u32)
}

} // verus!
