use vstd::prelude::*;
use vstd::arithmetic::div_mod::lemma_div_is_ordered;

verus! {

// A flap is powered by a pack of four batteries. The measured pack voltage is
// held in tenths of a millivolt, so 56175 stands for 5.6175 V. Per battery,
// 1.2 V is empty and 1.6 V is full; the charge percentage interpolates
// linearly between the two and is clamped to [0, 100].
//
// In tenth-millivolt units the exact percentage is (5 * dmv - 240000) / 8000,
// so eight times the percentage in hundredths of a percent is 5 * dmv - 240000.

/// Eight times the battery percentage in hundredths of a percent, clamped to
/// the [0%, 100%] band.
pub open spec fn battery_scaled8(dmv: nat) -> int {
    let raw8 = 5 * dmv - 240000;
    if raw8 < 0 {
        0
    } else if raw8 > 80000 {
        80000
    } else {
        raw8
    }
}

/// The battery percentage in hundredths of a percent, rounded to the nearest
/// hundredth (half away from zero), clamped to [0, 10000].
pub open spec fn battery_centi_spec(dmv: nat) -> nat {
    ((battery_scaled8(dmv) + 4) / 8) as nat
}

/// Whether the exact (unrounded) percentage is at most ten percent: the
/// threshold below which the low-battery glyph is shown.
pub open spec fn battery_low_spec(dmv: nat) -> bool {
    5 * dmv <= 248000
}

/// The remaining battery charge, in hundredths of a percent.
pub fn battery_percent_centi(dmv: u32) -> (r: u64)
    ensures
        r == battery_centi_spec(dmv as nat),
        r <= 10000,
{
    let v: u64 = dmv as u64;
    if v <= 48000 {
        0
    } else if v >= 64000 {
        10000
    } else {
        (5 * v - 240000 + 4) / 8
    }
}

/// Whether the battery is low: the exact percentage is at most ten percent.
pub fn battery_is_low(dmv: u32) -> (r: bool)
    ensures
        r == battery_low_spec(dmv as nat),
{
    5 * (dmv as u64) <= 248000
}

/// The percentage never leaves [0%, 100%], whatever the measured voltage.
pub proof fn lemma_battery_percent_clamped(dmv: nat)
    ensures
        0 <= battery_centi_spec(dmv) <= 10000,
{
    lemma_div_is_ordered(battery_scaled8(dmv) + 4, 80004, 8);
}

/// The percentage is monotonic in the measured voltage.
pub proof fn lemma_battery_percent_monotonic(a: nat, b: nat)
    requires
        a <= b,
    ensures
        battery_centi_spec(a) <= battery_centi_spec(b),
{
    lemma_div_is_ordered(battery_scaled8(a) + 4, battery_scaled8(b) + 4, 8);
}

/// A full pack (1.6 V per battery) reads one hundred percent, an empty one
/// (1.2 V per battery) zero, and the percentage of any pack in between falls
/// in between.
pub proof fn lemma_battery_percent_endpoints(dmv: nat)
    requires
        48000 <= dmv <= 64000,
    ensures
        battery_centi_spec(48000) == 0,
        battery_centi_spec(64000) == 10000,
        battery_centi_spec(dmv) <= 10000,
{
    lemma_battery_percent_clamped(dmv);
}

} // verus!
