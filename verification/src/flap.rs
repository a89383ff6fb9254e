use vstd::prelude::*;
use crate::battery::{
    battery_centi_spec, battery_is_low, battery_low_spec, battery_percent_centi,
};
use crate::numfmt::{percent_str, percent_to_dec};
use crate::shared::{disconnected_line, Information};

verus! {

/// The door pets use to go in and out. The pack voltage is measured in
/// tenths of a millivolt, so 56175 stands for 5.6175 V.
#[derive(Debug, PartialEq)]
pub struct Flap {
    pub name: String,
    pub online: bool,
    pub battery_voltage: u32,
}

/// The mathematical content of a flap.
pub ghost struct FlapView {
    pub name: Seq<char>,
    pub online: bool,
    pub battery_voltage: u32,
}

impl View for Flap {
    type V = FlapView;

    open spec fn view(&self) -> FlapView {
        FlapView {
            name: self.name@,
            online: self.online,
            battery_voltage: self.battery_voltage,
        }
    }
}

/// The status line of a flap: offline flaps are disconnected whatever their
/// battery reads; online flaps show their charge, with the low-battery glyph
/// exactly when the charge is at most ten percent.
pub open spec fn flap_line_spec(f: FlapView) -> Seq<char> {
    if !f.online {
        disconnected_line(f.name)
    } else {
        let glyph = if battery_low_spec(f.battery_voltage as nat) {
            "\u{1faab} "@
        } else {
            "\u{2705} "@
        };
        glyph + f.name + " is online (battery: "@ + percent_str(battery_centi_spec(f.battery_voltage as nat))
            + "%)"@
    }
}

impl Information for Flap {
    open spec fn info_spec(&self) -> Seq<char> {
        flap_line_spec(self@)
    }

    /// Summary of a flap, for example `✅ Flap is online (battery: 51.09%)`.
    fn information(&self) -> (r: String) {
        let mut out = String::new();
        if self.online {
            if battery_is_low(self.battery_voltage) {
                out.append("\u{1faab} ");
            } else {
                out.append("\u{2705} ");
            }
            out.append(self.name.as_str());
            out.append(" is online (battery: ");
            let centi = battery_percent_centi(self.battery_voltage);
            let pct = percent_to_dec(centi);
            out.append(pct.as_str());
            out.append("%)");
        } else {
            out.append("\u{274c} ");
            out.append(self.name.as_str());
            out.append(" is disconnected");
        }
        proof {
            assert(out@ =~= flap_line_spec(self@));
        }
        out
    }
}

/// An online flap shows the low-battery glyph exactly when its computed
/// charge is at most ten percent; an offline flap always shows the
/// disconnected line, whatever its battery reads.
pub proof fn lemma_flap_glyph(f: FlapView)
    ensures
        f.online ==> (flap_line_spec(f).first() == '\u{1faab}' <==> battery_low_spec(
            f.battery_voltage as nat,
        )),
        f.online ==> (flap_line_spec(f).first() == '\u{2705}' <==> !battery_low_spec(
            f.battery_voltage as nat,
        )),
        !f.online ==> flap_line_spec(f) == disconnected_line(f.name),
{
    reveal_strlit("\u{1faab} ");
    reveal_strlit("\u{2705} ");
}

} // verus!
