use vstd::prelude::*;
use crate::shared::{disconnected_line, Information};

verus! {

/// The hub, responsible for collecting information from the other devices.
#[derive(Debug, PartialEq)]
pub struct Hub {
    pub name: String,
    pub online: bool,
}

/// The mathematical content of a hub: its name and whether it is reachable.
pub ghost struct HubView {
    pub name: Seq<char>,
    pub online: bool,
}

impl View for Hub {
    type V = HubView;

    open spec fn view(&self) -> HubView {
        HubView { name: self.name@, online: self.online }
    }
}

/// The status line of a hub.
pub open spec fn hub_line_spec(h: HubView) -> Seq<char> {
    if h.online {
        "\u{2705} "@ + h.name + " is online"@
    } else {
        disconnected_line(h.name)
    }
}

impl Information for Hub {
    open spec fn info_spec(&self) -> Seq<char> {
        hub_line_spec(self@)
    }

    /// Summary of the hub, for example `✅ Hub is online`.
    fn information(&self) -> (r: String) {
        let mut out = String::new();
        if self.online {
            out.append("\u{2705} ");
            out.append(self.name.as_str());
            out.append(" is online");
        } else {
            out.append("\u{274c} ");
            out.append(self.name.as_str());
            out.append(" is disconnected");
        }
        proof {
            assert(out@ =~= hub_line_spec(self@));
        }
        out
    }
}

} // verus!
