use vstd::prelude::*;
use crate::flap::{flap_line_spec, Flap, FlapView};
use crate::hub::{hub_line_spec, Hub, HubView};
use crate::shared::Information;

verus! {

/// A device known to the hub-side API: either the hub itself or a flap,
/// discriminated on the wire by its product id (1 is a hub, 3 is a flap;
/// everything else is an unknown category and aborts decoding).
#[derive(Debug, PartialEq)]
pub enum Device {
    Hub(Hub),
    Flap(Flap),
}

/// The mathematical content of a device.
pub ghost enum DeviceView {
    Hub(HubView),
    Flap(FlapView),
}

impl View for Device {
    type V = DeviceView;

    open spec fn view(&self) -> DeviceView {
        match self {
            Device::Hub(h) => DeviceView::Hub(h@),
            Device::Flap(f) => DeviceView::Flap(f@),
        }
    }
}

/// The status line of a device, whichever kind it is.
pub open spec fn device_line_spec(d: DeviceView) -> Seq<char> {
    match d {
        DeviceView::Hub(h) => hub_line_spec(h),
        DeviceView::Flap(f) => flap_line_spec(f),
    }
}

impl Information for Device {
    open spec fn info_spec(&self) -> Seq<char> {
        device_line_spec(self@)
    }

    /// Summary of the device, rendered by its kind.
    fn information(&self) -> (r: String) {
        match self {
            Device::Hub(h) => h.information(),
            Device::Flap(f) => f.information(),
        }
    }
}

/// Render one status line per device, in the order the devices were decoded.
pub fn render_devices(devices: &Vec<Device>) -> (r: Vec<String>)
    ensures
        r@.len() == devices@.len(),
        forall|i: int|
            0 <= i < devices@.len() ==> r@[i]@ == device_line_spec(devices@[i]@),
{
    let mut lines: Vec<String> = Vec::new();
    let n = devices.len();
    for k in 0..n
        invariant
            n == devices@.len(),
            lines@.len() == k,
            forall|i: int| 0 <= i < k ==> lines@[i]@ == device_line_spec(devices@[i]@),
    {
        lines.push(devices[k].information());
    }
    lines
}

} // verus!
