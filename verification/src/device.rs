//! Input devices as the enumeration reports them.

use vstd::prelude::*;

verus! {

/// One input device of the host: where its device node lies, and the identity
/// that its driver reports. A record is made for each enumeration and never
/// changes afterwards.
#[derive(Clone, Debug, PartialEq, Eq)]
pub struct Device {
    /// The path of the device node, as the enumeration gave it.
    pub enumeration_path: String,
    /// The name of the device, absent when the driver reports none.
    pub name: Option<String>,
    /// The vendor ID.
    pub vendor_id: u16,
    /// The product ID.
    pub product_id: u16,
}

/// What a [`Device`] holds, as mathematical values.
pub struct DeviceView {
    pub enumeration_path: Seq<char>,
    pub name: Option<Seq<char>>,
    pub vendor_id: u16,
    pub product_id: u16,
}

impl View for Device {
    type V = DeviceView;

    open spec fn view(&self) -> DeviceView {
        DeviceView {
            enumeration_path: self.enumeration_path@,
            name: match self.name {
                Some(name) => Some(name@),
                None => None,
            },
            vendor_id: self.vendor_id,
            product_id: self.product_id,
        }
    }
}

} // verus!
