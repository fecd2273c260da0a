//! The filter predicate: which devices a set of optional criteria selects.

use vstd::prelude::*;
use crate::device::{Device, DeviceView};

verus! {

/// Optional criteria for selecting devices. An absent criterion constrains
/// nothing; a present one has to equal the device's value exactly.
#[derive(Clone, Debug, PartialEq, Eq)]
pub struct FilterArgs {
    /// The vendor ID of the device.
    pub vid: Option<u16>,
    /// The product ID of the device.
    pub pid: Option<u16>,
    /// The name of the device.
    pub name: Option<String>,
}

/// What a [`FilterArgs`] holds, as mathematical values.
pub struct FilterView {
    pub vid: Option<u16>,
    pub pid: Option<u16>,
    pub name: Option<Seq<char>>,
}

impl View for FilterArgs {
    type V = FilterView;

    open spec fn view(&self) -> FilterView {
        FilterView {
            vid: self.vid,
            pid: self.pid,
            name: match self.name {
                Some(name) => Some(name@),
                None => None,
            },
        }
    }
}

impl FilterView {
    /// Whether no criterion is present.
    pub open spec fn is_empty(self) -> bool {
        self.vid is None && self.pid is None && self.name is None
    }

    /// Whether the filter selects `device`: every criterion that is present
    /// equals the device's value. Names are compared character by character,
    /// case included, and a device without a name has no name to equal.
    pub open spec fn matches(self, device: DeviceView) -> bool {
        &&& self.name matches Some(name) ==> device.name == Some(name)
        &&& self.vid matches Some(vid) ==> vid == device.vendor_id
        &&& self.pid matches Some(pid) ==> pid == device.product_id
    }
}

/// The devices among `devices` that `filter` selects, in their order.
pub open spec fn matching(filter: FilterView, devices: Seq<Device>) -> Seq<Device> {
    devices.filter(|device: Device| filter.matches(device@))
}

/// The devices that a sequence of references points to.
pub open spec fn referents(references: Seq<&Device>) -> Seq<Device> {
    references.map_values(|device: &Device| *device)
}

impl FilterArgs {
    /// Whether the filter selects `device`.
    pub fn matches(&self, device: &Device) -> (selected: bool)
        ensures
            selected == self@.matches(device@),
    {
        let name_fits = match &self.name {
            None => true,
            Some(wanted) => match &device.name {
                Some(name) => *wanted == *name,
                None => false,
            },
        };
        let vendor_fits = match self.vid {
            None => true,
            Some(vid) => vid == device.vendor_id,
        };
        let product_fits = match self.pid {
            None => true,
            Some(pid) => pid == device.product_id,
        };
        name_fits && vendor_fits && product_fits
    }
}

/// Applies `filter` to the devices of one enumeration and returns those it
/// selects, in the order of the enumeration. The result may be empty.
pub fn enumerate_with_filter<'a>(filter: &FilterArgs, devices: &'a Vec<Device>) -> (selected: Vec<
    &'a Device,
>)
    ensures
        referents(selected@) == matching(filter@, devices@),
{
    let mut selected: Vec<&'a Device> = Vec::new();
    let mut index: usize = 0;
    proof {
        reveal(Seq::filter);
    }
    while index < devices.len()
        invariant
            index <= devices.len(),
            referents(selected@) == matching(filter@, devices@.take(index as int)),
        decreases devices.len() - index,
    {
        let device = &devices[index];
        if filter.matches(device) {
            selected.push(device);
        }
        proof {
            let seen = devices@.take(index as int + 1);
            reveal(Seq::filter);
            assert(seen.drop_last() =~= devices@.take(index as int));
        }
        index += 1;
    }
    proof {
        assert(devices@.take(index as int) =~= devices@);
    }
    selected
}

/// A filter without criteria selects every device.
pub proof fn lemma_empty_filter_matches_every_device(filter: FilterView, device: DeviceView)
    requires
        filter.is_empty(),
    ensures
        filter.matches(device),
{
}

/// A filter without criteria is the identity on a list of devices.
pub proof fn lemma_empty_filter_keeps_every_device(filter: FilterView, devices: Seq<Device>)
    requires
        filter.is_empty(),
    ensures
        matching(filter, devices) == devices,
    decreases devices.len(),
{
    reveal(Seq::filter);
    if devices.len() > 0 {
        lemma_empty_filter_keeps_every_device(filter, devices.drop_last());
    }
}

} // verus!
