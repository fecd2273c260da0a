//! The device selector: a mutating command acts on exactly one device.

use vstd::prelude::*;
use crate::device::Device;
use crate::error::InhibitError;
use crate::filter::{enumerate_with_filter, matching, FilterArgs, FilterView};

verus! {

/// What the selector answers for `filter` over `devices`: the one device that
/// the filter selects, or the reason why there is no such device.
pub open spec fn selection(filter: FilterView, devices: Seq<Device>) -> Result<
    Device,
    InhibitError,
> {
    let candidates = matching(filter, devices);
    if candidates.len() == 0 {
        Err(InhibitError::NoMatchingDevice)
    } else if candidates.len() == 1 {
        Ok(candidates[0])
    } else {
        Err(InhibitError::AmbiguousMatch)
    }
}

/// Selects the single device that `filter` matches among `devices`.
///
/// With no match the result is `NoMatchingDevice`. With two or more it is
/// `AmbiguousMatch`: the selector never picks one of several candidates, so
/// that no command touches a device that was not meant.
pub fn select_one<'a>(filter: &FilterArgs, devices: &'a Vec<Device>) -> (selected: Result<
    &'a Device,
    InhibitError,
>)
    ensures
        match selected {
            Ok(device) => selection(filter@, devices@) == Ok::<Device, InhibitError>(*device),
            Err(error) => selection(filter@, devices@) == Err::<Device, InhibitError>(error),
        },
{
    let candidates = enumerate_with_filter(filter, devices);
    if candidates.len() == 0 {
        Err(InhibitError::NoMatchingDevice)
    } else if candidates.len() == 1 {
        Ok(candidates[0])
    } else {
        Err(InhibitError::AmbiguousMatch)
    }
}

/// Where no device matches, the selector answers `NoMatchingDevice`.
pub proof fn lemma_no_match_selects_none(filter: FilterView, devices: Seq<Device>)
    requires
        forall|i: int| 0 <= i < devices.len() ==> !filter.matches(#[trigger] devices[i]@),
    ensures
        matching(filter, devices).len() == 0,
        selection(filter, devices) == Err::<Device, InhibitError>(InhibitError::NoMatchingDevice),
    decreases devices.len(),
{
    reveal(Seq::filter);
    if devices.len() > 0 {
        lemma_no_match_selects_none(filter, devices.drop_last());
    }
}

/// Where some device matches, the filter keeps at least one.
proof fn lemma_a_match_is_kept(filter: FilterView, devices: Seq<Device>, at: int)
    requires
        0 <= at < devices.len(),
        filter.matches(devices[at]@),
    ensures
        matching(filter, devices).len() >= 1,
    decreases devices.len(),
{
    reveal(Seq::filter);
    if at < devices.len() - 1 {
        lemma_a_match_is_kept(filter, devices.drop_last(), at);
    }
}

/// Where one device matches and no other does, the selector answers with that
/// device.
pub proof fn lemma_single_match_is_selected(filter: FilterView, devices: Seq<Device>, at: int)
    requires
        0 <= at < devices.len(),
        filter.matches(devices[at]@),
        forall|i: int|
            0 <= i < devices.len() && i != at ==> !filter.matches(#[trigger] devices[i]@),
    ensures
        matching(filter, devices) == seq![devices[at]],
        selection(filter, devices) == Ok::<Device, InhibitError>(devices[at]),
    decreases devices.len(),
{
    reveal(Seq::filter);
    if at == devices.len() - 1 {
        lemma_no_match_selects_none(filter, devices.drop_last());
    } else {
        lemma_single_match_is_selected(filter, devices.drop_last(), at);
    }
}

/// Where two devices match, the selector answers `AmbiguousMatch`, however
/// many others match or do not.
pub proof fn lemma_two_matches_are_ambiguous(
    filter: FilterView,
    devices: Seq<Device>,
    first: int,
    second: int,
)
    requires
        0 <= first < second < devices.len(),
        filter.matches(devices[first]@),
        filter.matches(devices[second]@),
    ensures
        matching(filter, devices).len() >= 2,
        selection(filter, devices) == Err::<Device, InhibitError>(InhibitError::AmbiguousMatch),
    decreases devices.len(),
{
    reveal(Seq::filter);
    if second == devices.len() - 1 {
        lemma_a_match_is_kept(filter, devices.drop_last(), first);
    } else {
        lemma_two_matches_are_ambiguous(filter, devices.drop_last(), first, second);
    }
}

} // verus!
