//! The commands: listing the devices that a filter selects, and enabling,
//! disabling or toggling the one device that a filter selects.
//!
//! Running a command here decides what is to be done and does none of it:
//! the devices come in as a list, and what goes out is a plan for the caller
//! to print or to carry out on the attribute file.

use vstd::prelude::*;
use crate::device::Device;
use crate::error::InhibitError;
use crate::filter::{enumerate_with_filter, matching, referents, FilterArgs, FilterView};
use crate::inhibit::{first_step, InhibitAction, Transaction};
use crate::select::{select_one, selection};
use crate::sysfs::{device_dir, device_dir_of, inhibit_path, inhibit_path_of, node_name_of};

verus! {

/// Lists the devices that a filter selects.
#[derive(Clone, Debug, PartialEq, Eq)]
pub struct ListCommand {
    /// Which devices to list.
    pub filter: FilterArgs,
}

/// Carries out an action on the one device that a filter selects.
#[derive(Clone, Debug, PartialEq, Eq)]
pub struct InhibitCommand {
    /// What to do to the device.
    pub action: InhibitAction,
    /// Which device to act on: the filter has to select exactly one.
    pub filter: FilterArgs,
}

/// The commands of the tool.
#[derive(Clone, Debug, PartialEq, Eq)]
pub enum Commands {
    /// List the devices that the filter selects.
    List(ListCommand),
    /// Make the one device that the filter selects active.
    Enable(FilterArgs),
    /// Inhibit the one device that the filter selects.
    Disable(FilterArgs),
    /// Flip the one device that the filter selects between active and
    /// inhibited.
    Toggle(FilterArgs),
}

/// One device of a listing, and where its directory in sysfs lies if its path
/// names a device node.
#[derive(Debug, PartialEq, Eq)]
pub struct ListEntry<'a> {
    /// The device.
    pub device: &'a Device,
    /// The directory of the device in sysfs, by the name of its node.
    pub device_dir: Option<String>,
}

/// What a mutating command is about to do: the device it acts on, the
/// attribute file of that device, and the transaction to drive against that
/// file, at its first step.
#[derive(Debug, PartialEq, Eq)]
pub struct InhibitPlan<'a> {
    /// The device that was selected.
    pub device: &'a Device,
    /// The attribute file of that device.
    pub inhibit_path: String,
    /// The steps to perform on that file, and what has come of them.
    pub transaction: Transaction,
}

/// What a command asks its caller to do.
#[derive(Debug, PartialEq, Eq)]
pub enum Plan<'a> {
    /// Print these devices.
    List(Vec<ListEntry<'a>>),
    /// Carry out this transaction on this attribute file.
    Inhibit(InhibitPlan<'a>),
}

impl<'a> ListEntry<'a> {
    /// Whether the entry is the one for `device`.
    pub open spec fn describes(self, device: Device) -> bool {
        &&& *self.device == device
        &&& device_dir_of(device.enumeration_path@) == match self.device_dir {
            Some(dir) => Some(dir@),
            None => None,
        }
    }
}

/// Whether `entries` is the listing of `devices` under `filter`: one entry for
/// each device that the filter selects, in the order of the devices.
pub open spec fn is_listing(entries: Seq<ListEntry>, filter: FilterView, devices: Seq<Device>) -> bool {
    &&& entries.len() == matching(filter, devices).len()
    &&& forall|i: int|
        0 <= i < entries.len() ==> (#[trigger] entries[i]).describes(matching(filter, devices)[i])
}

/// The device that a mutating command acts on, or why it acts on none: the
/// answer of the selector, and `OperationFailed` where the path of the
/// selected device names no node, so that it has no attribute file.
pub open spec fn target(filter: FilterView, devices: Seq<Device>) -> Result<Device, InhibitError> {
    match selection(filter, devices) {
        Ok(device) => if node_name_of(device.enumeration_path@) is Some {
            Ok(device)
        } else {
            Err(InhibitError::OperationFailed)
        },
        Err(error) => Err(error),
    }
}

impl<'a> InhibitPlan<'a> {
    /// Whether the plan is the one for carrying out `action` on `device`.
    pub open spec fn plans(self, action: InhibitAction, device: Device) -> bool {
        &&& *self.device == device
        &&& inhibit_path_of(device.enumeration_path@) == Some(self.inhibit_path@)
        &&& self.transaction.spec_action() == action
        &&& self.transaction.spec_pending() == first_step(action)
    }
}

/// Whether `planned` is what a mutating command with `action` and `filter`
/// answers over `devices`.
pub open spec fn is_inhibit_plan(
    planned: Result<InhibitPlan, InhibitError>,
    action: InhibitAction,
    filter: FilterView,
    devices: Seq<Device>,
) -> bool {
    match planned {
        Ok(plan) => target(filter, devices) == Ok::<Device, InhibitError>(*plan.device)
            && plan.plans(action, *plan.device),
        Err(error) => target(filter, devices) == Err::<Device, InhibitError>(error),
    }
}

impl ListCommand {
    /// Lists the devices that the filter selects among `devices`, each with
    /// its directory in sysfs. Any number of devices may be listed, none
    /// included.
    pub fn run<'a>(&self, devices: &'a Vec<Device>) -> (entries: Vec<ListEntry<'a>>)
        ensures
            is_listing(entries@, self.filter@, devices@),
    {
        let selected = enumerate_with_filter(&self.filter, devices);
        let mut entries: Vec<ListEntry<'a>> = Vec::new();
        let mut index: usize = 0;
        while index < selected.len()
            invariant
                index <= selected.len(),
                entries.len() == index,
                referents(selected@) == matching(self.filter@, devices@),
                forall|i: int|
                    0 <= i < index ==> (#[trigger] entries[i]).describes(*selected[i]),
            decreases selected.len() - index,
        {
            let device = selected[index];
            let entry = ListEntry {
                device,
                device_dir: device_dir(device.enumeration_path.as_str()),
            };
            entries.push(entry);
            index += 1;
        }
        proof {
            assert forall|i: int| 0 <= i < entries.len() implies (#[trigger] entries[i]).describes(
                matching(self.filter@, devices@)[i],
            ) by {
            }
        }
        entries
    }
}

impl InhibitCommand {
    /// Selects the one device that the filter matches among `devices`,
    /// resolves its attribute file and starts the transaction for the action.
    ///
    /// Without a match the command fails with `NoMatchingDevice`, and with
    /// more than one with `AmbiguousMatch`: then there is no plan, and so
    /// nothing that could open or write a file.
    pub fn run<'a>(&self, devices: &'a Vec<Device>) -> (planned: Result<
        InhibitPlan<'a>,
        InhibitError,
    >)
        ensures
            is_inhibit_plan(planned, self.action, self.filter@, devices@),
    {
        match select_one(&self.filter, devices) {
            Ok(device) => match inhibit_path(device.enumeration_path.as_str()) {
                Some(attribute) => Ok(
                    InhibitPlan {
                        device,
                        inhibit_path: attribute,
                        transaction: Transaction::begin(self.action),
                    },
                ),
                None => Err(InhibitError::OperationFailed),
            },
            Err(error) => Err(error),
        }
    }
}

impl Commands {
    /// The action of a mutating command; a listing has none.
    pub open spec fn spec_action(self) -> Option<InhibitAction> {
        match self {
            Commands::List(_) => None,
            Commands::Enable(_) => Some(InhibitAction::Enable),
            Commands::Disable(_) => Some(InhibitAction::Disable),
            Commands::Toggle(_) => Some(InhibitAction::Toggle),
        }
    }

    /// The filter of the command.
    pub open spec fn spec_filter(self) -> FilterArgs {
        match self {
            Commands::List(command) => command.filter,
            Commands::Enable(filter) => filter,
            Commands::Disable(filter) => filter,
            Commands::Toggle(filter) => filter,
        }
    }

    /// Runs the command over the devices of one enumeration.
    ///
    /// A listing always succeeds. A mutating command gives the plan for its
    /// action on the one device that its filter selects, or fails as
    /// [`InhibitCommand::run`] does.
    pub fn run<'a>(self, devices: &'a Vec<Device>) -> (planned: Result<Plan<'a>, InhibitError>)
        ensures
            match self.spec_action() {
                None => planned matches Ok(Plan::List(entries)) && is_listing(
                    entries@,
                    self.spec_filter()@,
                    devices@,
                ),
                Some(action) => match planned {
                    Ok(Plan::Inhibit(plan)) => is_inhibit_plan(
                        Ok(plan),
                        action,
                        self.spec_filter()@,
                        devices@,
                    ),
                    Ok(Plan::List(_)) => false,
                    Err(error) => is_inhibit_plan(
                        Err(error),
                        action,
                        self.spec_filter()@,
                        devices@,
                    ),
                },
            },
    {
        match self {
            Commands::List(list_command) => Ok(Plan::List(list_command.run(devices))),
            Commands::Enable(filter) => Self::inhibit(InhibitAction::Enable, filter, devices),
            Commands::Disable(filter) => Self::inhibit(InhibitAction::Disable, filter, devices),
            Commands::Toggle(filter) => Self::inhibit(InhibitAction::Toggle, filter, devices),
        }
    }

    fn inhibit<'a>(action: InhibitAction, filter: FilterArgs, devices: &'a Vec<Device>) -> (planned:
        Result<Plan<'a>, InhibitError>)
        ensures
            match planned {
                Ok(Plan::Inhibit(plan)) => is_inhibit_plan(Ok(plan), action, filter@, devices@),
                Ok(Plan::List(_)) => false,
                Err(error) => is_inhibit_plan(Err(error), action, filter@, devices@),
            },
    {
        match (InhibitCommand { action, filter }).run(devices) {
            Ok(plan) => Ok(Plan::Inhibit(plan)),
            Err(error) => Err(error),
        }
    }
}

} // verus!
