//! Selection of host input devices and control of their kernel "inhibited"
//! attribute.
//!
//! The crate holds the decisions of an input-device inhibitor: which devices a
//! filter selects, that a mutating command acts on exactly one device, where
//! the attribute file of a device lies, and which bytes are read from and
//! written to that file. It performs no I/O itself. A driver enumerates the
//! devices, hands them over as plain [`device::Device`] records, and carries
//! out the steps that a [`inhibit::Transaction`] asks for.

pub mod command;
pub mod device;
pub mod error;
pub mod filter;
pub mod hex;
pub mod inhibit;
pub mod select;
pub mod sysfs;
