//! A firmware-updatable endpoint as the daemon reports it. The record is
//! read-only here: the daemon owns and mutates it.

use vstd::prelude::*;

verus! {

/// A device that firmware can be installed to.
#[derive(Debug, PartialEq)]
pub struct Device {
    /// The device's stable identity, quoted back to the daemon in calls.
    pub device_id: String,
    /// The device's display name.
    pub name: String,
    /// Whether the device accepts only offline (reboot-required)
    /// installation.
    pub only_offline: bool,
}

} // verus!
