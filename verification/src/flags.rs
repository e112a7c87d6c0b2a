//! Installation options forwarded to the daemon. The five options are
//! independent booleans; none excludes another.

use vstd::prelude::*;

verus! {

/// Controls the behavior of the install method.
#[derive(Clone, Copy, Debug, PartialEq, Eq, Structural)]
pub struct InstallFlags {
    /// Schedule the update for the next reboot instead of applying it live.
    pub offline: bool,
    /// Allow reinstalling the already-installed version.
    pub allow_reinstall: bool,
    /// Allow installing a version older than the current one.
    pub allow_older: bool,
    /// Force the installation past the daemon's safety checks.
    pub force: bool,
    /// Do not record the update in the daemon's history.
    pub no_history: bool,
}

impl InstallFlags {
    /// The empty set: no option requested.
    pub fn empty() -> (r: InstallFlags)
        ensures
            !r.offline,
            !r.allow_reinstall,
            !r.allow_older,
            !r.force,
            !r.no_history,
    {
        InstallFlags {
            offline: false,
            allow_reinstall: false,
            allow_older: false,
            force: false,
            no_history: false,
        }
    }
}

/// The flags actually sent for a device: a device constrained to offline
/// installation has the offline option forced on, whatever the caller
/// passed; every other option is forwarded unchanged.
pub open spec fn spec_effective_flags(flags: InstallFlags, only_offline: bool) -> InstallFlags {
    InstallFlags { offline: flags.offline || only_offline, ..flags }
}

/// Applies the device's offline-only constraint to caller-supplied flags.
pub fn effective_flags(flags: InstallFlags, only_offline: bool) -> (r: InstallFlags)
    ensures
        r == spec_effective_flags(flags, only_offline),
        only_offline ==> r.offline,
{
    InstallFlags { offline: flags.offline || only_offline, ..flags }
}

} // verus!
