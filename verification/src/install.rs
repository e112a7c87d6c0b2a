//! Assembly of the daemon-facing installation request: the target device,
//! a reason string, the firmware path, and the named options derived from
//! the caller's flags and the device's offline-only constraint.
//!
//! Opening the firmware file and passing its handle over the bus is the
//! embedding application's work; the request here carries everything that
//! call needs as plain values.

use vstd::prelude::*;
use crate::bytes::copy_bytes;
use crate::device::Device;
use crate::flags::{effective_flags, spec_effective_flags, InstallFlags};

verus! {

/// Everything an installation call carries besides the open file handle:
/// the target identity, the reason, the payload path, and the named
/// options. A recognized flag maps to exactly one named option; absent
/// flags are omitted, never sent as `false`.
#[derive(Debug, PartialEq)]
pub struct InstallRequest {
    /// The target device's identity.
    pub device_id: String,
    /// The human-readable reason recorded with the update.
    pub reason: String,
    /// The path of the firmware payload the handle is opened from,
    /// carried as bytes. The bus call itself needs it as text: paths are
    /// assumed validated, and handing over one that is not UTF-8 is a
    /// programming error at that edge, not a runtime failure of this
    /// library.
    pub filename: Vec<u8>,
    /// The named boolean options, one per set flag.
    pub options: Vec<(String, bool)>,
}

/// The named options a flag set expands to, in a fixed order. Each set
/// flag contributes exactly one `(name, true)` pair; a clear flag
/// contributes nothing.
pub open spec fn spec_flag_options(f: InstallFlags) -> Seq<(Seq<char>, bool)> {
    let s = Seq::<(Seq<char>, bool)>::empty();
    let s = if f.offline {
        s.push(("offline"@, true))
    } else {
        s
    };
    let s = if f.allow_older {
        s.push(("allow-older"@, true))
    } else {
        s
    };
    let s = if f.allow_reinstall {
        s.push(("allow-reinstall"@, true))
    } else {
        s
    };
    let s = if f.force {
        s.push(("force"@, true))
    } else {
        s
    };
    if f.no_history {
        s.push(("no-history"@, true))
    } else {
        s
    }
}

/// Whether an option list holds exactly the given `(name, value)` pairs.
pub open spec fn options_match(v: Seq<(String, bool)>, s: Seq<(Seq<char>, bool)>) -> bool {
    v.len() == s.len() && forall|k: int|
        0 <= k < v.len() ==> (#[trigger] v[k]).0@ == s[k].0 && v[k].1 == s[k].1
}

/// Expands a flag set into its named options.
pub fn flag_options(flags: InstallFlags) -> (r: Vec<(String, bool)>)
    ensures
        options_match(r@, spec_flag_options(flags)),
{
    let mut opts: Vec<(String, bool)> = Vec::new();
    let ghost s0 = Seq::<(Seq<char>, bool)>::empty();
    if flags.offline {
        opts.push((String::from_str("offline"), true));
    }
    let ghost s1 = if flags.offline {
        s0.push(("offline"@, true))
    } else {
        s0
    };
    assert(options_match(opts@, s1));
    if flags.allow_older {
        opts.push((String::from_str("allow-older"), true));
    }
    let ghost s2 = if flags.allow_older {
        s1.push(("allow-older"@, true))
    } else {
        s1
    };
    assert(options_match(opts@, s2));
    if flags.allow_reinstall {
        opts.push((String::from_str("allow-reinstall"), true));
    }
    let ghost s3 = if flags.allow_reinstall {
        s2.push(("allow-reinstall"@, true))
    } else {
        s2
    };
    assert(options_match(opts@, s3));
    if flags.force {
        opts.push((String::from_str("force"), true));
    }
    let ghost s4 = if flags.force {
        s3.push(("force"@, true))
    } else {
        s3
    };
    assert(options_match(opts@, s4));
    if flags.no_history {
        opts.push((String::from_str("no-history"), true));
    }
    let ghost s5 = if flags.no_history {
        s4.push(("no-history"@, true))
    } else {
        s4
    };
    assert(options_match(opts@, s5));
    assert(s5 == spec_flag_options(flags));
    opts
}

/// Builds the installation request for a given flag set, as it will go
/// out on the bus.
pub fn install_request(device_id: &String, reason: &str, filename: &Vec<u8>, flags: InstallFlags) -> (r:
    InstallRequest)
    ensures
        r.device_id@ == device_id@,
        r.reason@ == reason@,
        r.filename@ == filename@,
        options_match(r.options@, spec_flag_options(flags)),
{
    InstallRequest {
        device_id: device_id.clone(),
        reason: String::from_str(reason),
        filename: copy_bytes(filename),
        options: flag_options(flags),
    }
}

/// Installing to a device that only accepts offline installation always
/// puts the offline option into the outgoing request, even when the
/// caller's flags do not carry it.
pub proof fn lemma_offline_forced(flags: InstallFlags)
    ensures
        spec_flag_options(spec_effective_flags(flags, true)).len() > 0,
        spec_flag_options(spec_effective_flags(flags, true))[0] == ("offline"@, true),
{
}

/// Builds the installation request for a device, applying its
/// offline-only constraint to the caller's flags first.
pub fn install_request_for_device(
    device: &Device,
    reason: &str,
    filename: &Vec<u8>,
    flags: InstallFlags,
) -> (r: InstallRequest)
    ensures
        r.device_id@ == device.device_id@,
        r.reason@ == reason@,
        r.filename@ == filename@,
        options_match(r.options@, spec_flag_options(spec_effective_flags(flags, device.only_offline))),
        device.only_offline ==> r.options@.len() > 0 && r.options@[0].0@ == "offline"@
            && r.options@[0].1,
{
    let sent = effective_flags(flags, device.only_offline);
    let r = install_request(&device.device_id, reason, filename, sent);
    proof {
        if device.only_offline {
            lemma_offline_forced(flags);
        }
    }
    r
}

} // verus!
