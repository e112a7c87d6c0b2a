//! The daemon's coarse activity state, decoded from a small integer
//! property.

use vstd::prelude::*;

verus! {

/// Describes the status of the daemon.
#[derive(Clone, Copy, Debug, PartialEq, Eq, Structural)]
pub enum Status {
    Unknown,
    Idle,
    Loading,
    Decompressing,
    DeviceRestart,
    DeviceWrite,
    Scheduling,
    Downloading,
    DeviceRead,
    DeviceErase,
    WaitingForAuth,
    DeviceBusy,
    Shutdown,
}

/// The status encoded by a daemon-reported code. A code out of range is
/// treated as `Idle` rather than failing the property read.
pub open spec fn spec_status_from(value: u8) -> Status {
    if value == 0 {
        Status::Unknown
    } else if value == 1 {
        Status::Idle
    } else if value == 2 {
        Status::Loading
    } else if value == 3 {
        Status::Decompressing
    } else if value == 4 {
        Status::DeviceRestart
    } else if value == 5 {
        Status::DeviceWrite
    } else if value == 6 {
        Status::Scheduling
    } else if value == 7 {
        Status::Downloading
    } else if value == 8 {
        Status::DeviceRead
    } else if value == 9 {
        Status::DeviceErase
    } else if value == 10 {
        Status::WaitingForAuth
    } else if value == 11 {
        Status::DeviceBusy
    } else if value == 12 {
        Status::Shutdown
    } else {
        Status::Idle
    }
}

impl From<u8> for Status {
    fn from(value: u8) -> (r: Status)
        ensures
            r == spec_status_from(value),
    {
        match value {
            0 => Status::Unknown,
            1 => Status::Idle,
            2 => Status::Loading,
            3 => Status::Decompressing,
            4 => Status::DeviceRestart,
            5 => Status::DeviceWrite,
            6 => Status::Scheduling,
            7 => Status::Downloading,
            8 => Status::DeviceRead,
            9 => Status::DeviceErase,
            10 => Status::WaitingForAuth,
            11 => Status::DeviceBusy,
            12 => Status::Shutdown,
            _ => Status::Idle,
        }
    }
}

impl vstd::std_specs::convert::FromSpecImpl<u8> for Status {
    open spec fn obeys_from_spec() -> bool {
        true
    }

    open spec fn from_spec(value: u8) -> Status {
        spec_status_from(value)
    }
}

} // verus!
