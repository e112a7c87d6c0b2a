//! The error taxonomy of the client: each fallible step of the update
//! pipeline and of the bus surface fails with its own variant, so a caller
//! can tell a transport failure from an integrity failure. Causes that come
//! from outside the library (a bus error, an HTTP error, an I/O error) are
//! carried as their rendered text.

use vstd::prelude::*;

verus! {

/// An error that may occur when using the client.
#[derive(Debug, PartialEq)]
pub enum Error {
    /// Failed to add a match rule on the listening connection.
    AddMatch(String),
    /// A bus reply did not have the argument shape expected for the named
    /// method.
    ArgumentMismatch(String, String),
    /// Calling the named bus method failed.
    Call(String, String),
    /// The bus connection could not be established.
    Connection(String),
    /// The downloaded firmware does not match its published checksum.
    FirmwareChecksumMismatch,
    /// Copying the firmware body from the remote into the cache file failed.
    FirmwareCopy(String),
    /// The cache file for the firmware could not be created.
    FirmwareCreate(String),
    /// The HTTP request for the firmware failed or returned a non-success
    /// status.
    FirmwareGet(String),
    /// The firmware file could not be opened.
    FirmwareOpen(String),
    /// The firmware file could not be read.
    FirmwareRead(String),
    /// Seeking back to the start of the firmware file failed.
    FirmwareSeek(String),
    /// Reading the named daemon property failed.
    GetProperty(String, String),
    /// A method call message for the named method could not be created.
    NewMethodCall(String, String),
    /// No known remote matches the release's remote identity.
    RemoteNotFound,
}

} // verus!
