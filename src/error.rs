//! The library's error kinds.

use vstd::prelude::*;

verus! {

/// Every way an operation of the library can fail.
#[derive(Debug, Clone, PartialEq, Eq)]
pub enum Error {
    RoomNotFound(String),
    BroadcasterOffline(String),
    StreamNotFound(String),
    CloudflareBlocked,
    AgeVerification,
    PrivateStream,
    Interrupted,
    Config(String),
    NoRoomsSpecified,
    InvalidRoomName(String),
    Network(String),
    Io(String),
    Json(String),
    UrlParse(String),
    M3u8(String),
    Toml(String),
    SegmentDownloadFailed(String),
}

/// Process exit status of a run that ended well.
pub const EXIT_SUCCESS: i32 = 0;
/// Exit status for configuration errors.
pub const EXIT_CONFIG_ERROR: i32 = 1;
/// Exit status for network, blocking and age-gate errors.
pub const EXIT_NETWORK_ERROR: i32 = 2;
/// Exit status for every other runtime error.
pub const EXIT_RECORDING_ERROR: i32 = 3;
/// Exit status after an interruption.
pub const EXIT_INTERRUPTED: i32 = 130;

/// The exit status that an error's class maps to.
pub open spec fn exit_code_of(e: Error) -> i32 {
    match e {
        Error::Config(_) | Error::InvalidRoomName(_) | Error::NoRoomsSpecified => EXIT_CONFIG_ERROR,
        Error::Network(_) | Error::CloudflareBlocked | Error::AgeVerification => EXIT_NETWORK_ERROR,
        Error::Interrupted => EXIT_INTERRUPTED,
        _ => EXIT_RECORDING_ERROR,
    }
}

impl Error {
    /// The process exit status for this error.
    pub fn exit_code(&self) -> (r: i32)
        ensures
            r == exit_code_of(*self),
    {
        match self {
            Error::Config(_) | Error::InvalidRoomName(_) | Error::NoRoomsSpecified => EXIT_CONFIG_ERROR,
            Error::Network(_) | Error::CloudflareBlocked | Error::AgeVerification => EXIT_NETWORK_ERROR,
            Error::Interrupted => EXIT_INTERRUPTED,
            _ => EXIT_RECORDING_ERROR,
        }
    }
}

/// How a run over several rooms ends: it fails only when at least one room
/// failed and none succeeded.
pub fn run_outcome(successful: usize, failed: usize) -> (r: Result<(), Error>)
    ensures
        r is Err <==> (failed > 0 && successful == 0),
        r is Err ==> r matches Err(Error::Config(_)),
{
    if failed > 0 && successful == 0 {
        Err(Error::Config("All recordings failed".to_owned()))
    } else {
        Ok(())
    }
}

} // verus!
