//! The outcomes an injection can fail with, and how an operating-system error
//! number is sorted into them.

use vstd::prelude::*;

verus! {

/// The error number with which the operating system refuses an operation for
/// want of privilege.
pub const EPERM: i32 = 1;

/// The error number with which the operating system refuses a terminal
/// operation on a descriptor that is no terminal.
pub const ENOTTY: i32 = 25;

/// Why a payload could not be built or could not be typed into a device.
#[derive(Clone, Copy, Debug, PartialEq, Eq, Structural)]
pub enum Error {
    /// The command text holds a null byte, so no terminated byte string exists for it.
    InvalidPayload,
    /// The device could not be opened for writing.
    IOError,
    /// The insert operation was refused for want of privilege.
    PermissionDenied,
    /// The insert operation was refused because the descriptor is no terminal.
    NotATerminal,
    /// The insert operation failed for another reason; the number is the system's own.
    OsError(i32),
}

impl Error {
    /// The outcome that a failed insert operation with error number `code` stands for.
    pub open spec fn of_errno(code: i32) -> Error {
        if code == EPERM {
            Error::PermissionDenied
        } else if code == ENOTTY {
            Error::NotATerminal
        } else {
            Error::OsError(code)
        }
    }

    /// The error number that the operating system gave, where the outcome
    /// carries one.
    pub open spec fn code(self) -> Option<i32> {
        match self {
            Error::OsError(code) => Some(code),
            _ => None,
        }
    }

    /// What is reported for the outcome, the device left aside.
    pub open spec fn text(self) -> Seq<char> {
        match self {
            Error::InvalidPayload => "command contains a nul character"@,
            Error::IOError => "error opening device"@,
            Error::PermissionDenied => "cannot write — are you root?"@,
            Error::NotATerminal => "not a TTY/PTY"@,
            Error::OsError(_) => "unable to write"@,
        }
    }

    /// Every error number stands for exactly one outcome: the two that the
    /// taxonomy names, and itself for every other.
    pub proof fn lemma_of_errno(code: i32)
        ensures
            Error::of_errno(code) == Error::PermissionDenied <==> code == EPERM,
            Error::of_errno(code) == Error::NotATerminal <==> code == ENOTTY,
            Error::of_errno(code) is OsError <==> code != EPERM && code != ENOTTY,
            Error::of_errno(code) is OsError ==> Error::of_errno(code).code() == Some(code),
            Error::of_errno(code) != Error::InvalidPayload,
            Error::of_errno(code) != Error::IOError,
    {
    }

    /// Sorts the error number of a failed insert operation into the taxonomy.
    pub fn from_errno(code: i32) -> (e: Error)
        ensures
            e == Error::of_errno(code),
    {
        if code == EPERM {
            Error::PermissionDenied
        } else if code == ENOTTY {
            Error::NotATerminal
        } else {
            Error::OsError(code)
        }
    }

    /// The error number that the operating system gave, where the outcome
    /// carries one.
    pub fn os_code(&self) -> (code: Option<i32>)
        ensures
            code == self.code(),
    {
        match self {
            Error::OsError(code) => Some(*code),
            _ => None,
        }
    }

    /// What is reported for the outcome, the device left aside.
    pub fn message(&self) -> (text: &'static str)
        ensures
            text@ == self.text(),
    {
        match self {
            Error::InvalidPayload => "command contains a nul character",
            Error::IOError => "error opening device",
            Error::PermissionDenied => "cannot write — are you root?",
            Error::NotATerminal => "not a TTY/PTY",
            Error::OsError(_) => "unable to write",
        }
    }
}

} // verus!
