//! Status codes returned by wire decoders.

use vstd::prelude::*;

verus! {

/// Outcome class of a decoder call.
#[derive(Clone, Copy, Debug, PartialEq, Eq, Structural)]
pub enum Status {
    Success,
    Truncated,
    InvalidArgument,
    OutOfRange,
    ChecksumMismatch,
}

/// A status code with a short static description of where it arose.
#[derive(Clone, Debug, PartialEq, Eq)]
pub struct StatusMessage {
    pub code: Status,
    pub detail: &'static str,
}

impl StatusMessage {
    /// The success status, described as "ok".
    pub fn ok() -> (r: Self)
        ensures
            r.code == Status::Success,
            r.detail@ == "ok"@,
    {
        Self { code: Status::Success, detail: "ok" }
    }

    /// A status with the given code and description.
    pub fn fail(code: Status, detail: &'static str) -> (r: Self)
        ensures
            r.code == code,
            r.detail == detail,
    {
        Self { code, detail }
    }

    /// Whether the code is `Status::Success`.
    pub fn is_ok(&self) -> (b: bool)
        ensures
            b == (self.code == Status::Success),
    {
        match self.code {
            Status::Success => true,
            _ => false,
        }
    }
}

impl From<Result<(), StatusMessage>> for StatusMessage {
    /// `Ok(())` becomes the success status; an error is returned as it is.
    fn from(value: Result<(), StatusMessage>) -> (r: Self) {
        match value {
            Ok(()) => StatusMessage { code: Status::Success, detail: "ok" },
            Err(e) => e,
        }
    }
}

impl vstd::std_specs::convert::FromSpecImpl<Result<(), StatusMessage>> for StatusMessage {
    open spec fn obeys_from_spec() -> bool {
        true
    }

    open spec fn from_spec(value: Result<(), StatusMessage>) -> StatusMessage {
        match value {
            Ok(()) => StatusMessage { code: Status::Success, detail: "ok" },
            Err(e) => e,
        }
    }
}

/// The result form of a status: `Ok(())` or the failing message.
pub type ResultStatus = Result<(), StatusMessage>;

} // verus!
