//! What an operation's result becomes when it crosses to a foreign caller: a status tag and,
//! on success only, a payload that the caller receives once and does not keep.
use vstd::prelude::*;

use crate::error::Error;

verus! {

/// The status tag handed across the boundary with each result.
#[derive(Clone, Copy, Debug, PartialEq, Eq, Structural)]
pub enum BoundaryStatus {
    Success,
    BasicParse,
    BadEntityId,
    CannotPerformTaskWithoutLedgerId,
    ScheduleNotSupported,
    MultipleChunksNotSupported,
    TimedOut,
    RemoteRejected,
    Transport,
}

/// The tag of an error.
pub open spec fn spec_status_of(e: Error) -> BoundaryStatus {
    match e {
        Error::BasicParse => BoundaryStatus::BasicParse,
        Error::BadEntityId { .. } => BoundaryStatus::BadEntityId,
        Error::CannotPerformTaskWithoutLedgerId { .. } => {
            BoundaryStatus::CannotPerformTaskWithoutLedgerId
        },
        Error::ScheduleNotSupported => BoundaryStatus::ScheduleNotSupported,
        Error::MultipleChunksNotSupported => BoundaryStatus::MultipleChunksNotSupported,
        Error::TimedOut => BoundaryStatus::TimedOut,
        Error::RemoteRejected { .. } => BoundaryStatus::RemoteRejected,
        Error::Transport { .. } => BoundaryStatus::Transport,
    }
}

/// The tag of an error; no error is tagged `Success`.
pub fn status_of(e: &Error) -> (r: BoundaryStatus)
    ensures
        r == spec_status_of(*e),
        r != BoundaryStatus::Success,
{
    match e {
        Error::BasicParse => BoundaryStatus::BasicParse,
        Error::BadEntityId { .. } => BoundaryStatus::BadEntityId,
        Error::CannotPerformTaskWithoutLedgerId { .. } => {
            BoundaryStatus::CannotPerformTaskWithoutLedgerId
        },
        Error::ScheduleNotSupported => BoundaryStatus::ScheduleNotSupported,
        Error::MultipleChunksNotSupported => BoundaryStatus::MultipleChunksNotSupported,
        Error::TimedOut => BoundaryStatus::TimedOut,
        Error::RemoteRejected { .. } => BoundaryStatus::RemoteRejected,
        Error::Transport { .. } => BoundaryStatus::Transport,
    }
}

/// What a completion callback receives: a tag, and a payload exactly on success.
#[derive(Clone, Debug, PartialEq, Eq)]
pub struct Completion {
    pub status: BoundaryStatus,
    pub payload: Option<String>,
}

/// The completion of an operation whose result, on success, is the given text.
pub fn completion(result: Result<String, Error>) -> (r: Completion)
    ensures
        result is Ok <==> r.status == BoundaryStatus::Success,
        result is Ok <==> r.payload is Some,
        result matches Ok(s) ==> r.payload->0@ == s@,
        result matches Err(e) ==> r.status == spec_status_of(e),
{
    match result {
        Ok(s) => Completion { status: BoundaryStatus::Success, payload: Some(s) },
        Err(e) => Completion { status: status_of(&e), payload: None },
    }
}

} // verus!
