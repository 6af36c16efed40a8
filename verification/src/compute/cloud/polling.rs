//! Decisions of the loops that poll a cloud service until a job finishes:
//! the service is asked for the job's status, and the decision says what
//! the loop does next. Reading the clock and waiting are the loop's part.

use vstd::prelude::*;
use crate::error::MyQuatError;
use crate::text::concat;

verus! {

/// What a polling loop does after reading a job's status.
#[derive(Debug)]
pub enum PollStep {
    /// The job completed: fetch its result
    FetchResult,
    /// The job ended without a result: stop with this error
    Stop(MyQuatError),
    /// The job is still pending and the time allowed is over
    TimedOut,
    /// The job is still pending: wait one poll interval and ask again
    Wait,
}

/// A circuit error whose message is `head`, `id`, then `tail`.
pub(crate) fn framed_error(head: &str, id: &str, tail: &str) -> (e: MyQuatError)
    ensures
        e matches MyQuatError::CircuitError { message } && message@ == head@ + id@ + tail@,
{
    let first = concat(head, id);
    let message = concat(first.as_str(), tail);
    MyQuatError::CircuitError { message }
}

} // verus!
