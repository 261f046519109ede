//! The two ways in which a cancelled prompt ends the work.

use vstd::prelude::*;

verus! {

/// How a cancelled prompt ends the work.
#[derive(Clone, Copy, Debug, PartialEq, Eq, Structural)]
pub enum Cancellation {
    /// The caller gets an error and goes on.
    Recoverable,
    /// The process ends at once with a status other than zero.
    FatalImmediate,
}

/// The status with which the process ends on [`Cancellation::FatalImmediate`].
pub const EXIT_STATUS: i32 = 1;

impl Cancellation {
    /// The status with which the process is to end at once; `None` where the
    /// caller goes on.
    pub fn exit_status(&self) -> (status: Option<i32>)
        ensures
            status == match *self {
                Cancellation::FatalImmediate => Some(EXIT_STATUS),
                Cancellation::Recoverable => None,
            },
    {
        match self {
            Cancellation::FatalImmediate => Some(EXIT_STATUS),
            Cancellation::Recoverable => None,
        }
    }
}

} // verus!
