//! The operator's answers.
//!
//! Twice a run waits for the operator: before it starts, to have the filter
//! list confirmed, and at a tar entry that cannot be parsed, to ask whether to
//! go on without it. The asking is done elsewhere; what an answer means is
//! stated here.

use crate::error::{Failure, PackError};
use vstd::prelude::*;

verus! {

/// An answer of the operator.
#[derive(Clone, Copy, Debug, PartialEq, Eq, Structural)]
pub enum Decision {
    /// Go on.
    Accept,
    /// Stop.
    Reject,
}

impl Decision {
    /// The decision that a yes-or-no answer stands for.
    pub fn from_answer(yes: bool) -> (decision: Decision)
        ensures
            decision == (if yes {
                Decision::Accept
            } else {
                Decision::Reject
            }),
    {
        if yes {
            Decision::Accept
        } else {
            Decision::Reject
        }
    }
}

/// What a decision means for the run: it goes on after `Accept` and is
/// cancelled after `Reject`.
pub fn confirm(decision: Decision) -> (res: Result<(), PackError>)
    ensures
        match res {
            Ok(_) => decision == Decision::Accept,
            Err(e) => decision == Decision::Reject && e@ == Failure::UserCancelled,
        },
{
    match decision {
        Decision::Accept => Ok(()),
        Decision::Reject => Err(PackError::UserCancelled),
    }
}

/// The number of malformed entries that may be skipped after the operator was
/// asked about one more: one more than `allowed` after `Accept`, as far as the
/// number can be counted; after `Reject` the run is cancelled.
pub fn allow_one_more(decision: Decision, allowed: usize) -> (res: Result<usize, PackError>)
    ensures
        match res {
            Ok(skips) => decision == Decision::Accept && (if allowed < usize::MAX {
                skips == allowed + 1
            } else {
                skips == allowed
            }),
            Err(e) => decision == Decision::Reject && e@ == Failure::UserCancelled,
        },
{
    match decision {
        Decision::Accept => Ok(
            if allowed < usize::MAX {
                allowed + 1
            } else {
                allowed
            },
        ),
        Decision::Reject => Err(PackError::UserCancelled),
    }
}

} // verus!
