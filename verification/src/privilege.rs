//! Becoming an operator of a channel, within a bounded wait.
//!
//! The bot asks the directory service once and then looks at the channel's
//! members at a fixed interval until it finds itself an operator, or until
//! the time allowed has passed.

use vstd::prelude::*;
use crate::text::join2;

verus! {

/// The pause between two looks at what the bot waits for, in milliseconds.
pub const POLL_MS: u64 = 200;

/// The time after which the bot stops waiting, in milliseconds.
pub const TIMEOUT_MS: u64 = 5000;

/// How far the wait has come.
#[derive(Clone, Copy, Debug, PartialEq, Eq)]
pub enum OpWait {
    /// The directory service has not been asked yet.
    Fresh,
    /// The directory service was asked; so many milliseconds have been
    /// spent waiting since.
    Asked(u64),
}

/// What to do next while waiting.
#[derive(Debug, PartialEq, Eq)]
pub enum OpStep {
    /// The bot is an operator: the wait is over.
    Granted,
    /// Send this text to the directory service, then look again at once.
    Ask(String),
    /// Let [`POLL_MS`] pass, then look again.
    Poll,
    /// The time is up: say this text in the channel and give up.
    GiveUp(String),
}

/// What the directory service is told to make the bot an operator.
pub open spec fn op_order(channel: Seq<char>) -> Seq<char> {
    "op "@ + channel
}

/// What the channel is told when the wait was in vain.
pub open spec fn op_failure(channel: Seq<char>) -> Seq<char> {
    "Error: Unable to get opped in "@ + channel
}

/// Whether `after` and `step` are what follows from the wait `before` when
/// the bot finds itself an operator (`opped`) or not.
pub open spec fn waits(before: OpWait, channel: Seq<char>, opped: bool, after: OpWait, step: OpStep) -> bool {
    if opped {
        after == before && step == OpStep::Granted
    } else {
        match before {
            OpWait::Fresh => {
                &&& after == OpWait::Asked(0)
                &&& step matches OpStep::Ask(text) && text@ == op_order(channel)
            },
            OpWait::Asked(spent) => if spent >= TIMEOUT_MS {
                &&& after == before
                &&& step matches OpStep::GiveUp(text) && text@ == op_failure(channel)
            } else {
                &&& after == OpWait::Asked((spent + POLL_MS) as u64)
                &&& step == OpStep::Poll
            },
        }
    }
}

/// Takes one look at whether the bot is an operator of `channel` and says
/// how the wait goes on.
pub fn wait_for_op(wait: &mut OpWait, channel: &str, opped: bool) -> (step: OpStep)
    ensures
        waits(*old(wait), channel@, opped, *final(wait), step),
{
    if opped {
        return OpStep::Granted;
    }
    match *wait {
        OpWait::Fresh => {
            *wait = OpWait::Asked(0);
            OpStep::Ask(join2("op ", channel))
        },
        OpWait::Asked(spent) => {
            if spent >= TIMEOUT_MS {
                OpStep::GiveUp(join2("Error: Unable to get opped in ", channel))
            } else {
                *wait = OpWait::Asked(spent + POLL_MS);
                OpStep::Poll
            }
        },
    }
}

/// The longest that a wait lasts once the directory service was asked:
/// from then on every step either ends the wait or adds [`POLL_MS`] to the
/// time spent, and no step is taken beyond [`TIMEOUT_MS`].
pub proof fn lemma_wait_is_bounded(before: OpWait, channel: Seq<char>, after: OpWait, step: OpStep)
    requires
        waits(before, channel, false, after, step),
        before matches OpWait::Asked(spent) && spent <= TIMEOUT_MS,
    ensures
        after matches OpWait::Asked(spent) && spent <= TIMEOUT_MS + POLL_MS,
        step is Poll ==> before->Asked_0 < TIMEOUT_MS && after->Asked_0 == before->Asked_0
            + POLL_MS,
        step is GiveUp <==> before->Asked_0 >= TIMEOUT_MS,
{
}

} // verus!
