//! The receiving end of a channel of changes, and what it has answered so far.

use std::sync::mpsc::{Receiver, RecvError, RecvTimeoutError};
use std::time::Duration;
use vstd::prelude::*;

verus! {

/// The receiving half of a standard channel. Verus sees nothing inside it.
#[verifier::external_type_specification]
#[verifier::external_body]
#[verifier::reject_recursive_types(T)]
pub struct ExReceiver<T>(std::sync::mpsc::Receiver<T>);

/// The error of `Receiver::recv`, which carries no information of its own.
#[verifier::external_type_specification]
#[verifier::external_body]
pub struct ExRecvError(std::sync::mpsc::RecvError);

/// The error of `Receiver::recv_timeout`, with its two variants `Timeout` and
/// `Disconnected`.
#[verifier::external_type_specification]
pub struct ExRecvTimeoutError(std::sync::mpsc::RecvTimeoutError);

/// What a receiver answered when it was waited on.
pub enum Answer {
    /// The answer to a wait without a limit.
    Unlimited(Result<(), RecvError>),
    /// The answer to a wait of at most the given time.
    Within(Duration, Result<(), RecvTimeoutError>),
}

impl Answer {
    /// True if the answer hands over an event.
    pub open spec fn is_event(self) -> bool {
        match self {
            Answer::Unlimited(received) => received is Ok,
            Answer::Within(_, received) => received is Ok,
        }
    }

    /// True if the answer is that the channel has hung up: it is empty, and no sender
    /// is left.
    pub open spec fn is_hang_up(self) -> bool {
        match self {
            Answer::Unlimited(received) => received is Err,
            Answer::Within(_, received) => received == Err::<(), RecvTimeoutError>(
                RecvTimeoutError::Disconnected,
            ),
        }
    }
}

/// True if one of `answers` is that the channel has hung up.
pub open spec fn hung_up(answers: Seq<Answer>) -> bool {
    exists|i: int| 0 <= i < answers.len() && (#[trigger] answers[i]).is_hang_up()
}

/// All that `rx` has answered so far, in the order in which it was asked.
pub uninterp spec fn heard(rx: Receiver<()>) -> Seq<Answer>;

/// Calls `Receiver::recv`, which blocks until a value arrives or the channel hangs
/// up. Its answer is one more that the receiver has given. Which of the two happens is
/// up to the senders, so that is left open, but for this: once the channel has hung up,
/// no value can ever be received again.
#[verifier::external_body]
pub(crate) fn recv(rx: &mut Receiver<()>) -> (received: Result<(), RecvError>)
    ensures
        heard(*final(rx)) == heard(*old(rx)).push(Answer::Unlimited(received)),
        hung_up(heard(*old(rx))) ==> Answer::Unlimited(received).is_hang_up(),
{
    rx.recv()
}

/// Calls `Receiver::recv_timeout`, which blocks until a value arrives, the channel
/// hangs up or the time is over. Its answer is one more that the receiver has given.
/// Which of the three happens is up to the senders and the clock, so that is left open,
/// but for this: once the channel has hung up, every answer is that it has.
#[verifier::external_body]
pub(crate) fn recv_timeout(rx: &mut Receiver<()>, limit: Duration) -> (received: Result<
    (),
    RecvTimeoutError,
>)
    ensures
        heard(*final(rx)) == heard(*old(rx)).push(Answer::Within(limit, received)),
        hung_up(heard(*old(rx))) ==> Answer::Within(limit, received).is_hang_up(),
{
    rx.recv_timeout(limit)
}

} // verus!
