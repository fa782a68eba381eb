use vstd::prelude::*;
use crate::events::flatten;

verus! {

/// The errors of the relay core.
#[derive(Clone, Debug, PartialEq, Eq)]
pub enum RelayError {
    /// A transaction returned `actual` event lists for `expected` messages.
    MismatchIbcEventsCount { expected: usize, actual: usize },
    /// An error of a chain, transient or not.
    Chain { transient: bool, reason: String },
}

/// Builds the error for a wrong number of event lists.
pub trait InjectMismatchIbcEventsCountError: Sized {
    fn mismatch_ibc_events_count_error(expected: usize, actual: usize) -> Self;
}

impl InjectMismatchIbcEventsCountError for RelayError {
    fn mismatch_ibc_events_count_error(expected: usize, actual: usize) -> RelayError {
        RelayError::MismatchIbcEventsCount { expected, actual }
    }
}

/// A sender of messages to one chain: one list of events per message, in the
/// order of the messages, or an error that applies to all of them.
pub trait IbcMessageSender<M, E> {
    fn send_messages(&self, messages: Vec<M>) -> Result<Vec<Vec<E>>, RelayError>;
}

/// Checks that a transaction of `expected` messages returned one event list
/// per message; an error of the transaction passes through.
pub fn send_messages_fixed<E>(expected: usize, sent: Result<Vec<Vec<E>>, RelayError>) -> (r: Result<
    Vec<Vec<E>>,
    RelayError,
>)
    ensures
        match sent {
            Err(e) => r == Err::<Vec<Vec<E>>, RelayError>(e),
            Ok(v) => if v@.len() == expected {
                r == Ok::<Vec<Vec<E>>, RelayError>(v)
            } else {
                r == Err::<Vec<Vec<E>>, RelayError>(
                    RelayError::MismatchIbcEventsCount { expected, actual: v@.len() as usize },
                )
            },
        },
{
    match sent {
        Err(e) => Err(e),
        Ok(v) => {
            if v.len() == expected {
                Ok(v)
            } else {
                let actual = v.len();
                Err(RelayError::MismatchIbcEventsCount { expected, actual })
            }
        },
    }
}

/// Sends `messages` through `sender` and checks the number of event lists
/// that came back.
pub fn send_messages_checked<M, E, S: IbcMessageSender<M, E>>(sender: &S, messages: Vec<M>) -> (r:
    Result<Vec<Vec<E>>, RelayError>)
    ensures
        r matches Ok(v) ==> v@.len() == messages@.len(),
{
    let n = messages.len();
    let sent = sender.send_messages(messages);
    send_messages_fixed(n, sent)
}

/// The events of a transaction of one message. A transaction that returned
/// another number of event lists than one fails with
/// `MismatchIbcEventsCount`; an error of the transaction passes through.
pub fn send_message<E>(sent: Result<Vec<Vec<E>>, RelayError>) -> (r: Result<Vec<E>, RelayError>)
    ensures
        match sent {
            Err(e) => r == Err::<Vec<E>, RelayError>(e),
            Ok(v) => if v@.len() == 1 {
                (r matches Ok(w) && w@ == v@[0]@)
            } else {
                r == Err::<Vec<E>, RelayError>(
                    RelayError::MismatchIbcEventsCount { expected: 1, actual: v@.len() as usize },
                )
            },
        },
{
    match sent {
        Err(e) => Err(e),
        Ok(mut lists) => {
            if lists.len() == 1 {
                Ok(lists.remove(0))
            } else {
                let actual = lists.len();
                Err(RelayError::MismatchIbcEventsCount { expected: 1, actual })
            }
        },
    }
}

/// Sends one message through `sender`: its events, or the error of the
/// transaction, or `MismatchIbcEventsCount` when the transaction did not
/// return exactly one event list.
/// What comes back is decided by `send_message` on the sender's result.
pub fn send_single<M, E, S: IbcMessageSender<M, E>>(sender: &S, message: M) -> (r: Result<Vec<E>, RelayError>) {
    let mut messages: Vec<M> = Vec::new();
    messages.push(message);
    send_message(sender.send_messages(messages))
}

/// A chain context that has a sender of messages to one of its chains.
pub trait HasIbcMessageSender<M, E> {
    type IbcMessageSender: IbcMessageSender<M, E>;

    fn ibc_message_sender(&self) -> &Self::IbcMessageSender;
}

/// Sending through a message sender with the event count checked.
pub trait IbcMessageSenderExt<M, E> {
    /// Every success has one event list per message.
    fn send_messages_fixed(&self, messages: Vec<M>) -> (r: Result<Vec<Vec<E>>, RelayError>)
        ensures
            r matches Ok(v) ==> v@.len() == messages@.len(),
    ;

    /// The events of one message.
    fn send_message(&self, message: M) -> Result<Vec<E>, RelayError>;
}

impl<M, E, S: IbcMessageSender<M, E>> IbcMessageSenderExt<M, E> for S {
    fn send_messages_fixed(&self, messages: Vec<M>) -> (r: Result<Vec<Vec<E>>, RelayError>) {
        send_messages_checked(self, messages)
    }

    fn send_message(&self, message: M) -> Result<Vec<E>, RelayError> {
        send_single(self, message)
    }
}

/// The concatenation of the event lists, in order.
pub fn flatten_events<E>(lists: Vec<Vec<E>>) -> (r: Vec<E>)
    ensures
        r@ == flatten(lists@.map_values(|l: Vec<E>| l@)),
{
    let ghost all = lists@.map_values(|l: Vec<E>| l@);
    let mut out: Vec<E> = Vec::new();
    let mut rest = lists;
    let ghost mut done: int = 0;
    while rest.len() > 0
        invariant
            0 <= done <= all.len(),
            rest@.len() == all.len() - done,
            forall|i: int| 0 <= i < rest@.len() ==> (#[trigger] rest@[i])@ == all[done + i],
            out@ == flatten(all.subrange(0, done)),
        decreases rest.len(),
    {
        let ghost before = rest@;
        let mut l = rest.remove(0);
        proof {
            assert(l@ == all[done]);
            assert(all.subrange(0, done + 1).drop_last() =~= all.subrange(0, done));
        }
        out.append(&mut l);
        proof {
            done = done + 1;
            assert forall|i: int| 0 <= i < rest@.len() implies (#[trigger] rest@[i])@ == all[done + i] by {
                assert(rest@[i] == before[i + 1]);
            }
        }
    }
    proof {
        assert(all.subrange(0, done) =~= all);
    }
    out
}

} // verus!
