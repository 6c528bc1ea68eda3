//! The lifecycle channel between handles and their storage.
use vstd::prelude::*;

use crossbeam::channel::{Receiver, Sender, TryRecvError};

use crate::handle::ReferenceCountSignal;
use crate::Asset;

verus! {

#[verifier::external_type_specification]
#[verifier::external_body]
#[verifier::reject_recursive_types(T)]
pub struct ExSender<T>(Sender<T>);

#[verifier::external_type_specification]
#[verifier::external_body]
#[verifier::reject_recursive_types(T)]
pub struct ExReceiver<T>(Receiver<T>);

/// What one non-blocking poll of the channel found.
pub enum Polled<T> {
    Ready(T),
    Empty,
    Disconnected,
}

/// Relies on crossbeam::channel::unbounded: a connected sender and receiver
/// of a channel without a capacity limit.
#[verifier::external_body]
pub(crate) fn open_channel<T>() -> (Sender<T>, Receiver<T>) {
    crossbeam::channel::unbounded()
}

/// Relies on crossbeam::channel::Sender::send, which on an unbounded channel
/// never blocks and fails only once every receiver is gone. A refused signal
/// is dropped, which runs no code of its own.
#[verifier::external_body]
pub(crate) fn send_signal<A: Asset>(
    sender: &Sender<ReferenceCountSignal<A>>,
    message: ReferenceCountSignal<A>,
) -> bool
    opens_invariants none
    no_unwind
{
    sender.send(message).is_ok()
}

/// Relies on Clone for crossbeam::channel::Sender: another sender into the
/// same channel.
#[verifier::external_body]
pub(crate) fn clone_sender<T>(sender: &Sender<T>) -> Sender<T> {
    sender.clone()
}

/// Relies on crossbeam::channel::Receiver::try_recv: the next queued message,
/// or why there is none, without blocking.
#[verifier::external_body]
pub(crate) fn poll_message<T>(receiver: &Receiver<T>) -> Polled<T> {
    match receiver.try_recv() {
        Ok(message) => Polled::Ready(message),
        Err(TryRecvError::Empty) => Polled::Empty,
        Err(TryRecvError::Disconnected) => Polled::Disconnected,
    }
}

} // verus!
