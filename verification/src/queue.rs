//! The queue between the threads that notify an event loop and the loop itself.
use crossbeam_channel::{Receiver, Sender};
use vstd::prelude::*;

verus! {

/// Declares `crossbeam_channel::Sender`: an opaque value to the verifier.
#[verifier::external_type_specification]
#[verifier::external_body]
#[verifier::reject_recursive_types(T)]
pub struct ExSender<T>(crossbeam_channel::Sender<T>);

/// Declares `crossbeam_channel::Receiver`: an opaque value to the verifier.
#[verifier::external_type_specification]
#[verifier::external_body]
#[verifier::reject_recursive_types(T)]
pub struct ExReceiver<T>(crossbeam_channel::Receiver<T>);

/// What an attempt to take a message off a queue came to.
pub enum Received<T> {
    Message(T),
    /// No message is there now.
    Empty,
    /// No message is there, and none will come: every sender is gone.
    Disconnected,
}

/// The end of a queue that messages go into.
#[verifier::reject_recursive_types(T)]
pub struct Tx<T> {
    tx: Sender<T>,
    id: Ghost<int>,
}

/// The end of a queue that messages come out of.
#[verifier::reject_recursive_types(T)]
pub struct Rx<T> {
    rx: Receiver<T>,
    id: Ghost<int>,
}

/// Says that a message was put into a queue. Only sending one makes it.
pub struct Posted<T> {
    id: Ghost<int>,
    message: Ghost<T>,
}

impl<T> Tx<T> {
    /// Which queue this is an end of.
    pub closed spec fn queue(&self) -> int {
        self.id@
    }
}

impl<T> Rx<T> {
    /// Which queue this is an end of.
    pub closed spec fn queue(&self) -> int {
        self.id@
    }
}

impl<T> Posted<T> {
    /// The queue that the message was put into.
    pub closed spec fn queue(&self) -> int {
        self.id@
    }

    /// The message.
    pub closed spec fn message(&self) -> T {
        self.message@
    }
}

/// `crossbeam_channel::unbounded`: the two ends of one fresh queue. What the queue holds
/// depends on other threads, and nothing is claimed of it.
#[verifier::external_body]
pub(crate) fn queue<T>() -> (r: (Tx<T>, Rx<T>))
    ensures
        r.0.queue() == r.1.queue(),
{
    let (tx, rx) = crossbeam_channel::unbounded();
    (Tx { tx, id: Ghost(0) }, Rx { rx, id: Ghost(0) })
}

/// `crossbeam_channel::Sender::send`: the message is put into the sender's queue, or it
/// comes back. Which of the two depends on other threads and is not said; that a receiver
/// gets the messages in the order of sending is not either.
#[verifier::external_body]
pub(crate) fn send<T>(tx: &Tx<T>, msg: T) -> (r: Result<Posted<T>, T>)
    ensures
        match r {
            Ok(p) => p.queue() == tx.queue() && p.message() == msg,
            Err(m) => m == msg,
        },
{
    let posted = Posted { id: Ghost(0), message: Ghost(msg) };
    match tx.tx.send(msg) {
        Ok(_) => Ok(posted),
        Err(e) => Err(e.into_inner()),
    }
}

/// `crossbeam_channel::Receiver::try_recv`: what is there depends on other threads, so
/// nothing is claimed of the outcome.
#[verifier::external_body]
pub(crate) fn try_recv<T>(rx: &Rx<T>) -> (r: Received<T>) {
    match rx.rx.try_recv() {
        Ok(msg) => Received::Message(msg),
        Err(crossbeam_channel::TryRecvError::Empty) => Received::Empty,
        Err(crossbeam_channel::TryRecvError::Disconnected) => Received::Disconnected,
    }
}

/// `crossbeam_channel::Receiver::is_empty`: what is there depends on other threads, so
/// nothing is claimed of the answer.
#[verifier::external_body]
pub(crate) fn is_empty<T>(rx: &Rx<T>) -> (r: bool) {
    rx.rx.is_empty()
}

/// `crossbeam_channel::Sender::clone`: another sender of the same queue, since a sender is
/// but a pointer to its queue and the clone holds the same pointer.
#[verifier::external_body]
pub(crate) fn clone_sender<T>(tx: &Tx<T>) -> (r: Tx<T>)
    ensures
        r.queue() == tx.queue(),
{
    Tx { tx: tx.tx.clone(), id: Ghost(0) }
}

} // verus!
