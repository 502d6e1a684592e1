//! Control channels: how a command reaches the unit that applies it.
//!
//! A command is only ever enqueued by its sender; the unit that owns the
//! receiving end takes what has arrived when it next processes a frame, and
//! applies it to itself. Neither end ever blocks.

use std::sync::mpsc::{Receiver, Sender};
use vstd::prelude::*;

verus! {

/// The sending end of a channel of `std::sync::mpsc`.
#[verifier::external_type_specification]
#[verifier::external_body]
#[verifier::reject_recursive_types(T)]
pub struct ExSender<T>(Sender<T>);

/// The receiving end of a channel of `std::sync::mpsc`.
#[verifier::external_type_specification]
#[verifier::external_body]
#[verifier::reject_recursive_types(T)]
pub struct ExReceiver<T>(Receiver<T>);

/// `std::sync::mpsc::channel`: a new unbounded channel. Nothing is claimed of
/// the two ends.
#[verifier::external_body]
pub(crate) fn channel<T>() -> (ends: (Sender<T>, Receiver<T>)) {
    std::sync::mpsc::channel()
}

/// `Receiver::try_recv`: the oldest command that has arrived, without
/// waiting. `None` stands both for an empty channel and for one whose senders
/// are all gone. Which commands have arrived depends on the senders, so
/// nothing is claimed of the result.
#[verifier::external_body]
pub(crate) fn try_receive<T>(receiver: &Receiver<T>) -> (message: Option<T>) {
    receiver.try_recv().ok()
}

/// `Sender::send`: enqueues a command without waiting. `false` when the
/// receiving end is gone. Nothing is claimed of the result.
#[verifier::external_body]
pub(crate) fn send<T>(sender: &Sender<T>, message: T) -> (delivered: bool) {
    sender.send(message).is_ok()
}

/// Takes every command that has arrived, in the order of arrival.
pub(crate) fn drain<T>(receiver: &Receiver<T>) -> (messages: Vec<T>) {
    let mut messages: Vec<T> = Vec::new();
    let mut more = true;
    while more && messages.len() < usize::MAX
        decreases (if more { 1int } else { 0int }), usize::MAX - messages.len(),
    {
        match try_receive(receiver) {
            Some(message) => {
                messages.push(message);
            },
            None => {
                more = false;
            },
        }
    }
    messages
}

} // verus!
