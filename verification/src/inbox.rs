//! The inboxes through which other threads hand events to the engine.

use vstd::prelude::*;

verus! {

/// The receiving end of a channel of the standard library. Its contents
/// change whenever a sending thread pushes an event, so nothing is said
/// about them.
#[verifier::external_type_specification]
#[verifier::external_body]
#[verifier::reject_recursive_types(T)]
pub struct ExReceiver<T>(std::sync::mpsc::Receiver<T>);

/// Calls `Receiver::try_recv`, which hands out the oldest pending event if
/// there is one and returns at once if there is none or if every sender is
/// gone. Which of these happens depends on the sending threads: nothing is
/// claimed about the result.
#[verifier::external_body]
pub(crate) fn try_take<T>(inbox: &std::sync::mpsc::Receiver<T>) -> (event: Option<T>) {
    inbox.try_recv().ok()
}

/// The sending end of a channel of the standard library.
#[verifier::external_type_specification]
#[verifier::external_body]
#[verifier::reject_recursive_types(T)]
pub struct ExSender<T>(std::sync::mpsc::Sender<T>);

/// Calls `Sender::send`, which appends the event to the channel and returns
/// at once; it fails only when the receiving end is gone. Whether it is gone
/// is up to its owner: nothing is claimed about the result.
#[verifier::external_body]
pub(crate) fn push<T>(inbox: &std::sync::mpsc::Sender<T>, event: T) -> (sent: bool) {
    inbox.send(event).is_ok()
}

} // verus!
