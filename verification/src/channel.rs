//! The outbound channel of a node session: the frames that travel to the
//! writer, and the trusted boundary around the futures channel sender that
//! carries them.

use vstd::prelude::*;

use crate::error::Error;

verus! {

/// One frame bound for a node's socket writer.
#[derive(Clone, Debug, PartialEq)]
pub enum OutboundFrame {
    /// A text frame holding one encoded envelope.
    Text(String),
    /// A close frame, asking the writer to shut the connection down.
    Close,
}

/// The futures bounded channel sender, declared so sessions and players can
/// hold one; the library claims nothing about its inside.
#[verifier::external_type_specification]
#[verifier::external_body]
#[verifier::reject_recursive_types(T)]
pub struct ExSender<T>(futures::sync::mpsc::Sender<T>);

/// Relies on `futures::sync::mpsc::Sender::try_send`: it enqueues the
/// frame and returns success, or returns it back when the channel is at
/// capacity or the receiver is gone — without blocking, panicking, or
/// touching the task system, so it is safe from plain synchronous code
/// and from a destructor.
/// Success means the frame was accepted for delivery; both failure kinds
/// become [`Error::SendFailure`]. Which of these happens depends on the
/// receiver's side, so nothing more than the shape of the result is
/// claimed.
#[verifier::external_body]
pub fn channel_send(
    sender: &mut futures::sync::mpsc::Sender<OutboundFrame>,
    frame: OutboundFrame,
) -> (r: Result<(), Error>)
    ensures
        (match r {
            Ok(u) => u == (),
            Err(e) => e == Error::SendFailure,
        }),
    no_unwind
{
    match sender.try_send(frame) {
        Ok(()) => Ok(()),
        Err(_) => Err(Error::SendFailure),
    }
}

/// Relies on the `Clone` impl of `futures::sync::mpsc::Sender`: a second
/// handle sending into the same channel.
#[verifier::external_body]
pub fn clone_sender(
    sender: &futures::sync::mpsc::Sender<OutboundFrame>,
) -> (r: futures::sync::mpsc::Sender<OutboundFrame>) {
    sender.clone()
}

} // verus!
