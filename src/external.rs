use vstd::prelude::*;

verus! {

/// A JSON value, carried through the library without being looked into.
#[verifier::external_type_specification]
#[verifier::external_body]
pub struct ExValue(serde_json::Value);

/// The sending half of a one-shot completion.
#[verifier::external_type_specification]
#[verifier::external_body]
#[verifier::reject_recursive_types(T)]
pub struct ExSender<T>(oneshot::Sender<T>);

/// The receiving half of a one-shot completion.
#[verifier::external_type_specification]
#[verifier::external_body]
#[verifier::reject_recursive_types(T)]
pub struct ExReceiver<T>(oneshot::Receiver<T>);

/// The error of awaiting a receiver whose sender is gone. Nothing here uses
/// it, but the receiver's declaration needs it: the receiver is a future
/// whose output names it.
#[verifier::external_type_specification]
#[verifier::external_body]
pub struct ExRecvError(oneshot::RecvError);

/// Relies on oneshot::channel: a fresh sender and receiver pair.
#[verifier::external_body]
pub(crate) fn completion_channel<T>() -> (r: (oneshot::Sender<T>, oneshot::Receiver<T>)) {
    oneshot::channel()
}

/// Relies on oneshot::Sender::send: hands the value to the receiver, or drops
/// it when the receiver is gone.
#[verifier::external_body]
pub(crate) fn complete<T>(sender: oneshot::Sender<T>, value: T) {
    let _ = sender.send(value);
}

} // verus!
