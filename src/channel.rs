//! The bounded channels that connect producers to their consumers, and the
//! shared ownership that one envelope's payload needs to reach both.
use crate::frame::SendStatus;
use std::path::PathBuf;
use std::sync::Arc;
use vstd::prelude::*;

verus! {

#[verifier::external_type_specification]
#[verifier::external_body]
#[verifier::reject_recursive_types(T)]
pub struct ExSender<T>(flume::Sender<T>);

#[verifier::external_type_specification]
#[verifier::external_body]
#[verifier::reject_recursive_types(T)]
pub struct ExReceiver<T>(flume::Receiver<T>);

#[verifier::external_type_specification]
#[verifier::external_body]
pub struct ExPathBuf(PathBuf);

/// What one non-blocking receive attempt found.
pub enum Received<T> {
    /// An item was waiting.
    Item(T),
    /// Nothing was waiting, and a sender remains.
    Empty,
    /// Nothing was waiting, and every sender is gone.
    Closed,
}

/// Relies on flume::Sender::try_send: it never blocks, and reports a channel
/// at capacity as `Full` and one whose receivers are gone as `Disconnected`;
/// in both cases the message is handed back, and dropped here.
#[verifier::external_body]
pub(crate) fn try_send<T>(tx: &flume::Sender<T>, msg: T) -> (r: SendStatus) {
    match tx.try_send(msg) {
        Ok(()) => SendStatus::Delivered,
        Err(flume::TrySendError::Full(_)) => SendStatus::Full,
        Err(flume::TrySendError::Disconnected(_)) => SendStatus::Closed,
    }
}

/// Relies on flume::Receiver::try_recv: it never blocks; it returns a waiting
/// item, or reports an empty channel as `Empty` and an empty channel without
/// senders as `Disconnected`.
#[verifier::external_body]
pub(crate) fn try_recv<T>(rx: &flume::Receiver<T>) -> (r: Received<T>) {
    match rx.try_recv() {
        Ok(item) => Received::Item(item),
        Err(flume::TryRecvError::Empty) => Received::Empty,
        Err(flume::TryRecvError::Disconnected) => Received::Closed,
    }
}

/// Relies on Arc::clone: the new handle points at the same value.
#[verifier::external_body]
pub(crate) fn share<T: ?Sized>(a: &Arc<T>) -> (r: Arc<T>)
    ensures
        r == *a,
{
    Arc::clone(a)
}

} // verus!
