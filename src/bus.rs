//! The broadcast bus of a session: a bounded, multi-consumer channel of protocol messages.
use vstd::prelude::*;

use crate::protocol::CollabMessage;

verus! {

#[verifier::external_type_specification]
#[verifier::external_body]
#[verifier::reject_recursive_types(T)]
pub struct ExBusSender<T>(tokio::sync::broadcast::Sender<T>);

#[verifier::external_type_specification]
#[verifier::external_body]
#[verifier::reject_recursive_types(T)]
pub struct ExBusReceiver<T>(tokio::sync::broadcast::Receiver<T>);

/// Relies on tokio::sync::broadcast::channel, which panics on a capacity of zero or
/// above `usize::MAX / 2`. The receiver it creates is dropped at once, so a message
/// published with no subscriber is discarded.
#[verifier::external_body]
pub(crate) fn open_bus(capacity: usize) -> (r: tokio::sync::broadcast::Sender<CollabMessage>)
    requires
        0 < capacity <= usize::MAX / 2,
{
    let (tx, _rx) = tokio::sync::broadcast::channel(capacity);
    tx
}

/// Relies on tokio::sync::broadcast::Sender::send: it never blocks, and fails only
/// when no receiver exists, which is not an error here (the message is dropped).
#[verifier::external_body]
pub(crate) fn bus_send(tx: &tokio::sync::broadcast::Sender<CollabMessage>, msg: CollabMessage) {
    let _ = tx.send(msg);
}

/// Relies on tokio::sync::broadcast::Sender::subscribe: the receiver sees only the
/// messages sent after this call.
#[verifier::external_body]
pub(crate) fn bus_subscribe(
    tx: &tokio::sync::broadcast::Sender<CollabMessage>,
) -> (r: tokio::sync::broadcast::Receiver<CollabMessage>) {
    tx.subscribe()
}

} // verus!
