//! The outbound channel of a client: the handle through which published
//! payloads reach its connection.
//!
//! The channel itself is tokio's unbounded multi-producer queue, carrying
//! the websocket messages that the connection's pump writes to the
//! transport. The verifier sees a handle as an opaque value: it can be
//! stored, duplicated and offered a message, and nothing else.

use vstd::prelude::*;

verus! {

/// `tokio::sync::mpsc::UnboundedSender`, the sending half of an unbounded
/// channel. Declared opaque: no contract speaks of what is inside.
#[verifier::external_type_specification]
#[verifier::external_body]
#[verifier::reject_recursive_types(T)]
pub struct ExUnboundedSender<T>(tokio::sync::mpsc::UnboundedSender<T>);

/// `tokio::sync::mpsc::error::SendError`, which hands a refused message
/// back to the caller. Declared opaque.
#[verifier::external_type_specification]
#[verifier::external_body]
#[verifier::reject_recursive_types(T)]
pub struct ExSendError<T>(tokio::sync::mpsc::error::SendError<T>);

/// `warp::ws::Message`, one websocket message. Declared opaque.
#[verifier::external_type_specification]
#[verifier::external_body]
pub struct ExMessage(warp::ws::Message);

/// `warp::Error`, a failure inside the transport. Declared opaque.
#[verifier::external_type_specification]
#[verifier::external_body]
pub struct ExTransportError(warp::Error);

/// What travels through a client's channel: a message for the transport,
/// or the transport error that ends the stream.
pub type Frame = Result<warp::ws::Message, warp::Error>;

/// The handle to a client's outbound channel.
pub type Outbound = tokio::sync::mpsc::UnboundedSender<Frame>;

/// `Clone::clone` of `UnboundedSender` makes another handle to the same
/// channel. Nothing is claimed of the result beyond its type: contracts
/// speak of it as a clone of the handle it was made from.
pub assume_specification<T>[ <tokio::sync::mpsc::UnboundedSender<T> as Clone>::clone ](
    handle: &tokio::sync::mpsc::UnboundedSender<T>,
) -> (copy: tokio::sync::mpsc::UnboundedSender<T>)
;

/// `UnboundedSender::send` enqueues a message without waiting, or returns
/// it in an error when the receiving half is closed or dropped. Whether it
/// is accepted depends on the receiver, so nothing is claimed of the
/// result.
pub assume_specification<T>[ tokio::sync::mpsc::UnboundedSender::<T>::send ](
    handle: &tokio::sync::mpsc::UnboundedSender<T>,
    message: T,
) -> (outcome: Result<(), tokio::sync::mpsc::error::SendError<T>>)
;

/// `warp::ws::Message::text` builds a text message from a string. The
/// message is opaque, so nothing is claimed of it.
pub assume_specification<S: Into<String>>[ warp::ws::Message::text::<S> ](s: S) -> (message:
    warp::ws::Message)
;

/// Offers `payload` as one text message to a client's channel. Returns
/// whether the channel took it; a channel whose receiving half is gone
/// takes nothing.
pub(crate) fn offer_text(handle: &Outbound, payload: &str) -> (accepted: bool) {
    let message = warp::ws::Message::text(payload);
    match handle.send(Ok(message)) {
        Ok(_) => true,
        Err(_) => false,
    }
}

} // verus!
