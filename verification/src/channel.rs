//! The outbound side of a connection: WebSocket messages of `warp` and the
//! unbounded `tokio` queue that carries them to the task that writes them
//! to the socket.
//!
//! Both are opaque to the verifier. The text of a message is named
//! (`message_text`); of a send nothing is claimed, since whether the queue
//! still has a reader is not in the sender's hands.

use vstd::prelude::*;

verus! {

/// `warp::ws::Message`, a WebSocket message. Nothing inside it is visible
/// here.
#[verifier::external_type_specification]
#[verifier::external_body]
pub struct ExMessage(warp::ws::Message);

/// `warp::Error`, the error that a queue may carry in place of a message.
/// This crate never makes one.
#[verifier::external_type_specification]
#[verifier::external_body]
pub struct ExTransportError(warp::Error);

/// `tokio::sync::mpsc::UnboundedSender`, the producer end of an unbounded
/// queue. It is carried through and handed to `send`.
#[verifier::external_type_specification]
#[verifier::external_body]
#[verifier::reject_recursive_types(T)]
pub struct ExUnboundedSender<T>(tokio::sync::mpsc::UnboundedSender<T>);

/// `tokio::sync::mpsc::error::SendError`, the error of a send into a queue
/// without a reader. It is only told apart from success.
#[verifier::external_type_specification]
#[verifier::external_body]
#[verifier::reject_recursive_types(T)]
pub struct ExSendError<T>(tokio::sync::mpsc::error::SendError<T>);

/// What travels through the queue of a connection.
pub type Outgoing = Result<warp::ws::Message, warp::Error>;

/// The producer end of the queue of a connection.
pub type Sender = tokio::sync::mpsc::UnboundedSender<Outgoing>;

/// The text that `warp::ws::Message::to_str` hands out: `None` unless the
/// message is a text message.
pub uninterp spec fn message_text(message: warp::ws::Message) -> Option<Seq<char>>;

/// Calls `warp::ws::Message::text`. Trusted: the result is a text message
/// that holds the given text.
#[verifier::external_body]
pub(crate) fn text_message(text: String) -> (message: warp::ws::Message)
    ensures
        message_text(message) == Some(text@),
{
    warp::ws::Message::text(text)
}

/// Calls `warp::ws::Message::to_str`. Trusted: the result is the text
/// named by `message_text`, an error where that is `None`.
#[verifier::external_body]
pub(crate) fn text_of(message: &warp::ws::Message) -> (text: Result<&str, ()>)
    ensures
        match text {
            Ok(t) => message_text(*message) == Some(t@),
            Err(_) => message_text(*message) is None,
        },
{
    message.to_str()
}

/// Calls `tokio::sync::mpsc::UnboundedSender::send` with a message. It
/// does not wait. Nothing is claimed of the result: it is an error once
/// the reader of the queue is gone.
#[verifier::external_body]
pub(crate) fn send(sender: &Sender, message: warp::ws::Message) -> (sent: Result<
    (),
    tokio::sync::mpsc::error::SendError<Outgoing>,
>)
{
    sender.send(Ok(message))
}

} // verus!
