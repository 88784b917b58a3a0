//! Why a message could not be sent to, or received from, a channel that is not
//! closed with an error.
use crate::codec::PostcardError;
use vstd::prelude::*;

verus! {

/// A message cannot be sent, because there is no receiver any more.
#[derive(Debug, PartialEq, Eq)]
pub struct SendError<T = ()>(pub T);

/// A message cannot be sent right now.
#[derive(Debug, PartialEq, Eq)]
pub enum TrySendError<T = ()> {
    /// The channel is full.
    Full(T),
    /// There is no receiver any more.
    Closed(T),
}

/// A message cannot be received right now.
#[derive(Debug, PartialEq, Eq)]
pub enum TryRecvError {
    /// There is no message in the channel.
    Empty,
    /// There is no sender any more, and all messages have been received.
    Closed,
}

/// A message cannot be received.
#[derive(Debug, PartialEq, Eq)]
pub enum RecvError {
    /// There is no sender any more, and all messages have been received.
    Closed,
}

/// Serialized bytes cannot be sent.
#[derive(Debug, PartialEq, Eq)]
pub enum SerSendError {
    /// There is no receiver any more.
    Closed,
    /// The bytes do not stand for a message of the channel.
    Deserialize(PostcardError),
}

/// Serialized bytes cannot be sent right now.
#[derive(Debug, PartialEq, Eq)]
pub enum SerTrySendError {
    /// The channel is closed or full.
    Send(TrySendError),
    /// The bytes do not stand for a message of the channel.
    Deserialize(PostcardError),
}

impl<T> SendError<T> {
    /// The message that could not be sent.
    #[must_use]
    pub fn into_inner(self) -> (r: T)
        ensures
            r == self.0,
    {
        self.0
    }
}

impl<T> TrySendError<T> {
    /// The message that could not be sent.
    pub open spec fn message(self) -> T {
        match self {
            TrySendError::Full(message) => message,
            TrySendError::Closed(message) => message,
        }
    }

    /// The message that could not be sent.
    #[must_use]
    pub fn into_inner(self) -> (r: T)
        ensures
            r == self.message(),
    {
        match self {
            TrySendError::Full(message) => message,
            TrySendError::Closed(message) => message,
        }
    }
}

/// An error hands back the message that it was made with.
pub proof fn errors_hand_back_their_message<T>(message: T)
    ensures
        TrySendError::Full(message).message() == message,
        TrySendError::Closed(message).message() == message,
{
}

} // verus!
