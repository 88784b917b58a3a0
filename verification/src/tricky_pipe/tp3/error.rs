//! Why a message could not be sent or received.
use crate::codec::PostcardError;
use vstd::prelude::*;

verus! {

/// A message cannot be sent.
#[derive(Debug, PartialEq, Eq, Structural, Clone, Copy)]
pub enum SendError {
    /// There is no receiver any more.
    Closed,
}

/// A message cannot be sent right now.
#[derive(Debug, PartialEq, Eq, Structural, Clone, Copy)]
pub enum TrySendError {
    /// The channel is full.
    Full,
    /// There is no receiver any more.
    Closed,
}

/// A message cannot be received right now.
#[derive(Debug, PartialEq, Eq, Structural, Clone, Copy)]
pub enum TryRecvError {
    /// There is no message in the channel.
    Empty,
    /// There is no sender any more, and all messages have been received.
    Closed,
}

/// A message cannot be received.
#[derive(Debug, PartialEq, Eq, Structural, Clone, Copy)]
pub enum RecvError {
    /// There is no sender any more, and all messages have been received.
    Closed,
}

/// Serialized bytes cannot be sent.
#[derive(Debug, PartialEq, Eq, Structural, Clone, Copy)]
pub enum SerSendError {
    /// There is no receiver any more.
    Closed,
    /// The bytes do not stand for a message of the channel.
    Deserialize(PostcardError),
}

/// Serialized bytes cannot be sent right now.
#[derive(Debug, PartialEq, Eq, Structural, Clone, Copy)]
pub enum SerTrySendError {
    /// The channel is closed or full.
    Send(TrySendError),
    /// The bytes do not stand for a message of the channel.
    Deserialize(PostcardError),
}

} // verus!
