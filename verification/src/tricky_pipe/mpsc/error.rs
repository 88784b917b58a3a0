//! Why a message could not be sent or received.
use crate::codec::PostcardError;
use vstd::prelude::*;

verus! {

/// A message cannot be sent.
#[derive(Debug, PartialEq, Eq)]
pub enum SendError<E, T = ()> {
    /// There is no receiver any more.
    Disconnected(T),
    /// The channel was closed with an error.
    Error { message: T, error: E },
}

/// A message cannot be sent right now.
#[derive(Debug, PartialEq, Eq)]
pub enum TrySendError<E, T = ()> {
    /// The channel is full: the message cannot be sent without waiting for a slot
    /// to become available.
    Full(T),
    /// There is no receiver any more.
    Disconnected(T),
    /// The channel was closed with an error.
    Error { message: T, error: E },
}

/// A message cannot be received right now.
#[derive(Debug, PartialEq, Eq)]
pub enum TryRecvError<E> {
    /// There is no message in the channel. The receiver must wait for one to be
    /// sent.
    Empty,
    /// There is no sender any more, and all messages have been received.
    Disconnected,
    /// The channel was closed with an error.
    Error(E),
}

/// A message cannot be received.
#[derive(Debug, PartialEq, Eq)]
pub enum RecvError<E> {
    /// There is no sender any more, and all messages have been received.
    Disconnected,
    /// The channel was closed with an error.
    Error(E),
}

/// Serialized bytes cannot be sent.
#[derive(Debug, PartialEq, Eq)]
pub enum SerSendError<E> {
    /// There is no receiver any more.
    Disconnected,
    /// The channel was closed with an error.
    Error(E),
    /// The bytes do not stand for a message of the channel.
    Deserialize(PostcardError),
}

/// Serialized bytes cannot be sent right now.
#[derive(Debug, PartialEq, Eq)]
pub enum SerTrySendError<E> {
    /// The channel is full.
    Full,
    /// There is no receiver any more.
    Disconnected,
    /// The channel was closed with an error.
    Error(E),
    /// The bytes do not stand for a message of the channel.
    Deserialize(PostcardError),
}

impl<E, T> SendError<E, T> {
    /// The message that could not be sent.
    pub open spec fn message(self) -> T {
        match self {
            SendError::Disconnected(message) => message,
            SendError::Error { message, error } => message,
        }
    }

    /// The message that could not be sent.
    #[must_use]
    pub fn into_inner(self) -> (r: T)
        ensures
            r == self.message(),
    {
        match self {
            SendError::Disconnected(message) => message,
            SendError::Error { message, .. } => message,
        }
    }

    /// The same error for another message.
    pub open spec fn spec_with_message<M>(self, message: M) -> SendError<E, M> {
        match self {
            SendError::Disconnected(_) => SendError::Disconnected(message),
            SendError::Error { message: _, error } => SendError::Error { message, error },
        }
    }

    /// The same error for another message.
    pub fn with_message<M>(self, message: M) -> (r: SendError<E, M>)
        ensures
            r == self.spec_with_message(message),
    {
        match self {
            SendError::Disconnected(_) => SendError::Disconnected(message),
            SendError::Error { error, .. } => SendError::Error { message, error },
        }
    }
}

impl<E, T> TrySendError<E, T> {
    /// The message that could not be sent.
    pub open spec fn message(self) -> T {
        match self {
            TrySendError::Full(message) => message,
            TrySendError::Disconnected(message) => message,
            TrySendError::Error { message, error } => message,
        }
    }

    /// The message that could not be sent.
    #[must_use]
    pub fn into_inner(self) -> (r: T)
        ensures
            r == self.message(),
    {
        match self {
            TrySendError::Full(message) => message,
            TrySendError::Disconnected(message) => message,
            TrySendError::Error { message, .. } => message,
        }
    }

    /// The same error for another message.
    pub open spec fn spec_with_message<M>(self, message: M) -> TrySendError<E, M> {
        match self {
            TrySendError::Full(_) => TrySendError::Full(message),
            TrySendError::Disconnected(_) => TrySendError::Disconnected(message),
            TrySendError::Error { message: _, error } => TrySendError::Error { message, error },
        }
    }

    /// The same error for another message.
    pub fn with_message<M>(self, message: M) -> (r: TrySendError<E, M>)
        ensures
            r == self.spec_with_message(message),
    {
        match self {
            TrySendError::Full(_) => TrySendError::Full(message),
            TrySendError::Disconnected(_) => TrySendError::Disconnected(message),
            TrySendError::Error { error, .. } => TrySendError::Error { message, error },
        }
    }

    /// Whether the error goes away if the sender waits; if not, the error that
    /// does not.
    pub fn into_send_error(self) -> (r: Result<SendError<E, T>, T>)
        ensures
            r == match self {
                TrySendError::Full(message) => Err::<SendError<E, T>, T>(message),
                TrySendError::Disconnected(message) => Ok(SendError::Disconnected(message)),
                TrySendError::Error { message, error } => Ok(SendError::Error { message, error }),
            },
    {
        match self {
            TrySendError::Full(message) => Err(message),
            TrySendError::Disconnected(message) => Ok(SendError::Disconnected(message)),
            TrySendError::Error { message, error } => Ok(SendError::Error { message, error }),
        }
    }
}

impl<E> SerTrySendError<E> {
    /// The error for bytes, where the error for a message is `error`.
    pub open spec fn spec_from_try_send_error<T>(error: TrySendError<E, T>) -> SerTrySendError<E> {
        match error {
            TrySendError::Full(_) => SerTrySendError::Full,
            TrySendError::Disconnected(_) => SerTrySendError::Disconnected,
            TrySendError::Error { message, error } => SerTrySendError::Error(error),
        }
    }

    /// The error for bytes, where the error for a message is `error`.
    pub fn from_try_send_error<T>(error: TrySendError<E, T>) -> (r: SerTrySendError<E>)
        ensures
            r == SerTrySendError::spec_from_try_send_error(error),
    {
        match error {
            TrySendError::Full(_) => SerTrySendError::Full,
            TrySendError::Disconnected(_) => SerTrySendError::Disconnected,
            TrySendError::Error { error, .. } => SerTrySendError::Error(error),
        }
    }
}

impl<E> SerSendError<E> {
    /// The error for bytes, where the error for a message is `error`.
    pub open spec fn spec_from_send_error<T>(error: SendError<E, T>) -> SerSendError<E> {
        match error {
            SendError::Disconnected(_) => SerSendError::Disconnected,
            SendError::Error { message, error } => SerSendError::Error(error),
        }
    }

    /// The error for bytes, where the error for a message is `error`.
    pub fn from_send_error<T>(error: SendError<E, T>) -> (r: SerSendError<E>)
        ensures
            r == SerSendError::spec_from_send_error(error),
    {
        match error {
            SendError::Disconnected(_) => SerSendError::Disconnected,
            SendError::Error { error, .. } => SerSendError::Error(error),
        }
    }
}

/// An error keeps what it says, and hands back the message that it was made with; another
/// message takes the place of the first, and nothing else. For bytes, the error says the
/// same.
pub proof fn errors_hand_back_their_message<E, T, M>(message: T, other: M, error: E)
    ensures
        ({
            let full = TrySendError::<E, T>::Full(message);
            let gone = TrySendError::<E, T>::Disconnected(message);
            let failed = TrySendError::<E, T>::Error { message, error };
            &&& full.message() == message && gone.message() == message && failed.message()
                == message
            &&& full.spec_with_message(other) == TrySendError::<E, M>::Full(other)
            &&& gone.spec_with_message(other) == TrySendError::<E, M>::Disconnected(other)
            &&& failed.spec_with_message(other) == TrySendError::<E, M>::Error {
                message: other,
                error,
            }
            &&& SerTrySendError::spec_from_try_send_error(full) is Full
            &&& SerTrySendError::spec_from_try_send_error(gone) is Disconnected
            &&& SerTrySendError::spec_from_try_send_error(failed) == SerTrySendError::Error(error)
        }),
        ({
            let gone = SendError::<E, T>::Disconnected(message);
            let failed = SendError::<E, T>::Error { message, error };
            &&& gone.message() == message && failed.message() == message
            &&& gone.spec_with_message(other) == SendError::<E, M>::Disconnected(other)
            &&& failed.spec_with_message(other) == SendError::<E, M>::Error {
                message: other,
                error,
            }
            &&& SerSendError::spec_from_send_error(gone) is Disconnected
            &&& SerSendError::spec_from_send_error(failed) == SerSendError::Error(error)
        }),
{
}

} // verus!
