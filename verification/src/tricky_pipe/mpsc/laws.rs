//! What holds of every channel.
use super::error::{TryRecvError, TrySendError};
use super::pipe::PipeView;
use crate::codec::{cobs, decoding_framed, frames_are_found_again, Codec, PostcardError};
use vstd::prelude::*;

verus! {

/// Messages are received in the order in which they were sent: a message that is
/// sent to an empty channel is the next to be received, and a message that is
/// sent behind others does not change which of them is next.
pub proof fn messages_keep_their_order<T, E>(pipe: PipeView<T, E>, message: T)
    ensures
        pipe.messages.len() == 0 ==> pipe.push(message).messages[0] == message && pipe.push(
            message,
        ).pop() == pipe,
        pipe.messages.len() > 0 ==> pipe.push(message).messages[0] == pipe.messages[0]
            && pipe.push(message).pop() == pipe.pop().push(message),
{
    if pipe.messages.len() == 0 {
        assert(pipe.push(message).pop().messages =~= pipe.messages);
    } else {
        assert(pipe.push(message).pop().messages =~= pipe.pop().push(message).messages);
    }
}

/// The channel after all of `messages` were sent, one after the other.
pub open spec fn push_all<T, E>(pipe: PipeView<T, E>, messages: Seq<T>) -> PipeView<T, E>
    decreases messages.len(),
{
    if messages.len() == 0 {
        pipe
    } else {
        push_all(pipe.push(messages[0]), messages.drop_first())
    }
}

/// The channel after `n` messages were received, one after the other.
pub open spec fn pop_n<T, E>(pipe: PipeView<T, E>, n: nat) -> PipeView<T, E>
    decreases n,
{
    if n == 0 {
        pipe
    } else {
        pop_n(pipe.pop(), (n - 1) as nat)
    }
}

/// Each message that is sent is received once: whatever is sent to an empty
/// channel, in any number, is what can be received from it, in the same order,
/// and then the channel is as it was.
pub proof fn every_message_is_received_once<T, E>(pipe: PipeView<T, E>, messages: Seq<T>)
    requires
        pipe.messages.len() == 0,
    ensures
        push_all(pipe, messages).messages == messages,
        pop_n(push_all(pipe, messages), messages.len()) == pipe,
{
    push_all_appends(pipe, messages);
    pop_n_drops(push_all(pipe, messages), messages.len());
    assert(push_all(pipe, messages).messages =~= messages);
    assert(pop_n(push_all(pipe, messages), messages.len()).messages =~= pipe.messages);
}

proof fn push_all_appends<T, E>(pipe: PipeView<T, E>, messages: Seq<T>)
    ensures
        push_all(pipe, messages) == (PipeView { messages: pipe.messages + messages, ..pipe }),
    decreases messages.len(),
{
    if messages.len() == 0 {
        assert(pipe.messages + messages =~= pipe.messages);
    } else {
        push_all_appends(pipe.push(messages[0]), messages.drop_first());
        assert(pipe.messages.push(messages[0]) + messages.drop_first() =~= pipe.messages
            + messages);
    }
}

proof fn pop_n_drops<T, E>(pipe: PipeView<T, E>, n: nat)
    requires
        n <= pipe.messages.len(),
    ensures
        pop_n(pipe, n) == (PipeView { messages: pipe.messages.skip(n as int), ..pipe }),
    decreases n,
{
    if n == 0 {
        assert(pipe.messages.skip(0) =~= pipe.messages);
    } else {
        pop_n_drops(pipe.pop(), (n - 1) as nat);
        assert(pipe.messages.drop_first().skip(n - 1) =~= pipe.messages.skip(n as int));
    }
}

/// Whatever is done to a channel, there are never more messages and reservations
/// than it has room for.
pub proof fn channels_are_bounded<T, E>(pipe: PipeView<T, E>, idx: u8, message: T, error: E)
    requires
        pipe.valid(),
    ensures
        pipe.pop().valid() || pipe.messages.len() == 0,
        !pipe.full() && !pipe.reserved.contains(idx) ==> pipe.reserve(idx).valid(),
        pipe.reserved.contains(idx) ==> pipe.release(idx).valid() && pipe.release(idx).push(
            message,
        ).valid(),
        pipe.close_with_error(error).valid(),
        pipe.add_tx().valid(),
        pipe.drop_tx().valid(),
        pipe.close_rx().valid(),
        pipe.messages.len() <= pipe.capacity,
{
}

/// A channel that holds as many messages as it can refuses every further one.
pub proof fn full_channels_refuse<T, E>(pipe: PipeView<T, E>)
    requires
        pipe.valid(),
        pipe.messages.len() == pipe.capacity,
    ensures
        pipe.full(),
{
}

/// A permit that is dropped leaves the channel as it was.
pub proof fn dropped_permits_leave_no_trace<T, E>(pipe: PipeView<T, E>, idx: u8)
    requires
        !pipe.reserved.contains(idx),
    ensures
        pipe.reserve(idx).release(idx) == pipe,
{
    assert(pipe.reserve(idx).release(idx).reserved =~= pipe.reserved);
}

/// A channel is closed with the first error that it is closed with. Messages that
/// were sent before can still be received; when they are, the receiver is told
/// the error. Senders are told the error at once, even if the channel is full or
/// its receiver is gone.
pub proof fn first_error_stays<T, E: Clone>(pipe: PipeView<T, E>, first: E, second: E)
    requires
        pipe.valid(),
        pipe.error is None,
    ensures
        ({
            let closed = pipe.close_with_error(first);
            &&& closed.close_with_error(second) == closed
            &&& closed.messages == pipe.messages
            &&& forall|e: TrySendError<E, T>| #[trigger]
                closed.refuses(e) ==> (e matches TrySendError::Error { message, error } && cloned(
                    first,
                    error,
                ))
            &&& forall|e: TryRecvError<E>| #[trigger]
                closed.starves(e) ==> (e matches TryRecvError::Error(error) && cloned(
                    first,
                    error,
                ))
        }),
{
}

/// When the receiver is gone, senders are told that it is. What else happens to
/// the channel, but for an error that it is closed with, does not change that.
pub proof fn receiver_that_is_gone_stays_gone<T, E: Clone>(
    pipe: PipeView<T, E>,
    e: TrySendError<E, T>,
    idx: u8,
)
    requires
        pipe.valid(),
        pipe.error is None,
    ensures
        pipe.close_rx().refuses(e) <==> e is Disconnected,
        pipe.close_rx().pop().send_closed,
        pipe.close_rx().release(idx).send_closed,
        pipe.close_rx().add_tx().send_closed,
        pipe.close_rx().drop_tx().send_closed,
{
}

/// When the last sender is gone, the receiver is told that it is, but not before
/// all messages were received; while there is a sender, it is not.
pub proof fn last_sender_disconnects<T, E: Clone>(pipe: PipeView<T, E>, e: TryRecvError<E>)
    requires
        pipe.valid(),
        pipe.error is None,
        !pipe.recv_closed,
        pipe.tx_count > 0,
    ensures
        pipe.drop_tx().messages == pipe.messages,
        pipe.tx_count == 1 && pipe.messages.len() == 0 ==> (pipe.drop_tx().starves(e) <==> e
            is Disconnected),
        pipe.tx_count > 1 && pipe.messages.len() == 0 ==> (pipe.drop_tx().starves(e) <==> e
            is Empty),
        pipe.add_tx().drop_tx() == pipe,
{
}

/// A message that is sent as serialized bytes and received as serialized bytes
/// is received as the bytes it was sent as.
pub proof fn serialized_messages_pass_unchanged<T: Codec>(message: T::V)
    requires
        T::encodable(message),
    ensures
        T::decoding(T::encoding(message)) == Ok::<(T::V, Seq<u8>), PostcardError>(
            (message, Seq::empty()),
        ),
{
    T::round_trip(message, Seq::empty());
    assert(T::encoding(message) + Seq::<u8>::empty() =~= T::encoding(message));
}

/// A message that is sent as a frame is the one that the frame was made of, whatever
/// follows the frame.
pub proof fn framed_messages_pass_unchanged<T: Codec>(message: T::V, behind: Seq<u8>)
    requires
        T::encodable(message),
    ensures
        decoding_framed::<T>(cobs(T::encoding(message)) + behind) == Ok::<
            (T::V, Seq<u8>),
            PostcardError,
        >((message, Seq::empty())),
{
    frames_are_found_again(T::encoding(message), behind);
    serialized_messages_pass_unchanged::<T>(message);
}

/// A sender is refused for want of room exactly while the channel takes messages and
/// every element holds a message or is reserved; as disconnected exactly when the
/// receiver is gone and no error was given; and with the error exactly when one was. Of
/// every channel that is closed or full, one of these holds, and of no other.
pub proof fn senders_are_told_why<T, E: Clone>(
    pipe: PipeView<T, E>,
    message: T,
    error: E,
    given: E,
)
    requires
        pipe.valid(),
    ensures
        pipe.refuses(TrySendError::<E, T>::Full(message)) <==> !pipe.send_closed
            && pipe.messages.len() + pipe.reserved.len() == pipe.capacity,
        pipe.refuses(TrySendError::<E, T>::Disconnected(message)) <==> pipe.send_closed
            && pipe.error is None,
        pipe.refuses(TrySendError::<E, T>::Error { message, error }) <==> (pipe.error matches Some(
            e,
        ) && cloned(e, error)),
        pipe.error is None ==> ({
            let closed = pipe.close_with_error(given);
            &&& closed.error == Some(given)
            &&& closed.send_closed && closed.recv_closed
            &&& closed.messages == pipe.messages && closed.reserved == pipe.reserved
            &&& closed.capacity == pipe.capacity && closed.tx_count == pipe.tx_count
                && closed.rx_claimed == pipe.rx_claimed
        }),
        pipe.error is Some ==> pipe.close_with_error(given) == pipe,
{
}

/// The receiver gets messages as long as there are any, whatever else has happened. Once
/// there are none, it is told the error that the channel was closed with, or else that the
/// senders are gone, or else that there is nothing yet.
pub proof fn receivers_are_told_why<T, E: Clone>(pipe: PipeView<T, E>, error: E)
    requires
        pipe.valid(),
    ensures
        pipe.starves(TryRecvError::Empty) <==> pipe.messages.len() == 0 && !pipe.recv_closed,
        pipe.starves(TryRecvError::Disconnected) <==> pipe.messages.len() == 0 && pipe.recv_closed
            && pipe.error is None,
        pipe.starves(TryRecvError::Error(error)) <==> pipe.messages.len() == 0 && (
        pipe.error matches Some(e) && cloned(e, error)),
{
}

/// Sending, receiving, reserving and giving back change only what they are for: messages
/// are put behind the others and taken from the front, and an element is reserved or not.
/// The ends of the channel are as they were.
pub proof fn steps_change_only_what_they_are_for<T, E>(pipe: PipeView<T, E>, message: T, idx: u8)
    ensures
        ({
            let sent = pipe.push(message);
            let received = pipe.pop();
            let reserved = pipe.reserve(idx);
            let given_back = pipe.release(idx);
            let same_ends = |other: PipeView<T, E>|
                other.capacity == pipe.capacity && other.send_closed == pipe.send_closed
                    && other.recv_closed == pipe.recv_closed && other.error == pipe.error
                    && other.rx_claimed == pipe.rx_claimed && other.tx_count == pipe.tx_count;
            &&& same_ends(sent) && same_ends(received) && same_ends(reserved) && same_ends(
                given_back,
            )
            &&& sent.messages == pipe.messages + seq![message] && sent.reserved == pipe.reserved
            &&& pipe.messages.len() > 0 ==> seq![pipe.messages[0]] + received.messages
                == pipe.messages && received.reserved == pipe.reserved
            &&& reserved.messages == pipe.messages && given_back.messages == pipe.messages
            &&& forall|i: u8| #[trigger]
                reserved.reserved.contains(i) <==> pipe.reserved.contains(i) || i == idx
            &&& forall|i: u8| #[trigger]
                given_back.reserved.contains(i) <==> pipe.reserved.contains(i) && i != idx
        }),
{
    assert(pipe.push(message).messages =~= pipe.messages + seq![message]);
    if pipe.messages.len() > 0 {
        assert(seq![pipe.messages[0]] + pipe.pop().messages =~= pipe.messages);
    }
}

/// Senders are counted; with the last, and only with it, the receiver is cut off. The
/// receiver that goes cuts off the senders, and nobody else. Messages and reservations
/// stay.
pub proof fn ends_are_counted<T, E>(pipe: PipeView<T, E>)
    requires
        pipe.tx_count > 0,
    ensures
        ({
            let more = pipe.add_tx();
            let less = pipe.drop_tx();
            let gone = pipe.close_rx();
            let same = |other: PipeView<T, E>|
                other.messages == pipe.messages && other.reserved == pipe.reserved
                    && other.capacity == pipe.capacity && other.error == pipe.error
                    && other.rx_claimed == pipe.rx_claimed;
            &&& same(more) && same(less) && same(gone)
            &&& more.tx_count == pipe.tx_count + 1 && more.recv_closed == pipe.recv_closed
                && more.send_closed == pipe.send_closed
            &&& less.tx_count == pipe.tx_count - 1 && less.send_closed == pipe.send_closed
            &&& less.recv_closed <==> pipe.recv_closed || less.tx_count == 0
            &&& gone.send_closed && gone.recv_closed == pipe.recv_closed && gone.tx_count
                == pipe.tx_count
        }),
{
}

/// A channel that nothing has happened to is empty, open at both ends, and nobody has an
/// end of it.
pub proof fn fresh_channels_are_open<T, E>(capacity: nat)
    ensures
        ({
            let pipe = PipeView::<T, E>::fresh(capacity);
            &&& pipe.messages.len() == 0 && pipe.reserved == Set::<u8>::empty()
            &&& pipe.capacity == capacity && pipe.tx_count == 0
            &&& !pipe.send_closed && !pipe.recv_closed && !pipe.rx_claimed && pipe.error is None
            &&& pipe.full() <==> capacity == 0
        }),
{
}

} // verus!
