//! Messages, and the bytes they travel as.
use crate::codec::{counted, push, varint, Codec, PostcardError};
use crate::id::{Id, LinkId};
use crate::registry::{Identity, IdentityView};
use vstd::prelude::*;
use vstd::utf8::encode_utf8;

verus! {

/// A message.
#[derive(Debug, PartialEq, Eq)]
pub enum Message {
    /// A message about a connection.
    Control(ControlMessage),
    /// Serialized data on an established connection.
    Data { local_id: Id, remote_id: Id, data: Vec<u8> },
}

/// A message about a connection.
#[derive(Debug, PartialEq, Eq)]
pub enum ControlMessage {
    /// Accepts a connection.
    Ack { local_id: Id, remote_id: Id },
    /// Refuses a connection.
    Nak { remote_id: Id, reason: Nak },
    /// Requests a connection to a service, with a serialized greeting.
    Connect { local_id: Id, identity: Identity, hello: Vec<u8> },
    /// Ends a connection.
    Reset { remote_id: Id },
}

/// Why a connection was refused.
#[derive(Copy, Clone, Debug, PartialEq, Eq, Structural)]
pub enum Nak {
    /// There is no room for another connection.
    ConnTableFull(usize),
    /// There is no such service.
    NotFound,
    /// The service refused the connection.
    Rejected(),
}

/// A control message, with its parts taken by their views.
pub enum ControlView {
    Ack { local_id: Id, remote_id: Id },
    Nak { remote_id: Id, reason: Nak },
    Connect { local_id: Id, identity: IdentityView, hello: Seq<u8> },
    Reset { remote_id: Id },
}

/// A message, with its parts taken by their views.
pub enum MessageView {
    Control(ControlView),
    Data { local_id: Id, remote_id: Id, data: Seq<u8> },
}

impl View for ControlMessage {
    type V = ControlView;

    open spec fn view(&self) -> ControlView {
        match *self {
            ControlMessage::Ack { local_id, remote_id } => ControlView::Ack { local_id, remote_id },
            ControlMessage::Nak { remote_id, reason } => ControlView::Nak { remote_id, reason },
            ControlMessage::Connect { local_id, identity, hello } => ControlView::Connect {
                local_id,
                identity: identity@,
                hello: hello@,
            },
            ControlMessage::Reset { remote_id } => ControlView::Reset { remote_id },
        }
    }
}

impl View for Message {
    type V = MessageView;

    open spec fn view(&self) -> MessageView {
        match *self {
            Message::Control(message) => MessageView::Control(message@),
            Message::Data { local_id, remote_id, data } => MessageView::Data {
                local_id,
                remote_id,
                data: data@,
            },
        }
    }
}

impl View for Nak {
    type V = Nak;

    open spec fn view(&self) -> Nak {
        *self
    }
}

impl ControlView {
    /// The identifiers that the message holds, as the sender sees them.
    pub open spec fn link_id(self) -> LinkId {
        match self {
            ControlView::Ack { local_id, remote_id } => LinkId {
                local: Some(local_id),
                remote: Some(remote_id),
            },
            ControlView::Nak { remote_id, reason } => LinkId {
                local: None,
                remote: Some(remote_id),
            },
            ControlView::Connect { local_id, identity, hello } => LinkId {
                local: Some(local_id),
                remote: None,
            },
            ControlView::Reset { remote_id } => LinkId { local: None, remote: Some(remote_id) },
        }
    }
}

impl MessageView {
    /// The identifiers that the message holds, as the sender sees them.
    pub open spec fn link_id(self) -> LinkId {
        match self {
            MessageView::Control(message) => message.link_id(),
            MessageView::Data { local_id, remote_id, data } => LinkId {
                local: Some(local_id),
                remote: Some(remote_id),
            },
        }
    }
}

/// No message belongs to the link of the interface itself.
pub proof fn no_message_is_for_the_interface(message: MessageView)
    ensures
        !message.link_id().spec_interface(),
{
}

impl Message {
    /// Ends a connection.
    pub fn reset(remote_id: Id) -> (r: Message)
        ensures
            r == Message::Control(ControlMessage::Reset { remote_id }),
    {
        Message::Control(ControlMessage::Reset { remote_id })
    }

    /// The identifiers that the message holds, as the sender sees them.
    pub fn link_id(&self) -> (r: LinkId)
        ensures
            r == self@.link_id(),
    {
        match self {
            Message::Control(message) => message.link_id(),
            Message::Data { local_id, remote_id, .. } => LinkId {
                local: Some(*local_id),
                remote: Some(*remote_id),
            },
        }
    }
}

impl ControlMessage {
    /// The identifiers that the message holds, as the sender sees them.
    pub fn link_id(&self) -> (r: LinkId)
        ensures
            r == self@.link_id(),
    {
        match self {
            ControlMessage::Ack { local_id, remote_id } => LinkId {
                local: Some(*local_id),
                remote: Some(*remote_id),
            },
            ControlMessage::Nak { remote_id, .. } => LinkId {
                local: None,
                remote: Some(*remote_id),
            },
            ControlMessage::Connect { local_id, .. } => LinkId {
                local: Some(*local_id),
                remote: None,
            },
            ControlMessage::Reset { remote_id } => LinkId { local: None, remote: Some(*remote_id) },
        }
    }
}

impl Codec for Nak {
    open spec fn encodable(v: Nak) -> bool {
        true
    }

    open spec fn encoding(v: Nak) -> Seq<u8> {
        match v {
            Nak::ConnTableFull(n) => <(u32, usize) as Codec>::encoding((0, n)),
            Nak::NotFound => <u32 as Codec>::encoding(1),
            Nak::Rejected() => <u32 as Codec>::encoding(2),
        }
    }

    open spec fn decoding(bytes: Seq<u8>) -> Result<(Nak, Seq<u8>), PostcardError> {
        match <u32 as Codec>::decoding(bytes) {
            Ok((tag, rest)) => if tag == 0 {
                match <usize as Codec>::decoding(rest) {
                    Ok((n, rest)) => Ok((Nak::ConnTableFull(n), rest)),
                    Err(e) => Err(e),
                }
            } else if tag == 1 {
                Ok((Nak::NotFound, rest))
            } else if tag == 2 {
                Ok((Nak::Rejected(), rest))
            } else {
                Err(PostcardError::SerdeDeCustom)
            },
            Err(e) => Err(e),
        }
    }

    fn to_vec(&self) -> (r: Vec<u8>) {
        match self {
            Nak::ConnTableFull(n) => (0u32, *n).to_vec(),
            Nak::NotFound => 1u32.to_vec(),
            Nak::Rejected() => 2u32.to_vec(),
        }
    }

    fn take_from_bytes(bytes: &[u8]) -> (r: Result<(Nak, &[u8]), PostcardError>) {
        match <u32 as Codec>::take_from_bytes(bytes) {
            Ok((tag, rest)) => if tag == 0 {
                match <usize as Codec>::take_from_bytes(rest) {
                    Ok((n, rest)) => Ok((Nak::ConnTableFull(n), rest)),
                    Err(e) => Err(e),
                }
            } else if tag == 1 {
                Ok((Nak::NotFound, rest))
            } else if tag == 2 {
                Ok((Nak::Rejected(), rest))
            } else {
                Err(PostcardError::SerdeDeCustom)
            },
            Err(e) => Err(e),
        }
    }

    proof fn round_trip(v: Nak, rest: Seq<u8>) {
        match v {
            Nak::ConnTableFull(n) => {
                <(u32, usize) as Codec>::round_trip((0, n), rest);
            },
            Nak::NotFound => {
                <u32 as Codec>::round_trip(1, rest);
            },
            Nak::Rejected() => {
                <u32 as Codec>::round_trip(2, rest);
            },
        }
    }
}

impl Codec for ControlMessage {
    open spec fn encodable(v: ControlView) -> bool {
        match v {
            ControlView::Ack { local_id, remote_id } => local_id.valid() && remote_id.valid(),
            ControlView::Nak { remote_id, reason } => remote_id.valid(),
            ControlView::Connect { local_id, identity, hello } => local_id.valid()
                && <Identity as Codec>::encodable(identity) && <Vec<u8> as Codec>::encodable(hello),
            ControlView::Reset { remote_id } => remote_id.valid(),
        }
    }

    open spec fn encoding(v: ControlView) -> Seq<u8> {
        match v {
            ControlView::Ack { local_id, remote_id } => <(u32, (Id, Id)) as Codec>::encoding(
                (0, (local_id, remote_id)),
            ),
            ControlView::Nak { remote_id, reason } => <(u32, (Id, Nak)) as Codec>::encoding(
                (1, (remote_id, reason)),
            ),
            ControlView::Connect { local_id, identity, hello } => <(
                u32,
                (Id, (Identity, Vec<u8>)),
            ) as Codec>::encoding((2, (local_id, (identity, hello)))),
            ControlView::Reset { remote_id } => <(u32, Id) as Codec>::encoding((3, remote_id)),
        }
    }

    open spec fn decoding(bytes: Seq<u8>) -> Result<(ControlView, Seq<u8>), PostcardError> {
        match <u32 as Codec>::decoding(bytes) {
            Ok((tag, rest)) => if tag == 0 {
                match <(Id, Id) as Codec>::decoding(rest) {
                    Ok(((local_id, remote_id), rest)) => Ok(
                        (ControlView::Ack { local_id, remote_id }, rest),
                    ),
                    Err(e) => Err(e),
                }
            } else if tag == 1 {
                match <(Id, Nak) as Codec>::decoding(rest) {
                    Ok(((remote_id, reason), rest)) => Ok(
                        (ControlView::Nak { remote_id, reason }, rest),
                    ),
                    Err(e) => Err(e),
                }
            } else if tag == 2 {
                match <(Id, (Identity, Vec<u8>)) as Codec>::decoding(rest) {
                    Ok(((local_id, (identity, hello)), rest)) => Ok(
                        (ControlView::Connect { local_id, identity, hello }, rest),
                    ),
                    Err(e) => Err(e),
                }
            } else if tag == 3 {
                match <Id as Codec>::decoding(rest) {
                    Ok((remote_id, rest)) => Ok((ControlView::Reset { remote_id }, rest)),
                    Err(e) => Err(e),
                }
            } else {
                Err(PostcardError::SerdeDeCustom)
            },
            Err(e) => Err(e),
        }
    }

    fn to_vec(&self) -> (r: Vec<u8>) {
        match self {
            ControlMessage::Ack { local_id, remote_id } => (0u32, (*local_id, *remote_id)).to_vec(),
            ControlMessage::Nak { remote_id, reason } => (1u32, (*remote_id, *reason)).to_vec(),
            ControlMessage::Connect { local_id, identity, hello } => {
                let mut what = identity.to_vec();
                push(&mut what, hello);
                let mut fields = local_id.to_vec();
                fields.append(&mut what);
                let mut out = 2u32.to_vec();
                out.append(&mut fields);
                out
            },
            ControlMessage::Reset { remote_id } => (3u32, *remote_id).to_vec(),
        }
    }

    fn take_from_bytes(bytes: &[u8]) -> (r: Result<(ControlMessage, &[u8]), PostcardError>) {
        match <u32 as Codec>::take_from_bytes(bytes) {
            Ok((tag, rest)) => if tag == 0 {
                match <(Id, Id) as Codec>::take_from_bytes(rest) {
                    Ok(((local_id, remote_id), rest)) => Ok(
                        (ControlMessage::Ack { local_id, remote_id }, rest),
                    ),
                    Err(e) => Err(e),
                }
            } else if tag == 1 {
                match <(Id, Nak) as Codec>::take_from_bytes(rest) {
                    Ok(((remote_id, reason), rest)) => Ok(
                        (ControlMessage::Nak { remote_id, reason }, rest),
                    ),
                    Err(e) => Err(e),
                }
            } else if tag == 2 {
                match <(Id, (Identity, Vec<u8>)) as Codec>::take_from_bytes(rest) {
                    Ok(((local_id, (identity, hello)), rest)) => Ok(
                        (ControlMessage::Connect { local_id, identity, hello }, rest),
                    ),
                    Err(e) => Err(e),
                }
            } else if tag == 3 {
                match <Id as Codec>::take_from_bytes(rest) {
                    Ok((remote_id, rest)) => Ok((ControlMessage::Reset { remote_id }, rest)),
                    Err(e) => Err(e),
                }
            } else {
                Err(PostcardError::SerdeDeCustom)
            },
            Err(e) => Err(e),
        }
    }

    proof fn round_trip(v: ControlView, rest: Seq<u8>) {
        match v {
            ControlView::Ack { local_id, remote_id } => {
                <(u32, (Id, Id)) as Codec>::round_trip((0, (local_id, remote_id)), rest);
            },
            ControlView::Nak { remote_id, reason } => {
                <(u32, (Id, Nak)) as Codec>::round_trip((1, (remote_id, reason)), rest);
            },
            ControlView::Connect { local_id, identity, hello } => {
                <(u32, (Id, (Identity, Vec<u8>))) as Codec>::round_trip(
                    (2, (local_id, (identity, hello))),
                    rest,
                );
            },
            ControlView::Reset { remote_id } => {
                <(u32, Id) as Codec>::round_trip((3, remote_id), rest);
            },
        }
    }
}

impl Codec for Message {
    open spec fn encodable(v: MessageView) -> bool {
        match v {
            MessageView::Control(message) => <ControlMessage as Codec>::encodable(message),
            MessageView::Data { local_id, remote_id, data } => local_id.valid() && remote_id.valid()
                && <Vec<u8> as Codec>::encodable(data),
        }
    }

    open spec fn encoding(v: MessageView) -> Seq<u8> {
        match v {
            MessageView::Control(message) => <(u32, ControlMessage) as Codec>::encoding(
                (0, message),
            ),
            MessageView::Data { local_id, remote_id, data } => <(
                u32,
                (Id, (Id, Vec<u8>)),
            ) as Codec>::encoding((1, (local_id, (remote_id, data)))),
        }
    }

    open spec fn decoding(bytes: Seq<u8>) -> Result<(MessageView, Seq<u8>), PostcardError> {
        match <u32 as Codec>::decoding(bytes) {
            Ok((tag, rest)) => if tag == 0 {
                match <ControlMessage as Codec>::decoding(rest) {
                    Ok((message, rest)) => Ok((MessageView::Control(message), rest)),
                    Err(e) => Err(e),
                }
            } else if tag == 1 {
                match <(Id, (Id, Vec<u8>)) as Codec>::decoding(rest) {
                    Ok(((local_id, (remote_id, data)), rest)) => Ok(
                        (MessageView::Data { local_id, remote_id, data }, rest),
                    ),
                    Err(e) => Err(e),
                }
            } else {
                Err(PostcardError::SerdeDeCustom)
            },
            Err(e) => Err(e),
        }
    }

    fn to_vec(&self) -> (r: Vec<u8>) {
        match self {
            Message::Control(message) => {
                let mut out = 0u32.to_vec();
                push(&mut out, message);
                out
            },
            Message::Data { local_id, remote_id, data } => {
                let mut rest = remote_id.to_vec();
                push(&mut rest, data);
                let mut fields = local_id.to_vec();
                fields.append(&mut rest);
                let mut out = 1u32.to_vec();
                out.append(&mut fields);
                out
            },
        }
    }

    fn take_from_bytes(bytes: &[u8]) -> (r: Result<(Message, &[u8]), PostcardError>) {
        match <u32 as Codec>::take_from_bytes(bytes) {
            Ok((tag, rest)) => if tag == 0 {
                match <ControlMessage as Codec>::take_from_bytes(rest) {
                    Ok((message, rest)) => Ok((Message::Control(message), rest)),
                    Err(e) => Err(e),
                }
            } else if tag == 1 {
                match <(Id, (Id, Vec<u8>)) as Codec>::take_from_bytes(rest) {
                    Ok(((local_id, (remote_id, data)), rest)) => Ok(
                        (Message::Data { local_id, remote_id, data }, rest),
                    ),
                    Err(e) => Err(e),
                }
            } else {
                Err(PostcardError::SerdeDeCustom)
            },
            Err(e) => Err(e),
        }
    }

    proof fn round_trip(v: MessageView, rest: Seq<u8>) {
        match v {
            MessageView::Control(message) => {
                <(u32, ControlMessage) as Codec>::round_trip((0, message), rest);
            },
            MessageView::Data { local_id, remote_id, data } => {
                <(u32, (Id, (Id, Vec<u8>))) as Codec>::round_trip(
                    (1, (local_id, (remote_id, data))),
                    rest,
                );
            },
        }
    }
}

/// A message that is sent is received as it was.
pub proof fn message_round_trip(message: MessageView)
    requires
        <Message as Codec>::encodable(message),
    ensures
        <Message as Codec>::decoding(<Message as Codec>::encoding(message)) == Ok::<
            (MessageView, Seq<u8>),
            PostcardError,
        >((message, Seq::empty())),
{
    <Message as Codec>::round_trip(message, Seq::empty());
    assert(<Message as Codec>::encoding(message) + Seq::<u8>::empty()
        =~= <Message as Codec>::encoding(message));
}

/// Each message has just the identifiers that it was made with: a request that of the
/// sender, a refusal and a reset that of the receiver, and the others both.
pub proof fn messages_name_both_ends_as_the_sender_sees_them(
    local_id: Id,
    remote_id: Id,
    identity: IdentityView,
    bytes: Seq<u8>,
    reason: Nak,
)
    ensures
        ({
            let connect = MessageView::Control(
                ControlView::Connect { local_id, identity, hello: bytes },
            ).link_id();
            let data = MessageView::Data { local_id, remote_id, data: bytes }.link_id();
            let ack = MessageView::Control(ControlView::Ack { local_id, remote_id }).link_id();
            let nak = MessageView::Control(ControlView::Nak { remote_id, reason }).link_id();
            let reset = MessageView::Control(ControlView::Reset { remote_id }).link_id();
            &&& connect.local == Some(local_id) && connect.remote is None
            &&& data.local == Some(local_id) && data.remote == Some(remote_id)
            &&& ack == data
            &&& nak.local is None && nak.remote == Some(remote_id)
            &&& reset == nak
        }),
{
}

/// A message is laid out as the number of its kind, and its fields in order.
pub proof fn messages_are_laid_out_in_order(
    local_id: Id,
    remote_id: Id,
    identity: IdentityView,
    bytes: Seq<u8>,
    n: usize,
)
    requires
        1 <= local_id.number() <= u16::MAX,
        1 <= remote_id.number() <= u16::MAX,
    ensures
        ({
            let local = varint(local_id.number());
            let remote = varint(remote_id.number());
            let control = |message: ControlView|
                <Message as Codec>::encoding(MessageView::Control(message));
            let nak = |reason: Nak| control(ControlView::Nak { remote_id, reason });
            &&& <Message as Codec>::encoding(
                MessageView::Data { local_id, remote_id, data: bytes },
            ) == varint(1) + (local + (remote + counted(bytes)))
            &&& control(ControlView::Ack { local_id, remote_id }) =~= varint(0) + (varint(0) + (local
                + remote))
            &&& nak(Nak::ConnTableFull(n)) =~= varint(0) + (varint(1) + (remote + (varint(0)
                + varint(n as nat))))
            &&& nak(Nak::NotFound) =~= varint(0) + (varint(1) + (remote + varint(1)))
            &&& nak(Nak::Rejected()) =~= varint(0) + (varint(1) + (remote + varint(2)))
            &&& control(ControlView::Connect { local_id, identity, hello: bytes }) =~= varint(0) + (
            varint(2) + (local + (counted(identity.id) + (varint(0) + counted(
                encode_utf8(identity.name),
            )) + counted(bytes))))
            &&& control(ControlView::Reset { remote_id }) =~= varint(0) + (varint(3) + remote)
        }),
{
}

/// Numbers that belong to no message, or to no reason, are refused.
pub proof fn messages_that_do_not_exist_are_refused(bytes: Seq<u8>)
    ensures
        <u32 as Codec>::decoding(bytes) matches Ok((tag, rest)) ==> {
            &&& tag > 1 ==> <Message as Codec>::decoding(bytes) == Err::<
                (MessageView, Seq<u8>),
                PostcardError,
            >(PostcardError::SerdeDeCustom)
            &&& tag > 3 ==> <ControlMessage as Codec>::decoding(bytes) == Err::<
                (ControlView, Seq<u8>),
                PostcardError,
            >(PostcardError::SerdeDeCustom)
            &&& tag > 2 ==> <Nak as Codec>::decoding(bytes) == Err::<
                (Nak, Seq<u8>),
                PostcardError,
            >(PostcardError::SerdeDeCustom)
        },
{
}

} // verus!
