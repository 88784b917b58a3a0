//! Frames, their headers, and the bytes they travel as.
use crate::codec::{copy_to_slice, counted, from_bytes, push, varint, Codec, PostcardError};
use crate::decode::{DecodeError, DecodeErrorKind, DecodeResult};
use crate::id::{Id, LinkId};
use crate::registry::{Identity, IdentityView};
use vstd::prelude::*;
use vstd::string::StringExecFns;
use vstd::utf8::encode_utf8;

verus! {

/// A frame consists of a message header, followed by a message body of zero or
/// more bytes.
#[derive(Debug, PartialEq, Eq)]
pub struct Frame<T> {
    pub header: Header,
    pub body: T,
}

/// Describes the type of message contained by a [`Frame`], as well as the
/// identifiers of the connection that the frame is associated with.
#[derive(Debug, PartialEq, Eq)]
#[allow(inconsistent_fields)]
pub enum Header {
    /// Sent to initiate a connection to a remote service.
    Connect { local_id: Id, identity: Identity },
    /// A data frame on an established connection.
    Data { local_id: Id, remote_id: Id },
    /// Sent to acknowledge that a remote-initiated connection has been accepted
    /// by the server. It has no body.
    Ack {
        /// The identifier assigned to the new connection by the server.
        local_id: Id,
        /// The identifier sent by the remote peer in its `CONNECT` frame.
        remote_id: Id,
    },
    /// Sent to indicate that a remote-initiated connection could *not* be
    /// accepted by the server.
    ///
    /// If the reason is [`Rejection::ServiceRejected`], the frame may have a
    /// body that holds an error of the service.
    Reject {
        /// The identifier sent by the remote peer in its `CONNECT` frame.
        remote_id: Id,
        /// Why the connection was not accepted.
        reason: Rejection,
    },
    /// Sent to end a connection.
    Reset { remote_id: Id, reason: Reset },
}

/// Describes why a connection was not accepted.
#[derive(Copy, Clone, Debug, PartialEq, Eq, Structural)]
pub enum Rejection {
    /// The server cannot support any additional connections.
    ConnTableFull(usize),
    /// No service matching the identity in the `CONNECT` frame exists on the
    /// server.
    NotFound,
    /// The connection was rejected by the service.
    ServiceRejected,
    /// The connection was rejected because data could not be decoded.
    DecodeError(DecodeError),
}

/// Describes why a connection was reset.
#[derive(Copy, Clone, Debug, PartialEq, Eq, Structural)]
pub enum Reset {
    /// The peer "just wanted to" reset the connection.
    BecauseISaidSo,
    /// The peer could not decode a `DATA` frame that it received.
    YouDoneGoofed(DecodeError),
    /// A `DATA` or `ACK` frame was received on a connection that did not exist.
    NoSuchConn,
    /// A `CONNECT` or `ACK` frame was received on a connection that was already
    /// established.
    YesSuchConn,
    /// The peer is shutting down its interface on this wire.
    GoAway,
}

/// Why a frame was not accepted.
#[derive(Copy, Clone, Debug, PartialEq, Eq, Structural)]
pub enum Nak {
    /// A frame was rejected because it could not be decoded successfully.
    DecodeError(DecodeError),
    /// The local identifier sent by the remote does not exist.
    UnknownLocalId(Id),
    /// The remote identifier sent by the remote does not correspond to an
    /// existing stream.
    UnknownRemoteId(Id),
}

/// A frame that came in from the wire.
pub type InboundFrame<'data> = Frame<&'data [u8]>;

/// A frame to be sent on the wire.
pub type OutboundFrame = Frame<OutboundData>;

/// The body of a frame to be sent, in serialized form.
#[derive(Debug, PartialEq, Eq)]
pub enum OutboundData {
    /// There is no body.
    Empty,
    /// A message on an established connection.
    Data(Vec<u8>),
    /// The error of a service that rejected a connection.
    Rejected(Vec<u8>),
    /// The greeting of a client to a service.
    Hello(Vec<u8>),
}

/// A header, with its parts taken by their views.
#[allow(inconsistent_fields)]
pub enum HeaderView {
    Connect { local_id: Id, identity: IdentityView },
    Data { local_id: Id, remote_id: Id },
    Ack { local_id: Id, remote_id: Id },
    Reject { remote_id: Id, reason: Rejection },
    Reset { remote_id: Id, reason: Reset },
}

impl View for Header {
    type V = HeaderView;

    open spec fn view(&self) -> HeaderView {
        match *self {
            Header::Connect { local_id, identity } => HeaderView::Connect {
                local_id,
                identity: identity@,
            },
            Header::Data { local_id, remote_id } => HeaderView::Data { local_id, remote_id },
            Header::Ack { local_id, remote_id } => HeaderView::Ack { local_id, remote_id },
            Header::Reject { remote_id, reason } => HeaderView::Reject { remote_id, reason },
            Header::Reset { remote_id, reason } => HeaderView::Reset { remote_id, reason },
        }
    }
}

impl View for OutboundData {
    type V = Seq<u8>;

    /// The bytes of the body.
    open spec fn view(&self) -> Seq<u8> {
        match *self {
            OutboundData::Empty => Seq::empty(),
            OutboundData::Data(bytes) => bytes@,
            OutboundData::Rejected(bytes) => bytes@,
            OutboundData::Hello(bytes) => bytes@,
        }
    }
}

impl View for Rejection {
    type V = Rejection;

    open spec fn view(&self) -> Rejection {
        *self
    }
}

impl View for Nak {
    type V = Nak;

    open spec fn view(&self) -> Nak {
        *self
    }
}

impl View for Reset {
    type V = Reset;

    open spec fn view(&self) -> Reset {
        *self
    }
}

impl HeaderView {
    /// The identifiers that the header holds, as the sender sees them.
    pub open spec fn link_id(self) -> LinkId {
        match self {
            HeaderView::Connect { local_id, identity } => LinkId {
                local: Some(local_id),
                remote: None,
            },
            HeaderView::Data { local_id, remote_id } => LinkId {
                local: Some(local_id),
                remote: Some(remote_id),
            },
            HeaderView::Ack { local_id, remote_id } => LinkId {
                local: Some(local_id),
                remote: Some(remote_id),
            },
            HeaderView::Reject { remote_id, reason } => LinkId {
                local: None,
                remote: Some(remote_id),
            },
            HeaderView::Reset { remote_id, reason } => LinkId {
                local: None,
                remote: Some(remote_id),
            },
        }
    }

    /// Whether a frame with this header may have a body.
    pub open spec fn has_body(self) -> bool {
        match self {
            HeaderView::Connect { local_id, identity } => true,
            HeaderView::Data { local_id, remote_id } => true,
            HeaderView::Reject { remote_id, reason } => reason == Rejection::ServiceRejected,
            _ => false,
        }
    }
}

/// No header belongs to the link of the interface itself.
pub proof fn no_header_is_for_the_interface(header: HeaderView)
    ensures
        !header.link_id().spec_interface(),
{
}

impl Header {
    /// The identifiers that the header holds, as the sender sees them.
    pub fn link_id(&self) -> (r: LinkId)
        ensures
            r == self@.link_id(),
    {
        match self {
            Header::Connect { local_id, .. } => LinkId { local: Some(*local_id), remote: None },
            Header::Data { local_id, remote_id } => LinkId {
                local: Some(*local_id),
                remote: Some(*remote_id),
            },
            Header::Ack { local_id, remote_id } => LinkId {
                local: Some(*local_id),
                remote: Some(*remote_id),
            },
            Header::Reject { remote_id, .. } => LinkId { local: None, remote: Some(*remote_id) },
            Header::Reset { remote_id, .. } => LinkId { local: None, remote: Some(*remote_id) },
        }
    }

    /// Returns `true` if a frame with this header may have a body.
    pub fn has_body(&self) -> (r: bool)
        ensures
            r == self@.has_body(),
    {
        match self {
            Header::Connect { .. } => true,
            Header::Data { .. } => true,
            Header::Reject { reason, .. } => match reason {
                Rejection::ServiceRejected => true,
                _ => false,
            },
            _ => false,
        }
    }
}

impl Clone for Header {
    fn clone(&self) -> (r: Header)
        ensures
            r@ == self@,
    {
        match self {
            Header::Connect { local_id, identity } => Header::Connect {
                local_id: *local_id,
                identity: identity.clone(),
            },
            Header::Data { local_id, remote_id } => Header::Data {
                local_id: *local_id,
                remote_id: *remote_id,
            },
            Header::Ack { local_id, remote_id } => Header::Ack {
                local_id: *local_id,
                remote_id: *remote_id,
            },
            Header::Reject { remote_id, reason } => Header::Reject {
                remote_id: *remote_id,
                reason: *reason,
            },
            Header::Reset { remote_id, reason } => Header::Reset {
                remote_id: *remote_id,
                reason: *reason,
            },
        }
    }
}

// ---------------------------------------------------------------------------
// The bytes of a header
// ---------------------------------------------------------------------------

impl Codec for Rejection {
    open spec fn encodable(v: Rejection) -> bool {
        true
    }

    open spec fn encoding(v: Rejection) -> Seq<u8> {
        match v {
            Rejection::ConnTableFull(n) => <(u32, usize) as Codec>::encoding((0, n)),
            Rejection::NotFound => <u32 as Codec>::encoding(1),
            Rejection::ServiceRejected => <u32 as Codec>::encoding(2),
            Rejection::DecodeError(e) => <(u32, DecodeError) as Codec>::encoding((3, e)),
        }
    }

    open spec fn decoding(bytes: Seq<u8>) -> Result<(Rejection, Seq<u8>), PostcardError> {
        match <u32 as Codec>::decoding(bytes) {
            Ok((tag, rest)) => if tag == 0 {
                match <usize as Codec>::decoding(rest) {
                    Ok((n, rest)) => Ok((Rejection::ConnTableFull(n), rest)),
                    Err(e) => Err(e),
                }
            } else if tag == 1 {
                Ok((Rejection::NotFound, rest))
            } else if tag == 2 {
                Ok((Rejection::ServiceRejected, rest))
            } else if tag == 3 {
                match <DecodeError as Codec>::decoding(rest) {
                    Ok((error, rest)) => Ok((Rejection::DecodeError(error), rest)),
                    Err(e) => Err(e),
                }
            } else {
                Err(PostcardError::SerdeDeCustom)
            },
            Err(e) => Err(e),
        }
    }

    fn to_vec(&self) -> (r: Vec<u8>) {
        match self {
            Rejection::ConnTableFull(n) => (0u32, *n).to_vec(),
            Rejection::NotFound => 1u32.to_vec(),
            Rejection::ServiceRejected => 2u32.to_vec(),
            Rejection::DecodeError(error) => (3u32, *error).to_vec(),
        }
    }

    fn take_from_bytes(bytes: &[u8]) -> (r: Result<(Rejection, &[u8]), PostcardError>) {
        match <u32 as Codec>::take_from_bytes(bytes) {
            Ok((tag, rest)) => if tag == 0 {
                match <usize as Codec>::take_from_bytes(rest) {
                    Ok((n, rest)) => Ok((Rejection::ConnTableFull(n), rest)),
                    Err(e) => Err(e),
                }
            } else if tag == 1 {
                Ok((Rejection::NotFound, rest))
            } else if tag == 2 {
                Ok((Rejection::ServiceRejected, rest))
            } else if tag == 3 {
                match <DecodeError as Codec>::take_from_bytes(rest) {
                    Ok((error, rest)) => Ok((Rejection::DecodeError(error), rest)),
                    Err(e) => Err(e),
                }
            } else {
                Err(PostcardError::SerdeDeCustom)
            },
            Err(e) => Err(e),
        }
    }

    proof fn round_trip(v: Rejection, rest: Seq<u8>) {
        match v {
            Rejection::ConnTableFull(n) => {
                <(u32, usize) as Codec>::round_trip((0, n), rest);
            },
            Rejection::NotFound => {
                <u32 as Codec>::round_trip(1, rest);
            },
            Rejection::ServiceRejected => {
                <u32 as Codec>::round_trip(2, rest);
            },
            Rejection::DecodeError(error) => {
                <(u32, DecodeError) as Codec>::round_trip((3, error), rest);
            },
        }
    }
}

impl Codec for Nak {
    open spec fn encodable(v: Nak) -> bool {
        match v {
            Nak::DecodeError(e) => true,
            Nak::UnknownLocalId(id) => id.valid(),
            Nak::UnknownRemoteId(id) => id.valid(),
        }
    }

    open spec fn encoding(v: Nak) -> Seq<u8> {
        match v {
            Nak::DecodeError(e) => <(u32, DecodeError) as Codec>::encoding((0, e)),
            Nak::UnknownLocalId(id) => <(u32, Id) as Codec>::encoding((1, id)),
            Nak::UnknownRemoteId(id) => <(u32, Id) as Codec>::encoding((2, id)),
        }
    }

    open spec fn decoding(bytes: Seq<u8>) -> Result<(Nak, Seq<u8>), PostcardError> {
        match <u32 as Codec>::decoding(bytes) {
            Ok((tag, rest)) => if tag == 0 {
                match <DecodeError as Codec>::decoding(rest) {
                    Ok((error, rest)) => Ok((Nak::DecodeError(error), rest)),
                    Err(e) => Err(e),
                }
            } else if tag == 1 || tag == 2 {
                match <Id as Codec>::decoding(rest) {
                    Ok((id, rest)) => if tag == 1 {
                        Ok((Nak::UnknownLocalId(id), rest))
                    } else {
                        Ok((Nak::UnknownRemoteId(id), rest))
                    },
                    Err(e) => Err(e),
                }
            } else {
                Err(PostcardError::SerdeDeCustom)
            },
            Err(e) => Err(e),
        }
    }

    fn to_vec(&self) -> (r: Vec<u8>) {
        match self {
            Nak::DecodeError(error) => (0u32, *error).to_vec(),
            Nak::UnknownLocalId(id) => (1u32, *id).to_vec(),
            Nak::UnknownRemoteId(id) => (2u32, *id).to_vec(),
        }
    }

    fn take_from_bytes(bytes: &[u8]) -> (r: Result<(Nak, &[u8]), PostcardError>) {
        match <u32 as Codec>::take_from_bytes(bytes) {
            Ok((tag, rest)) => if tag == 0 {
                match <DecodeError as Codec>::take_from_bytes(rest) {
                    Ok((error, rest)) => Ok((Nak::DecodeError(error), rest)),
                    Err(e) => Err(e),
                }
            } else if tag == 1 || tag == 2 {
                match <Id as Codec>::take_from_bytes(rest) {
                    Ok((id, rest)) => if tag == 1 {
                        Ok((Nak::UnknownLocalId(id), rest))
                    } else {
                        Ok((Nak::UnknownRemoteId(id), rest))
                    },
                    Err(e) => Err(e),
                }
            } else {
                Err(PostcardError::SerdeDeCustom)
            },
            Err(e) => Err(e),
        }
    }

    proof fn round_trip(v: Nak, rest: Seq<u8>) {
        match v {
            Nak::DecodeError(error) => {
                <(u32, DecodeError) as Codec>::round_trip((0, error), rest);
            },
            Nak::UnknownLocalId(id) => {
                <(u32, Id) as Codec>::round_trip((1, id), rest);
            },
            Nak::UnknownRemoteId(id) => {
                <(u32, Id) as Codec>::round_trip((2, id), rest);
            },
        }
    }
}

impl Codec for Reset {
    open spec fn encodable(v: Reset) -> bool {
        true
    }

    open spec fn encoding(v: Reset) -> Seq<u8> {
        match v {
            Reset::BecauseISaidSo => <u32 as Codec>::encoding(0),
            Reset::YouDoneGoofed(e) => <(u32, DecodeError) as Codec>::encoding((1, e)),
            Reset::NoSuchConn => <u32 as Codec>::encoding(2),
            Reset::YesSuchConn => <u32 as Codec>::encoding(3),
            Reset::GoAway => <u32 as Codec>::encoding(4),
        }
    }

    open spec fn decoding(bytes: Seq<u8>) -> Result<(Reset, Seq<u8>), PostcardError> {
        match <u32 as Codec>::decoding(bytes) {
            Ok((tag, rest)) => if tag == 0 {
                Ok((Reset::BecauseISaidSo, rest))
            } else if tag == 1 {
                match <DecodeError as Codec>::decoding(rest) {
                    Ok((error, rest)) => Ok((Reset::YouDoneGoofed(error), rest)),
                    Err(e) => Err(e),
                }
            } else if tag == 2 {
                Ok((Reset::NoSuchConn, rest))
            } else if tag == 3 {
                Ok((Reset::YesSuchConn, rest))
            } else if tag == 4 {
                Ok((Reset::GoAway, rest))
            } else {
                Err(PostcardError::SerdeDeCustom)
            },
            Err(e) => Err(e),
        }
    }

    fn to_vec(&self) -> (r: Vec<u8>) {
        match self {
            Reset::BecauseISaidSo => 0u32.to_vec(),
            Reset::YouDoneGoofed(error) => (1u32, *error).to_vec(),
            Reset::NoSuchConn => 2u32.to_vec(),
            Reset::YesSuchConn => 3u32.to_vec(),
            Reset::GoAway => 4u32.to_vec(),
        }
    }

    fn take_from_bytes(bytes: &[u8]) -> (r: Result<(Reset, &[u8]), PostcardError>) {
        match <u32 as Codec>::take_from_bytes(bytes) {
            Ok((tag, rest)) => if tag == 0 {
                Ok((Reset::BecauseISaidSo, rest))
            } else if tag == 1 {
                match <DecodeError as Codec>::take_from_bytes(rest) {
                    Ok((error, rest)) => Ok((Reset::YouDoneGoofed(error), rest)),
                    Err(e) => Err(e),
                }
            } else if tag == 2 {
                Ok((Reset::NoSuchConn, rest))
            } else if tag == 3 {
                Ok((Reset::YesSuchConn, rest))
            } else if tag == 4 {
                Ok((Reset::GoAway, rest))
            } else {
                Err(PostcardError::SerdeDeCustom)
            },
            Err(e) => Err(e),
        }
    }

    proof fn round_trip(v: Reset, rest: Seq<u8>) {
        match v {
            Reset::BecauseISaidSo => {
                <u32 as Codec>::round_trip(0, rest);
            },
            Reset::YouDoneGoofed(error) => {
                <(u32, DecodeError) as Codec>::round_trip((1, error), rest);
            },
            Reset::NoSuchConn => {
                <u32 as Codec>::round_trip(2, rest);
            },
            Reset::YesSuchConn => {
                <u32 as Codec>::round_trip(3, rest);
            },
            Reset::GoAway => {
                <u32 as Codec>::round_trip(4, rest);
            },
        }
    }
}

impl Codec for Header {
    open spec fn encodable(v: HeaderView) -> bool {
        match v {
            HeaderView::Connect { local_id, identity } => local_id.valid()
                && <Identity as Codec>::encodable(identity),
            HeaderView::Data { local_id, remote_id } => local_id.valid() && remote_id.valid(),
            HeaderView::Ack { local_id, remote_id } => local_id.valid() && remote_id.valid(),
            HeaderView::Reject { remote_id, reason } => remote_id.valid(),
            HeaderView::Reset { remote_id, reason } => remote_id.valid(),
        }
    }

    open spec fn encoding(v: HeaderView) -> Seq<u8> {
        match v {
            HeaderView::Connect { local_id, identity } => <u32 as Codec>::encoding(0)
                + <(Id, Identity) as Codec>::encoding((local_id, identity)),
            HeaderView::Data { local_id, remote_id } => <u32 as Codec>::encoding(1)
                + <(Id, Id) as Codec>::encoding((local_id, remote_id)),
            HeaderView::Ack { local_id, remote_id } => <u32 as Codec>::encoding(2)
                + <(Id, Id) as Codec>::encoding((local_id, remote_id)),
            HeaderView::Reject { remote_id, reason } => <u32 as Codec>::encoding(3)
                + <(Id, Rejection) as Codec>::encoding((remote_id, reason)),
            HeaderView::Reset { remote_id, reason } => <u32 as Codec>::encoding(4)
                + <(Id, Reset) as Codec>::encoding((remote_id, reason)),
        }
    }

    open spec fn decoding(bytes: Seq<u8>) -> Result<(HeaderView, Seq<u8>), PostcardError> {
        match <u32 as Codec>::decoding(bytes) {
            Ok((tag, rest)) => if tag == 0 {
                match <(Id, Identity) as Codec>::decoding(rest) {
                    Ok(((local_id, identity), rest)) => Ok(
                        (HeaderView::Connect { local_id, identity }, rest),
                    ),
                    Err(e) => Err(e),
                }
            } else if tag == 1 || tag == 2 {
                match <(Id, Id) as Codec>::decoding(rest) {
                    Ok(((local_id, remote_id), rest)) => if tag == 1 {
                        Ok((HeaderView::Data { local_id, remote_id }, rest))
                    } else {
                        Ok((HeaderView::Ack { local_id, remote_id }, rest))
                    },
                    Err(e) => Err(e),
                }
            } else if tag == 3 {
                match <(Id, Rejection) as Codec>::decoding(rest) {
                    Ok(((remote_id, reason), rest)) => Ok(
                        (HeaderView::Reject { remote_id, reason }, rest),
                    ),
                    Err(e) => Err(e),
                }
            } else if tag == 4 {
                match <(Id, Reset) as Codec>::decoding(rest) {
                    Ok(((remote_id, reason), rest)) => Ok(
                        (HeaderView::Reset { remote_id, reason }, rest),
                    ),
                    Err(e) => Err(e),
                }
            } else {
                Err(PostcardError::SerdeDeCustom)
            },
            Err(e) => Err(e),
        }
    }

    fn to_vec(&self) -> (r: Vec<u8>) {
        match self {
            Header::Connect { local_id, identity } => {
                let mut out = 0u32.to_vec();
                let mut fields = local_id.to_vec();
                push(&mut fields, identity);
                out.append(&mut fields);
                out
            },
            Header::Data { local_id, remote_id } => {
                let mut out = 1u32.to_vec();
                push(&mut out, &(*local_id, *remote_id));
                out
            },
            Header::Ack { local_id, remote_id } => {
                let mut out = 2u32.to_vec();
                push(&mut out, &(*local_id, *remote_id));
                out
            },
            Header::Reject { remote_id, reason } => {
                let mut out = 3u32.to_vec();
                push(&mut out, &(*remote_id, *reason));
                out
            },
            Header::Reset { remote_id, reason } => {
                let mut out = 4u32.to_vec();
                push(&mut out, &(*remote_id, *reason));
                out
            },
        }
    }

    fn take_from_bytes(bytes: &[u8]) -> (r: Result<(Header, &[u8]), PostcardError>) {
        match <u32 as Codec>::take_from_bytes(bytes) {
            Ok((tag, rest)) => if tag == 0 {
                match <(Id, Identity) as Codec>::take_from_bytes(rest) {
                    Ok(((local_id, identity), rest)) => Ok(
                        (Header::Connect { local_id, identity }, rest),
                    ),
                    Err(e) => Err(e),
                }
            } else if tag == 1 || tag == 2 {
                match <(Id, Id) as Codec>::take_from_bytes(rest) {
                    Ok(((local_id, remote_id), rest)) => if tag == 1 {
                        Ok((Header::Data { local_id, remote_id }, rest))
                    } else {
                        Ok((Header::Ack { local_id, remote_id }, rest))
                    },
                    Err(e) => Err(e),
                }
            } else if tag == 3 {
                match <(Id, Rejection) as Codec>::take_from_bytes(rest) {
                    Ok(((remote_id, reason), rest)) => Ok(
                        (Header::Reject { remote_id, reason }, rest),
                    ),
                    Err(e) => Err(e),
                }
            } else if tag == 4 {
                match <(Id, Reset) as Codec>::take_from_bytes(rest) {
                    Ok(((remote_id, reason), rest)) => Ok(
                        (Header::Reset { remote_id, reason }, rest),
                    ),
                    Err(e) => Err(e),
                }
            } else {
                Err(PostcardError::SerdeDeCustom)
            },
            Err(e) => Err(e),
        }
    }

    proof fn round_trip(v: HeaderView, rest: Seq<u8>) {
        match v {
            HeaderView::Connect { local_id, identity } => {
                <(u32, (Id, Identity)) as Codec>::round_trip((0, (local_id, identity)), rest);
            },
            HeaderView::Data { local_id, remote_id } => {
                <(u32, (Id, Id)) as Codec>::round_trip((1, (local_id, remote_id)), rest);
            },
            HeaderView::Ack { local_id, remote_id } => {
                <(u32, (Id, Id)) as Codec>::round_trip((2, (local_id, remote_id)), rest);
            },
            HeaderView::Reject { remote_id, reason } => {
                <(u32, (Id, Rejection)) as Codec>::round_trip((3, (remote_id, reason)), rest);
            },
            HeaderView::Reset { remote_id, reason } => {
                <(u32, (Id, Reset)) as Codec>::round_trip((4, (remote_id, reason)), rest);
            },
        }
    }
}

// ---------------------------------------------------------------------------
// The bytes of a frame
// ---------------------------------------------------------------------------

/// The bytes of a frame: those of the header, and then those of the body.
pub open spec fn frame_bytes(header: HeaderView, body: Seq<u8>) -> Seq<u8> {
    <Header as Codec>::encoding(header) + body
}

/// The header and the body of the frame that `bytes` stands for. Behind a
/// header that has no body nothing may follow.
pub open spec fn parse_frame(bytes: Seq<u8>) -> DecodeResult<(HeaderView, Seq<u8>)> {
    match <Header as Codec>::decoding(bytes) {
        Ok((header, body)) => if header.has_body() || body.len() == 0 {
            Ok((header, body))
        } else {
            Err(DecodeError::UnexpectedTrailingData)
        },
        Err(e) => Err(DecodeError::Header(DecodeErrorKind::spec_from_postcard(e))),
    }
}

/// A frame that is sent is received as it was: with the same header and the
/// same body.
pub proof fn frame_round_trip(header: HeaderView, body: Seq<u8>)
    requires
        <Header as Codec>::encodable(header),
        header.has_body() || body.len() == 0,
    ensures
        parse_frame(frame_bytes(header, body)) == Ok::<(HeaderView, Seq<u8>), DecodeError>(
            (header, body),
        ),
{
    <Header as Codec>::round_trip(header, body);
}

/// A frame whose header has no body is refused if anything follows the header.
pub proof fn trailing_data_is_refused(header: HeaderView, body: Seq<u8>)
    requires
        <Header as Codec>::encodable(header),
        !header.has_body(),
        body.len() > 0,
    ensures
        parse_frame(frame_bytes(header, body)) == Err::<(HeaderView, Seq<u8>), DecodeError>(
            DecodeError::UnexpectedTrailingData,
        ),
{
    <Header as Codec>::round_trip(header, body);
}

/// Two frames that may be sent have the same bytes only if they are the same.
pub proof fn frame_bytes_are_unambiguous(
    header1: HeaderView,
    body1: Seq<u8>,
    header2: HeaderView,
    body2: Seq<u8>,
)
    requires
        <Header as Codec>::encodable(header1),
        <Header as Codec>::encodable(header2),
        frame_bytes(header1, body1) == frame_bytes(header2, body2),
    ensures
        header1 == header2,
        body1 == body2,
{
    <Header as Codec>::round_trip(header1, body1);
    <Header as Codec>::round_trip(header2, body2);
}

impl<'data> Frame<&'data [u8]> {
    /// Decodes a frame. The body is the part of `frame` behind the header.
    pub fn from_bytes(frame: &'data [u8]) -> (r: DecodeResult<Frame<&'data [u8]>>)
        ensures
            match r {
                Ok(f) => parse_frame(frame@) == Ok::<(HeaderView, Seq<u8>), DecodeError>(
                    (f.header@, f.body@),
                ),
                Err(e) => parse_frame(frame@) == Err::<(HeaderView, Seq<u8>), DecodeError>(e),
            },
    {
        match <Header as Codec>::take_from_bytes(frame) {
            Ok((header, rest)) => {
                // behind a header that has no body, there is to be no data.
                if !header.has_body() && rest.len() != 0 {
                    return Err(DecodeError::UnexpectedTrailingData);
                }
                // otherwise, any trailing data is the body.
                Ok(Frame { header, body: rest })
            },
            Err(e) => Err(DecodeError::header(e)),
        }
    }
}

impl<T: Codec> Frame<T> {
    /// Decodes a frame, and its body.
    pub fn deserialize_from_bytes(buf: &[u8]) -> (r: DecodeResult<Frame<T>>)
        ensures
            match parse_frame(buf@) {
                Ok((header, body)) => match T::decoding(body) {
                    Ok((value, rest)) => r matches Ok(f) && f.header@ == header && f.body@ == value,
                    Err(e) => r == Err::<Frame<T>, DecodeError>(
                        DecodeError::Body(DecodeErrorKind::spec_from_postcard(e)),
                    ),
                },
                Err(e) => r == Err::<Frame<T>, DecodeError>(e),
            },
    {
        match Frame::<&[u8]>::from_bytes(buf) {
            Ok(frame) => match from_bytes::<T>(frame.body) {
                Ok(body) => Ok(Frame { header: frame.header, body }),
                Err(e) => Err(DecodeError::body(e)),
            },
            Err(e) => Err(e),
        }
    }
}

impl Frame<OutboundData> {
    /// A message on an established connection.
    pub fn data(remote_id: Id, local_id: Id, data: Vec<u8>) -> (r: OutboundFrame)
        ensures
            r.header == (Header::Data { local_id, remote_id }),
            r.body == OutboundData::Data(data),
    {
        Frame { header: Header::Data { local_id, remote_id }, body: OutboundData::Data(data) }
    }

    /// Accepts a connection.
    pub fn ack(local_id: Id, remote_id: Id) -> (r: OutboundFrame)
        ensures
            r.header == (Header::Ack { local_id, remote_id }),
            r.body == OutboundData::Empty,
    {
        Frame { header: Header::Ack { local_id, remote_id }, body: OutboundData::Empty }
    }

    /// Refuses a connection.
    pub fn nak(remote_id: Id, reason: Rejection) -> (r: OutboundFrame)
        ensures
            r.header == (Header::Reject { remote_id, reason }),
            r.body == OutboundData::Empty,
    {
        Frame { header: Header::Reject { remote_id, reason }, body: OutboundData::Empty }
    }

    /// Ends a connection.
    pub fn reset(remote_id: Id, reason: Reset) -> (r: OutboundFrame)
        ensures
            r.header == (Header::Reset { remote_id, reason }),
            r.body == OutboundData::Empty,
    {
        Frame { header: Header::Reset { remote_id, reason }, body: OutboundData::Empty }
    }

    /// Requests a connection.
    pub fn connect(local_id: Id, identity: Identity, hello: Vec<u8>) -> (r: OutboundFrame)
        ensures
            r.header == (Header::Connect { local_id, identity }),
            r.body == OutboundData::Hello(hello),
    {
        Frame { header: Header::Connect { local_id, identity }, body: OutboundData::Hello(hello) }
    }

    /// Encodes the frame: the header, and then the body.
    pub fn to_vec(&self) -> (r: Vec<u8>)
        ensures
            r@ == frame_bytes(self.header@, self.body@),
            <Header as Codec>::encodable(self.header@),
    {
        let mut buf = self.header.to_vec();
        let mut body = self.body.to_vec();
        buf.append(&mut body);
        buf
    }

    /// Encodes the frame into the front of `buf`, and returns that part of it.
    /// If the frame does not fit, `buf` is left as it is.
    pub fn to_slice<'buf>(&self, buf: &'buf mut [u8]) -> (r: Result<
        &'buf mut [u8],
        PostcardError,
    >)
        ensures
            match r {
                Ok(used) => {
                    let bytes = frame_bytes(self.header@, self.body@);
                    &&& bytes.len() <= old(buf)@.len()
                    &&& used@ == bytes
                    &&& final(buf)@ == final(used)@ + old(buf)@.skip(bytes.len() as int)
                },
                Err(e) => {
                    &&& frame_bytes(self.header@, self.body@).len() > old(buf)@.len()
                    &&& e == PostcardError::SerializeBufferFull
                    &&& final(buf)@ == old(buf)@
                },
            },
    {
        let bytes = self.to_vec();
        copy_to_slice(&bytes, buf)
    }
}

impl OutboundData {
    /// The bytes of the body.
    pub fn to_vec(&self) -> (r: Vec<u8>)
        ensures
            r@ == self@,
    {
        match self {
            OutboundData::Empty => Vec::new(),
            OutboundData::Data(bytes) => copy_bytes(bytes),
            OutboundData::Rejected(bytes) => copy_bytes(bytes),
            OutboundData::Hello(bytes) => copy_bytes(bytes),
        }
    }
}

fn copy_bytes(bytes: &Vec<u8>) -> (r: Vec<u8>)
    ensures
        r@ == bytes@,
{
    vstd::slice::slice_to_vec(bytes.as_slice())
}

impl Reset {
    /// The reason to end a connection on which a message came that could not be
    /// decoded.
    pub fn bad_frame(error: PostcardError) -> (r: Reset)
        ensures
            r == Reset::YouDoneGoofed(
                DecodeError::Body(DecodeErrorKind::spec_from_postcard(error)),
            ),
    {
        Reset::YouDoneGoofed(DecodeError::body(error))
    }

    /// A description of the reason.
    pub open spec fn text(self) -> Seq<char> {
        match self {
            Reset::YouDoneGoofed(e) => "you done goofed! received a bad frame: "@ + e.text(),
            Reset::NoSuchConn => "no such connection exists"@,
            Reset::YesSuchConn => "connection already exists"@,
            Reset::GoAway => "the peer is shutting down this interface, go away!"@,
            Reset::BecauseISaidSo => "because i said so"@,
        }
    }

    /// A description of the reason.
    pub fn describe(&self) -> (r: String)
        ensures
            r@ == self.text(),
    {
        match self {
            Reset::YouDoneGoofed(e) => "you done goofed! received a bad frame: ".to_owned().concat(
                e.describe().as_str(),
            ),
            Reset::NoSuchConn => "no such connection exists".to_owned(),
            Reset::YesSuchConn => "connection already exists".to_owned(),
            Reset::GoAway => "the peer is shutting down this interface, go away!".to_owned(),
            Reset::BecauseISaidSo => "because i said so".to_owned(),
        }
    }
}

// ---------------------------------------------------------------------------
// Which frames have a body, and how frames are laid out
// ---------------------------------------------------------------------------

/// Connection requests, data, and refusals by a service carry whatever body they are
/// sent with, on every connection: it arrives whole.
pub proof fn bodies_arrive_whole(
    local_id: Id,
    remote_id: Id,
    identity: IdentityView,
    body: Seq<u8>,
)
    requires
        1 <= local_id.number() <= u16::MAX,
        1 <= remote_id.number() <= u16::MAX,
        <Identity as Codec>::encodable(identity),
    ensures
        ({
            let connect = HeaderView::Connect { local_id, identity };
            let data = HeaderView::Data { local_id, remote_id };
            let refusal = HeaderView::Reject { remote_id, reason: Rejection::ServiceRejected };
            &&& parse_frame(frame_bytes(connect, body)) == Ok::<
                (HeaderView, Seq<u8>),
                DecodeError,
            >((connect, body))
            &&& parse_frame(frame_bytes(data, body)) == Ok::<(HeaderView, Seq<u8>), DecodeError>(
                (data, body),
            )
            &&& parse_frame(frame_bytes(refusal, body)) == Ok::<
                (HeaderView, Seq<u8>),
                DecodeError,
            >((refusal, body))
        }),
{
    <Header as Codec>::round_trip(HeaderView::Connect { local_id, identity }, body);
    <Header as Codec>::round_trip(HeaderView::Data { local_id, remote_id }, body);
    <Header as Codec>::round_trip(
        HeaderView::Reject { remote_id, reason: Rejection::ServiceRejected },
        body,
    );
}

/// Acknowledgements, resets and all other refusals are received as they were sent, and
/// are refused if anything follows them.
pub proof fn other_frames_have_no_body(
    local_id: Id,
    remote_id: Id,
    reset: Reset,
    rejection: Rejection,
    body: Seq<u8>,
)
    requires
        1 <= local_id.number() <= u16::MAX,
        1 <= remote_id.number() <= u16::MAX,
        !(rejection is ServiceRejected),
    ensures
        ({
            let ack = HeaderView::Ack { local_id, remote_id };
            let end = HeaderView::Reset { remote_id, reason: reset };
            let refusal = HeaderView::Reject { remote_id, reason: rejection };
            let parsed = |header: HeaderView|
                if body.len() == 0 {
                    Ok::<(HeaderView, Seq<u8>), DecodeError>((header, body))
                } else {
                    Err(DecodeError::UnexpectedTrailingData)
                };
            &&& parse_frame(frame_bytes(ack, body)) == parsed(ack)
            &&& parse_frame(frame_bytes(end, body)) == parsed(end)
            &&& parse_frame(frame_bytes(refusal, body)) == parsed(refusal)
        }),
{
    <Header as Codec>::round_trip(HeaderView::Ack { local_id, remote_id }, body);
    <Header as Codec>::round_trip(HeaderView::Reset { remote_id, reason: reset }, body);
    <Header as Codec>::round_trip(HeaderView::Reject { remote_id, reason: rejection }, body);
}

/// Each header has just the identifiers that it was made with: a request that of the
/// sender, a refusal and a reset that of the receiver, and the others both.
pub proof fn headers_name_both_ends_as_the_sender_sees_them(
    local_id: Id,
    remote_id: Id,
    identity: IdentityView,
    rejection: Rejection,
    reset: Reset,
)
    ensures
        ({
            let connect = HeaderView::Connect { local_id, identity }.link_id();
            let data = HeaderView::Data { local_id, remote_id }.link_id();
            let ack = HeaderView::Ack { local_id, remote_id }.link_id();
            let reject = HeaderView::Reject { remote_id, reason: rejection }.link_id();
            let end = HeaderView::Reset { remote_id, reason: reset }.link_id();
            &&& connect.local == Some(local_id) && connect.remote is None
            &&& data.local == Some(local_id) && data.remote == Some(remote_id)
            &&& ack == data
            &&& reject.local is None && reject.remote == Some(remote_id)
            &&& end == reject
        }),
{
}

/// A frame is laid out as the number of its kind, its fields in order, and its body.
pub proof fn frames_are_laid_out_in_order(
    local_id: Id,
    remote_id: Id,
    identity: IdentityView,
    rejection: Rejection,
    reset: Reset,
    body: Seq<u8>,
)
    requires
        1 <= local_id.number() <= u16::MAX,
        1 <= remote_id.number() <= u16::MAX,
    ensures
        ({
            let local = varint(local_id.number());
            let remote = varint(remote_id.number());
            &&& frame_bytes(HeaderView::Connect { local_id, identity }, body) == varint(0) + (local
                + (counted(identity.id) + (varint(0) + counted(encode_utf8(identity.name))))) + body
            &&& frame_bytes(HeaderView::Data { local_id, remote_id }, body) == varint(1) + (local
                + remote) + body
            &&& frame_bytes(HeaderView::Ack { local_id, remote_id }, body) == varint(2) + (local
                + remote) + body
            &&& frame_bytes(HeaderView::Reject { remote_id, reason: rejection }, body) == varint(3)
                + (remote + <Rejection as Codec>::encoding(rejection)) + body
            &&& frame_bytes(HeaderView::Reset { remote_id, reason: reset }, body) == varint(4) + (
            remote + <Reset as Codec>::encoding(reset)) + body
        }),
{
}

/// A reason is laid out as its number, and what it holds.
pub proof fn reasons_are_laid_out_in_order(n: usize, error: DecodeError, id: Id)
    requires
        1 <= id.number() <= u16::MAX,
    ensures
        <Rejection as Codec>::encoding(Rejection::ConnTableFull(n)) == varint(0) + varint(n as nat),
        <Rejection as Codec>::encoding(Rejection::NotFound) == varint(1),
        <Rejection as Codec>::encoding(Rejection::ServiceRejected) == varint(2),
        <Rejection as Codec>::encoding(Rejection::DecodeError(error)) == varint(3)
            + <DecodeError as Codec>::encoding(error),
        <Reset as Codec>::encoding(Reset::BecauseISaidSo) == varint(0),
        <Reset as Codec>::encoding(Reset::YouDoneGoofed(error)) == varint(1)
            + <DecodeError as Codec>::encoding(error),
        <Reset as Codec>::encoding(Reset::NoSuchConn) == varint(2),
        <Reset as Codec>::encoding(Reset::YesSuchConn) == varint(3),
        <Reset as Codec>::encoding(Reset::GoAway) == varint(4),
        <Nak as Codec>::encoding(Nak::DecodeError(error)) == varint(0)
            + <DecodeError as Codec>::encoding(error),
        <Nak as Codec>::encoding(Nak::UnknownLocalId(id)) == varint(1) + varint(id.number()),
        <Nak as Codec>::encoding(Nak::UnknownRemoteId(id)) == varint(2) + varint(id.number()),
{
}

/// What does not start with the number of a kind is refused, and so is a frame one of
/// whose fields cannot be decoded, with what is wrong with the number or the field.
pub proof fn malformed_headers_are_refused(bytes: Seq<u8>, e: PostcardError)
    ensures
        <u32 as Codec>::decoding(bytes) == Err::<(u32, Seq<u8>), PostcardError>(e) ==> parse_frame(
            bytes,
        ) == Err::<(HeaderView, Seq<u8>), DecodeError>(
            DecodeError::Header(DecodeErrorKind::spec_from_postcard(e)),
        ),
        <u32 as Codec>::decoding(bytes) matches Ok((tag, rest)) ==> {
            &&& tag > 4 ==> parse_frame(bytes) == Err::<(HeaderView, Seq<u8>), DecodeError>(
                DecodeError::Header(DecodeErrorKind::SerdeDeCustom),
            )
            &&& tag <= 4 && <Id as Codec>::decoding(rest) == Err::<(Id, Seq<u8>), PostcardError>(e)
                ==> parse_frame(bytes) == Err::<(HeaderView, Seq<u8>), DecodeError>(
                DecodeError::Header(DecodeErrorKind::spec_from_postcard(e)),
            )
        },
        parse_frame(bytes) matches Ok((header, body)) ==> exists|tag: u32, rest: Seq<u8>|
            #![trigger tag_of(header, tag), rest.len()]
            <u32 as Codec>::decoding(bytes) == Ok::<(u32, Seq<u8>), PostcardError>((tag, rest))
                && tag_of(header, tag),
{
    if let Ok((header, body)) = parse_frame(bytes) {
        if let Ok((tag, rest)) = <u32 as Codec>::decoding(bytes) {
            assert(tag_of(header, tag));
            assert(rest.len() >= 0);
        }
    }
}

/// Whether `tag` is the number of the kind of a header.
pub open spec fn tag_of(header: HeaderView, tag: u32) -> bool {
    match header {
        HeaderView::Connect { local_id, identity } => tag == 0,
        HeaderView::Data { local_id, remote_id } => tag == 1,
        HeaderView::Ack { local_id, remote_id } => tag == 2,
        HeaderView::Reject { remote_id, reason } => tag == 3,
        HeaderView::Reset { remote_id, reason } => tag == 4,
    }
}

/// Numbers that belong to no reason are refused.
pub proof fn reasons_that_do_not_exist_are_refused(bytes: Seq<u8>)
    ensures
        <u32 as Codec>::decoding(bytes) matches Ok((tag, rest)) ==> {
            &&& tag > 3 ==> <Rejection as Codec>::decoding(bytes) == Err::<
                (Rejection, Seq<u8>),
                PostcardError,
            >(PostcardError::SerdeDeCustom)
            &&& tag > 4 ==> <Reset as Codec>::decoding(bytes) == Err::<
                (Reset, Seq<u8>),
                PostcardError,
            >(PostcardError::SerdeDeCustom)
            &&& tag > 2 ==> <Nak as Codec>::decoding(bytes) == Err::<
                (Nak, Seq<u8>),
                PostcardError,
            >(PostcardError::SerdeDeCustom)
        },
{
}

/// A header is decoded field by field: what its fields decode to is what it holds, and
/// what is behind the last of them is behind the header.
pub proof fn headers_are_decoded_field_by_field(
    bytes: Seq<u8>,
    tag: u32,
    fields: Seq<u8>,
    first: Id,
    behind_first: Seq<u8>,
)
    requires
        <u32 as Codec>::decoding(bytes) == Ok::<(u32, Seq<u8>), PostcardError>((tag, fields)),
        <Id as Codec>::decoding(fields) == Ok::<(Id, Seq<u8>), PostcardError>(
            (first, behind_first),
        ),
    ensures
        tag == 0 ==> <Header as Codec>::decoding(bytes) == (match <Identity as Codec>::decoding(
            behind_first,
        ) {
            Ok((identity, rest)) => Ok((HeaderView::Connect { local_id: first, identity }, rest)),
            Err(e) => Err(e),
        }),
        tag == 1 ==> <Header as Codec>::decoding(bytes) == (match <Id as Codec>::decoding(
            behind_first,
        ) {
            Ok((second, rest)) => Ok(
                (HeaderView::Data { local_id: first, remote_id: second }, rest),
            ),
            Err(e) => Err(e),
        }),
        tag == 2 ==> <Header as Codec>::decoding(bytes) == (match <Id as Codec>::decoding(
            behind_first,
        ) {
            Ok((second, rest)) => Ok((HeaderView::Ack { local_id: first, remote_id: second }, rest)),
            Err(e) => Err(e),
        }),
        tag == 3 ==> <Header as Codec>::decoding(bytes) == (match <Rejection as Codec>::decoding(
            behind_first,
        ) {
            Ok((reason, rest)) => Ok((HeaderView::Reject { remote_id: first, reason }, rest)),
            Err(e) => Err(e),
        }),
        tag == 4 ==> <Header as Codec>::decoding(bytes) == (match <Reset as Codec>::decoding(
            behind_first,
        ) {
            Ok((reason, rest)) => Ok((HeaderView::Reset { remote_id: first, reason }, rest)),
            Err(e) => Err(e),
        }),
{
}

/// Reasons are decoded field by field: what follows their number is decoded as what they
/// hold, and what is wrong with that is wrong with the reason.
pub proof fn reasons_are_decoded_field_by_field(bytes: Seq<u8>)
    ensures
        <u32 as Codec>::decoding(bytes) matches Ok((tag, rest)) ==> {
            &&& tag == 0 ==> <Rejection as Codec>::decoding(bytes)
                == match <usize as Codec>::decoding(rest) {
                Ok((n, behind)) => Ok((Rejection::ConnTableFull(n), behind)),
                Err(e) => Err(e),
            }
            &&& tag == 1 ==> <Rejection as Codec>::decoding(bytes) == Ok::<
                (Rejection, Seq<u8>),
                PostcardError,
            >((Rejection::NotFound, rest))
            &&& tag == 2 ==> <Rejection as Codec>::decoding(bytes) == Ok::<
                (Rejection, Seq<u8>),
                PostcardError,
            >((Rejection::ServiceRejected, rest))
            &&& tag == 3 ==> <Rejection as Codec>::decoding(bytes)
                == match <DecodeError as Codec>::decoding(rest) {
                Ok((error, behind)) => Ok((Rejection::DecodeError(error), behind)),
                Err(e) => Err(e),
            }
            &&& tag == 0 ==> <Reset as Codec>::decoding(bytes) == Ok::<
                (Reset, Seq<u8>),
                PostcardError,
            >((Reset::BecauseISaidSo, rest))
            &&& tag == 1 ==> <Reset as Codec>::decoding(bytes)
                == match <DecodeError as Codec>::decoding(rest) {
                Ok((error, behind)) => Ok((Reset::YouDoneGoofed(error), behind)),
                Err(e) => Err(e),
            }
            &&& tag == 2 ==> <Reset as Codec>::decoding(bytes) == Ok::<
                (Reset, Seq<u8>),
                PostcardError,
            >((Reset::NoSuchConn, rest))
            &&& tag == 3 ==> <Reset as Codec>::decoding(bytes) == Ok::<
                (Reset, Seq<u8>),
                PostcardError,
            >((Reset::YesSuchConn, rest))
            &&& tag == 4 ==> <Reset as Codec>::decoding(bytes) == Ok::<
                (Reset, Seq<u8>),
                PostcardError,
            >((Reset::GoAway, rest))
        },
{
}

/// Each reason of a reset has its own description; that of a bad frame says what is wrong
/// with it.
pub proof fn resets_are_described(error: DecodeError)
    ensures
        Reset::BecauseISaidSo.text() == "because i said so"@,
        Reset::YouDoneGoofed(error).text() == "you done goofed! received a bad frame: "@
            + error.text(),
        Reset::NoSuchConn.text() == "no such connection exists"@,
        Reset::YesSuchConn.text() == "connection already exists"@,
        Reset::GoAway.text() == "the peer is shutting down this interface, go away!"@,
{
}

} // verus!
