//! A small registry of services, which are told of connection requests over a
//! channel.
use crate::codec::{from_bytes, Codec, Uuid};
use crate::tricky_pipe::mpsc::{Permit, Receiver, Sender, TrickyPipe};
use crate::tricky_pipe::mpsc::{DeserSender, SerReceiver};
use vstd::prelude::*;

verus! {

/// A service definition.
pub trait ServiceSocket {
    /// The message with which a client requests a connection.
    type ClientHello;

    /// What a client sends on a connection.
    type ClientSent;

    /// What the service sends on a connection.
    type ServiceSent;

    /// Why the service refuses a connection.
    type ServiceConnectError;

    /// The universally unique identifier of the service definition.
    fn uuid() -> Uuid;
}

/// The answer of a service to a connection request.
pub enum ConnectResponse<SerConErr> {
    /// The connection is established.
    Accepted,
    /// The service refuses the connection.
    Rejected(SerConErr),
}

/// Why a client has no connection to a service.
pub enum ConnectError<Svc: ServiceSocket> {
    /// There is no such service.
    ServiceNotFound,
    /// The service does not take requests any more.
    ServiceClosed,
    /// Something else is wrong.
    OtherInternal,
    /// The service refuses the connection.
    ServiceError(Svc::ServiceConnectError),
}

/// Why a client has no connection to a service, without regard to the type of the
/// service.
#[derive(Copy, Clone, Debug, PartialEq, Eq, Structural)]
pub enum ErasedConnectError {
    /// There is no such service.
    ServiceNotFound,
    /// The service does not take requests any more.
    ServiceClosed,
    /// Something else is wrong.
    OtherInternal,
    /// The service refuses the connection.
    ServiceError,
}

/// The client's end of a connection.
pub struct BidiClient<Svc: ServiceSocket> {
    pub tx: Sender<Svc::ClientSent, ()>,
    pub rx: Receiver<Svc::ServiceSent, ()>,
}

/// The client's end of a connection, for serialized messages.
pub struct ErasedBidiClient {
    pub tx: DeserSender<()>,
    pub rx: SerReceiver<()>,
}

/// A connection request, and the handle by which it is answered.
pub struct HelloReply<H, K> {
    pub hello: H,
    pub reply: K,
}

impl ErasedConnectError {
    /// The same error, without regard to the type of the service.
    pub fn from<T: ServiceSocket>(value: ConnectError<T>) -> (r: ErasedConnectError)
        ensures
            r == match value {
                ConnectError::ServiceNotFound => ErasedConnectError::ServiceNotFound,
                ConnectError::ServiceClosed => ErasedConnectError::ServiceClosed,
                ConnectError::OtherInternal => ErasedConnectError::OtherInternal,
                ConnectError::ServiceError(_) => ErasedConnectError::ServiceError,
            },
    {
        match value {
            ConnectError::ServiceNotFound => ErasedConnectError::ServiceNotFound,
            ConnectError::ServiceClosed => ErasedConnectError::ServiceClosed,
            ConnectError::OtherInternal => ErasedConnectError::OtherInternal,
            ConnectError::ServiceError(_) => ErasedConnectError::ServiceError,
        }
    }
}

/// Sends a connection request whose greeting is given as serialized bytes. If the
/// bytes do not stand for a greeting, nothing is sent.
pub fn do_send<H: Codec, K>(
    bytes: &[u8],
    reply: K,
    permit: Permit<HelloReply<H, K>, ()>,
    pipe: &mut TrickyPipe<HelloReply<H, K>, ()>,
) -> (r: Result<(), ()>)
    requires
        old(pipe).wf(),
        old(pipe)@.reserved.contains(permit.index()),
    ensures
        final(pipe).wf(),
        match H::decoding(bytes@) {
            Ok((value, rest)) => {
                &&& r is Ok
                &&& exists|hello: H| #[trigger]
                    hello@ == value && final(pipe)@ == old(pipe)@.release(permit.index()).push(
                        HelloReply { hello, reply },
                    )
            },
            Err(_) => r is Err && final(pipe)@ == old(pipe)@.release(permit.index()),
        },
{
    match from_bytes::<H>(bytes) {
        Ok(hello) => {
            permit.send(pipe, HelloReply { hello, reply });
            Ok(())
        },
        Err(_) => {
            permit.drop(pipe);
            Err(())
        },
    }
}

} // verus!
