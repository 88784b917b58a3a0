//! Services, and the identities by which they are found.
use crate::codec::{counted, push, varint, Codec, PostcardError, Uuid};
use vstd::prelude::*;
use vstd::utf8::encode_utf8;

verus! {

/// The number of bytes that the name of a service instance has at most.
pub const MAX_NAME: usize = 32;

/// The name of a service instance: a string of at most [`MAX_NAME`] bytes.
#[derive(Debug, PartialEq, Eq, Hash)]
pub struct Name {
    text: String,
}

/// What tells the instances of a service apart.
#[derive(Debug, PartialEq, Eq, Hash)]
pub enum IdentityKind {
    /// The instance has a name.
    Name(Name),
}

/// Identifies an instance of a service.
#[derive(Debug, PartialEq, Eq, Hash)]
pub struct Identity {
    id: Uuid,
    kind: IdentityKind,
}

/// A service definition.
pub trait Service {
    /// The message that a client sends to request a connection.
    type Hello;

    /// Why the service refuses a connection.
    type ConnectError;

    /// Messages sent by clients to the service.
    type ClientMsg;

    /// Messages sent by the service to its clients.
    type ServerMsg;

    /// The universally unique identifier of the service definition.
    fn uuid() -> Uuid;
}

impl View for Name {
    type V = Seq<char>;

    closed spec fn view(&self) -> Seq<char> {
        self.text@
    }
}

/// Whether `text` is short enough for a name.
pub open spec fn is_name(text: Seq<char>) -> bool {
    encode_utf8(text).len() <= MAX_NAME
}

impl Name {
    #[verifier::type_invariant]
    spec fn short(self) -> bool {
        is_name(self.text@)
    }

    /// The name `text`, if it is short enough.
    pub fn new(text: &str) -> (r: Option<Name>)
        ensures
            match r {
                Some(name) => is_name(text@) && name@ == text@,
                None => !is_name(text@),
            },
    {
        let len: usize = text.as_bytes().len();
        if len <= MAX_NAME {
            Some(Name { text: text.to_owned() })
        } else {
            None
        }
    }

    /// The text of the name.
    pub fn as_str(&self) -> (r: &str)
        ensures
            r@ == self@,
            is_name(self@),
    {
        proof {
            use_type_invariant(self);
        }
        self.text.as_str()
    }
}

impl Clone for Name {
    fn clone(&self) -> (r: Name)
        ensures
            r@ == self@,
    {
        proof {
            use_type_invariant(self);
        }
        Name { text: self.text.clone() }
    }
}

impl View for IdentityKind {
    type V = Seq<char>;

    open spec fn view(&self) -> Seq<char> {
        match *self {
            IdentityKind::Name(name) => name@,
        }
    }
}

impl IdentityKind {
    /// The instance with the given name.
    pub fn from_name(name: &str) -> (r: IdentityKind)
        requires
            is_name(name@),
        ensures
            r@ == name@,
    {
        IdentityKind::Name(Name { text: name.to_owned() })
    }
}

impl Clone for IdentityKind {
    fn clone(&self) -> (r: IdentityKind)
        ensures
            r@ == self@,
    {
        let IdentityKind::Name(name) = self;
        IdentityKind::Name(name.clone())
    }
}

/// The identity of a service instance: the identifier of the service and the
/// name of the instance.
pub struct IdentityView {
    pub id: Seq<u8>,
    pub name: Seq<char>,
}

impl View for Identity {
    type V = IdentityView;

    closed spec fn view(&self) -> IdentityView {
        IdentityView { id: self.id@, name: self.kind@ }
    }
}

impl Identity {
    /// The instance `kind` of service `S`.
    pub fn new<S: Service>(kind: IdentityKind) -> (r: Identity)
        ensures
            exists|id: Uuid| #[trigger]
                call_ensures(S::uuid, (), id) && r@ == (IdentityView { id: id@, name: kind@ }),
    {
        Identity { id: S::uuid(), kind }
    }

    /// The instance of service `S` with the given name.
    pub fn from_name<S: Service>(name: &str) -> (r: Identity)
        requires
            is_name(name@),
        ensures
            exists|id: Uuid| #[trigger]
                call_ensures(S::uuid, (), id) && r@ == (IdentityView { id: id@, name: name@ }),
    {
        Identity::new::<S>(IdentityKind::from_name(name))
    }

    /// The identifier of the service.
    pub fn uuid(&self) -> (r: &Uuid)
        ensures
            r@ == self@.id,
    {
        &self.id
    }

    /// Which instance of the service it is.
    pub fn kind(&self) -> (r: &IdentityKind)
        ensures
            r@ == self@.name,
    {
        &self.kind
    }
}

impl Clone for Identity {
    fn clone(&self) -> (r: Identity)
        ensures
            r@ == self@,
    {
        Identity { id: self.id, kind: self.kind.clone() }
    }
}

impl Codec for IdentityKind {
    open spec fn encodable(v: Seq<char>) -> bool {
        is_name(v)
    }

    open spec fn encoding(v: Seq<char>) -> Seq<u8> {
        <u32 as Codec>::encoding(0) + <String as Codec>::encoding(v)
    }

    open spec fn decoding(bytes: Seq<u8>) -> Result<(Seq<char>, Seq<u8>), PostcardError> {
        match <u32 as Codec>::decoding(bytes) {
            Ok((tag, rest)) => if tag == 0 {
                match <String as Codec>::decoding(rest) {
                    Ok((name, rest)) => if is_name(name) {
                        Ok((name, rest))
                    } else {
                        Err(PostcardError::SerdeDeCustom)
                    },
                    Err(e) => Err(e),
                }
            } else {
                Err(PostcardError::SerdeDeCustom)
            },
            Err(e) => Err(e),
        }
    }

    fn to_vec(&self) -> (r: Vec<u8>) {
        let IdentityKind::Name(name) = self;
        proof {
            use_type_invariant(name);
        }
        let mut out = 0u32.to_vec();
        push(&mut out, &name.text);
        out
    }

    fn take_from_bytes(bytes: &[u8]) -> (r: Result<(IdentityKind, &[u8]), PostcardError>) {
        match <u32 as Codec>::take_from_bytes(bytes) {
            Ok((tag, rest)) => if tag == 0 {
                match <String as Codec>::take_from_bytes(rest) {
                    Ok((name, rest)) => match Name::new(name.as_str()) {
                        Some(name) => Ok((IdentityKind::Name(name), rest)),
                        None => Err(PostcardError::SerdeDeCustom),
                    },
                    Err(e) => Err(e),
                }
            } else {
                Err(PostcardError::SerdeDeCustom)
            },
            Err(e) => Err(e),
        }
    }

    proof fn round_trip(v: Seq<char>, rest: Seq<u8>) {
        <(u32, String) as Codec>::round_trip((0, v), rest);
    }
}

impl Codec for Identity {
    open spec fn encodable(v: IdentityView) -> bool {
        <Uuid as Codec>::encodable(v.id) && <IdentityKind as Codec>::encodable(v.name)
    }

    open spec fn encoding(v: IdentityView) -> Seq<u8> {
        <Uuid as Codec>::encoding(v.id) + <IdentityKind as Codec>::encoding(v.name)
    }

    open spec fn decoding(bytes: Seq<u8>) -> Result<(IdentityView, Seq<u8>), PostcardError> {
        match <(Uuid, IdentityKind) as Codec>::decoding(bytes) {
            Ok(((id, name), rest)) => Ok((IdentityView { id, name }, rest)),
            Err(e) => Err(e),
        }
    }

    fn to_vec(&self) -> (r: Vec<u8>) {
        let mut out = self.id.to_vec();
        push(&mut out, &self.kind);
        out
    }

    fn take_from_bytes(bytes: &[u8]) -> (r: Result<(Identity, &[u8]), PostcardError>) {
        match <(Uuid, IdentityKind) as Codec>::take_from_bytes(bytes) {
            Ok(((id, kind), rest)) => Ok((Identity { id, kind }, rest)),
            Err(e) => Err(e),
        }
    }

    proof fn round_trip(v: IdentityView, rest: Seq<u8>) {
        <(Uuid, IdentityKind) as Codec>::round_trip((v.id, v.name), rest);
    }
}

/// A text is a name if it has at most 32 bytes.
pub proof fn names_have_at_most_32_bytes(text: Seq<char>)
    ensures
        is_name(text) <==> encode_utf8(text).len() <= 32,
{
}

/// An identity is laid out as the identifier of the service, behind its length, and the
/// name, behind the number of its kind and its length. A name that is too long is refused.
pub proof fn identities_are_laid_out_in_order(identity: IdentityView, bytes: Seq<u8>)
    ensures
        <Identity as Codec>::encoding(identity) == counted(identity.id) + (varint(0) + counted(
            encode_utf8(identity.name),
        )),
        <u32 as Codec>::decoding(bytes) matches Ok((tag, rest)) ==> {
            &&& tag != 0 ==> <IdentityKind as Codec>::decoding(bytes) == Err::<
                (Seq<char>, Seq<u8>),
                PostcardError,
            >(PostcardError::SerdeDeCustom)
            &&& tag == 0 ==> (<String as Codec>::decoding(rest) matches Ok((name, behind)) ==> {
                &&& encode_utf8(name).len() <= 32 ==> <IdentityKind as Codec>::decoding(bytes)
                    == Ok::<(Seq<char>, Seq<u8>), PostcardError>((name, behind))
                &&& encode_utf8(name).len() > 32 ==> <IdentityKind as Codec>::decoding(bytes)
                    == Err::<(Seq<char>, Seq<u8>), PostcardError>(PostcardError::SerdeDeCustom)
            })
        },
{
}

} // verus!
