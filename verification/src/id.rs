//! Connection and link identifiers.
use crate::codec::{push, varint, Codec, PostcardError};
use crate::hex::{four_digits, four_digits_text};
use vstd::prelude::*;
use vstd::string::StringExecFns;

verus! {

/// Identifies one end of a connection. An identifier is never zero.
#[derive(Copy, Clone, Debug, PartialEq, Eq, PartialOrd, Ord, Hash, Structural)]
pub struct Id {
    n: u16,
}

/// The identifiers of both ends of a connection, as far as they are known.
#[derive(Copy, Clone, Debug, PartialEq, Eq, Hash)]
pub struct LinkId {
    pub local: Option<Id>,
    pub remote: Option<Id>,
}

impl View for Id {
    type V = Id;

    open spec fn view(&self) -> Id {
        *self
    }
}

impl Id {
    /// The number of the identifier.
    pub closed spec fn number(self) -> nat {
        self.n as nat
    }

    /// An identifier is never zero.
    pub open spec fn valid(self) -> bool {
        1 <= self.number() <= u16::MAX
    }

    /// The slot of a connection table that belongs to the identifier.
    pub open spec fn index(self) -> int {
        self.number() - 1
    }

    /// The identifier with the given number.
    pub closed spec fn of(n: nat) -> Id {
        Id { n: n as u16 }
    }

    #[verifier::type_invariant]
    spec fn non_zero(self) -> bool {
        self.n != 0
    }

    /// Identifiers are the same if their numbers are, and each number from 1 to
    /// `u16::MAX` has one.
    pub broadcast proof fn lemma_of(n: nat)
        requires
            1 <= n <= u16::MAX,
        ensures
            (#[trigger] Id::of(n)).valid(),
            Id::of(n).number() == n,
    {
    }

    /// An identifier is determined by its number.
    pub proof fn lemma_number(a: Id, b: Id)
        ensures
            a == b <==> a.number() == b.number(),
            Id::of(a.number()) == a,
    {
    }

    /// The identifier with number `n`, unless `n` is zero.
    pub fn new(n: u16) -> (r: Option<Id>)
        ensures
            match r {
                Some(id) => n != 0 && id.number() == n && id == Id::of(n as nat),
                None => n == 0,
            },
    {
        if n == 0 {
            None
        } else {
            Some(Id { n })
        }
    }

    /// The number of the identifier.
    pub fn get(self) -> (r: u16)
        ensures
            r == self.number(),
            r != 0,
    {
        proof {
            use_type_invariant(&self);
        }
        self.n
    }

    /// The identifier that belongs to slot `idx` of a connection table. The
    /// last identifier is shared by the last two slots.
    pub fn from_index(idx: usize) -> (r: Id)
        requires
            idx <= u16::MAX,
        ensures
            r.valid(),
            r.number() == if idx < u16::MAX {
                idx + 1
            } else {
                u16::MAX as int
            },
            r == Id::of(r.number()),
    {
        let id: u16 = idx as u16;
        if id < u16::MAX {
            Id { n: id + 1 }
        } else {
            Id { n: u16::MAX }
        }
    }

    /// The slot of a connection table that belongs to the identifier: one less
    /// than its number, because number 0 is the link-control channel.
    pub fn to_index(self) -> (r: usize)
        ensures
            r == self.index(),
            r < u16::MAX,
    {
        proof {
            use_type_invariant(&self);
        }
        self.n as usize - 1
    }

    /// The identifier whose number is larger by `n`, if there is one.
    pub fn checked_add(self, n: u16) -> (r: Option<Id>)
        ensures
            match r {
                Some(id) => id.number() == self.number() + n,
                None => self.number() + n > u16::MAX,
            },
    {
        proof {
            use_type_invariant(&self);
        }
        match self.n.checked_add(n) {
            Some(sum) => Some(Id { n: sum }),
            None => None,
        }
    }
}

impl Id {
    /// The number of the identifier, as four hexadecimal digits.
    pub fn display(&self) -> (r: String)
        ensures
            r@ == four_digits(self.number() as u16, false),
    {
        four_digits_text(self.n, false)
    }

    /// The identifier as it is shown to a programmer.
    pub fn debug(&self) -> (r: String)
        ensures
            r@ == "Id("@ + four_digits(self.number() as u16, false) + ")"@,
    {
        "Id(".to_owned().concat(self.display().as_str()).concat(")")
    }
}

impl Codec for Id {
    open spec fn encodable(v: Id) -> bool {
        v.valid()
    }

    open spec fn encoding(v: Id) -> Seq<u8> {
        <u16 as Codec>::encoding(v.number() as u16)
    }

    open spec fn decoding(bytes: Seq<u8>) -> Result<(Id, Seq<u8>), PostcardError> {
        match <u16 as Codec>::decoding(bytes) {
            Ok((n, rest)) => if n == 0 {
                Err(PostcardError::SerdeDeCustom)
            } else {
                Ok((Id::of(n as nat), rest))
            },
            Err(e) => Err(e),
        }
    }

    fn to_vec(&self) -> (r: Vec<u8>) {
        proof {
            use_type_invariant(self);
        }
        self.n.to_vec()
    }

    fn take_from_bytes(bytes: &[u8]) -> (r: Result<(Id, &[u8]), PostcardError>) {
        match <u16 as Codec>::take_from_bytes(bytes) {
            Ok((n, rest)) => match Id::new(n) {
                Some(id) => Ok((id, rest)),
                None => Err(PostcardError::SerdeDeCustom),
            },
            Err(e) => Err(e),
        }
    }

    proof fn round_trip(v: Id, rest: Seq<u8>) {
        <u16 as Codec>::round_trip(v.number() as u16, rest);
    }
}

impl View for LinkId {
    type V = LinkId;

    open spec fn view(&self) -> LinkId {
        *self
    }
}

/// The bytes that stand for an identifier that may be absent: whether it is there, and
/// then the identifier.
pub open spec fn maybe_encoding(id: Option<Id>) -> Seq<u8> {
    match id {
        Some(id) => seq![1u8] + <Id as Codec>::encoding(id),
        None => seq![0u8],
    }
}

/// The identifier, which may be absent, at the front of `bytes`, and the bytes behind
/// it.
pub open spec fn maybe_decoding(bytes: Seq<u8>) -> Result<(Option<Id>, Seq<u8>), PostcardError> {
    match <u8 as Codec>::decoding(bytes) {
        Ok((tag, rest)) => if tag == 0 {
            Ok((None, rest))
        } else if tag == 1 {
            match <Id as Codec>::decoding(rest) {
                Ok((id, rest)) => Ok((Some(id), rest)),
                Err(e) => Err(e),
            }
        } else {
            Err(PostcardError::DeserializeBadOption)
        },
        Err(e) => Err(e),
    }
}

fn put_maybe(id: Option<Id>) -> (r: Vec<u8>)
    ensures
        r@ == maybe_encoding(id),
        id matches Some(id) ==> id.valid(),
{
    match id {
        Some(id) => {
            let mut out = 1u8.to_vec();
            push(&mut out, &id);
            out
        },
        None => 0u8.to_vec(),
    }
}

fn take_maybe(bytes: &[u8]) -> (r: Result<(Option<Id>, &[u8]), PostcardError>)
    ensures
        match r {
            Ok((id, rest)) => maybe_decoding(bytes@) == Ok::<(Option<Id>, Seq<u8>), PostcardError>(
                (id, rest@),
            ),
            Err(e) => maybe_decoding(bytes@) == Err::<(Option<Id>, Seq<u8>), PostcardError>(e),
        },
{
    match <u8 as Codec>::take_from_bytes(bytes) {
        Ok((tag, rest)) => if tag == 0 {
            Ok((None, rest))
        } else if tag == 1 {
            match <Id as Codec>::take_from_bytes(rest) {
                Ok((id, rest)) => Ok((Some(id), rest)),
                Err(e) => Err(e),
            }
        } else {
            Err(PostcardError::DeserializeBadOption)
        },
        Err(e) => Err(e),
    }
}

proof fn lemma_maybe(id: Option<Id>, rest: Seq<u8>)
    requires
        id matches Some(id) ==> id.valid(),
    ensures
        maybe_decoding(maybe_encoding(id) + rest) == Ok::<(Option<Id>, Seq<u8>), PostcardError>(
            (id, rest),
        ),
{
    match id {
        Some(id) => {
            <(u8, Id) as Codec>::round_trip((1, id), rest);
        },
        None => {
            <u8 as Codec>::round_trip(0, rest);
        },
    }
}

impl Codec for LinkId {
    open spec fn encodable(v: LinkId) -> bool {
        &&& v.local matches Some(id) ==> id.valid()
        &&& v.remote matches Some(id) ==> id.valid()
    }

    open spec fn encoding(v: LinkId) -> Seq<u8> {
        maybe_encoding(v.local) + maybe_encoding(v.remote)
    }

    open spec fn decoding(bytes: Seq<u8>) -> Result<(LinkId, Seq<u8>), PostcardError> {
        match maybe_decoding(bytes) {
            Ok((local, rest)) => match maybe_decoding(rest) {
                Ok((remote, rest)) => Ok((LinkId { local, remote }, rest)),
                Err(e) => Err(e),
            },
            Err(e) => Err(e),
        }
    }

    fn to_vec(&self) -> (r: Vec<u8>) {
        let mut out = put_maybe(self.local);
        let mut remote = put_maybe(self.remote);
        out.append(&mut remote);
        out
    }

    fn take_from_bytes(bytes: &[u8]) -> (r: Result<(LinkId, &[u8]), PostcardError>) {
        match take_maybe(bytes) {
            Ok((local, rest)) => match take_maybe(rest) {
                Ok((remote, rest)) => Ok((LinkId { local, remote }, rest)),
                Err(e) => Err(e),
            },
            Err(e) => Err(e),
        }
    }

    proof fn round_trip(v: LinkId, rest: Seq<u8>) {
        lemma_maybe(v.local, maybe_encoding(v.remote) + rest);
        lemma_maybe(v.remote, rest);
        assert(Self::encoding(v) + rest =~= maybe_encoding(v.local) + (maybe_encoding(v.remote)
            + rest));
    }
}

impl LinkId {
    /// Whether the link belongs to the interface itself, and to no connection.
    pub open spec fn spec_interface(self) -> bool {
        self.local is None && self.remote is None
    }

    /// The link that belongs to the interface itself, and to no connection.
    pub fn interface() -> (r: LinkId)
        ensures
            r == (LinkId { local: None, remote: None }),
            r.spec_interface(),
    {
        LinkId { local: None, remote: None }
    }

    /// The same link as the other end sees it.
    pub open spec fn inverted(self) -> LinkId {
        LinkId { local: self.remote, remote: self.local }
    }

    /// Returns the same link as the other end sees it.
    pub fn invert(self) -> (r: LinkId)
        ensures
            r == self.inverted(),
    {
        LinkId { local: self.remote, remote: self.local }
    }

    /// Whether this is the link of the interface itself.
    pub fn is_interface(&self) -> (r: bool)
        ensures
            r == self.spec_interface(),
    {
        self.local.is_none() && self.remote.is_none()
    }
}

impl LinkId {
    /// The number of an identifier, or zero if it is not known.
    pub open spec fn number_of(id: Option<Id>) -> u16 {
        match id {
            Some(id) => id.number() as u16,
            None => 0,
        }
    }

    /// The remote and the local number, as four hexadecimal digits each.
    pub open spec fn text(self, upper: bool) -> Seq<char> {
        four_digits(LinkId::number_of(self.remote), upper) + ":"@ + four_digits(
            LinkId::number_of(self.local),
            upper,
        )
    }

    fn number_or_zero(id: Option<Id>) -> (r: u16)
        ensures
            r == LinkId::number_of(id),
    {
        match id {
            Some(id) => id.get(),
            None => 0,
        }
    }

    /// The remote and the local number, in capitals.
    pub fn upper_hex(&self) -> (r: String)
        ensures
            r@ == self.text(true),
    {
        four_digits_text(LinkId::number_or_zero(self.remote), true).concat(":").concat(
            four_digits_text(LinkId::number_or_zero(self.local), true).as_str(),
        )
    }

    /// The remote and the local number, in small letters.
    pub fn lower_hex(&self) -> (r: String)
        ensures
            r@ == self.text(false),
    {
        four_digits_text(LinkId::number_or_zero(self.remote), false).concat(":").concat(
            four_digits_text(LinkId::number_or_zero(self.local), false).as_str(),
        )
    }

    /// The link as it is shown to a user.
    pub fn display(&self) -> (r: String)
        ensures
            r@ == self.text(false),
    {
        self.lower_hex()
    }
}

/// Identifiers and the slots of a connection table belong to each other, one to one.
pub proof fn slots_and_identifiers_go_together(id: Id, i: int)
    ensures
        id.valid() ==> Id::of((id.index() + 1) as nat) == id,
        0 <= i < u16::MAX ==> Id::of((i + 1) as nat).valid() && Id::of((i + 1) as nat).index() == i,
{
    Id::lemma_number(id, id);
    if 0 <= i < u16::MAX {
        Id::lemma_of((i + 1) as nat);
    }
}

/// A link that is inverted twice is the link itself.
pub proof fn invert_twice(link: LinkId)
    ensures
        link.inverted().inverted() == link,
{
}

/// The other end of a link sees the local identifier as the remote one, and the remote
/// one as the local.
pub proof fn ends_see_each_other(link: LinkId)
    ensures
        link.inverted().local == link.remote,
        link.inverted().remote == link.local,
        link.spec_interface() <==> link.local is None && link.remote is None,
{
}

/// A link is shown as the remote number, a colon, and the local number; an identifier that
/// is not known is shown as zero, which no identifier has.
pub proof fn links_are_shown_remote_first(link: LinkId, upper: bool)
    ensures
        ({
            let remote = match link.remote {
                Some(id) => id.number() as u16,
                None => 0,
            };
            let local = match link.local {
                Some(id) => id.number() as u16,
                None => 0,
            };
            &&& link.text(upper).len() == 9
            &&& link.text(upper).take(4) == four_digits(remote, upper)
            &&& link.text(upper)[4] == ':'
            &&& link.text(upper).skip(5) == four_digits(local, upper)
        }),
{
    reveal_strlit(":");
    let remote = four_digits(LinkId::number_of(link.remote), upper);
    let local = four_digits(LinkId::number_of(link.local), upper);
    assert(link.text(upper).take(4) =~= remote);
    assert(link.text(upper).skip(5) =~= local);
}

/// An identifier is laid out as its number, and a link as its two identifiers, each behind
/// whether it is there. A number that is zero, and a mark that is neither, are refused.
pub proof fn identifiers_are_laid_out_in_order(link: LinkId, id: Id, bytes: Seq<u8>)
    requires
        1 <= id.number() <= u16::MAX,
    ensures
        <Id as Codec>::encoding(id) == varint(id.number()),
        <u16 as Codec>::decoding(bytes) matches Ok((n, rest)) ==> {
            &&& n == 0 ==> <Id as Codec>::decoding(bytes) == Err::<(Id, Seq<u8>), PostcardError>(
                PostcardError::SerdeDeCustom,
            )
            &&& n != 0 ==> (<Id as Codec>::decoding(bytes) matches Ok((found, behind))
                && found.number() == n && behind == rest)
        },
        <LinkId as Codec>::encoding(link) == (match link.local {
            Some(id) => seq![1u8] + <Id as Codec>::encoding(id),
            None => seq![0u8],
        }) + (match link.remote {
            Some(id) => seq![1u8] + <Id as Codec>::encoding(id),
            None => seq![0u8],
        }),
        bytes.len() > 0 && bytes[0] > 1 ==> <LinkId as Codec>::decoding(bytes) == Err::<
            (LinkId, Seq<u8>),
            PostcardError,
        >(PostcardError::DeserializeBadOption),
{
    if let Ok((n, rest)) = <u16 as Codec>::decoding(bytes) {
        if n != 0 {
            Id::lemma_of(n as nat);
        }
    }
}

} // verus!
