//! The service by which a client discovers the endpoints of its remote peer.
use crate::codec::{
    counted, encodings, list_decoding, list_encodable, list_encoding, list_round_trip,
    long_lists_are_refused, push, put_list, take_list, varint, views, Codec, PostcardError, Uuid,
};
use crate::registry::{Identity, IdentityView, Service};
use vstd::prelude::*;

verus! {

/// The service definition.
pub struct EndpointsService;

/// Which endpoints a client wants to hear of.
#[derive(Clone, Copy, Debug, PartialEq, Eq)]
pub enum WatchEndpoints {
    /// All endpoints of the remote peer.
    All,
    /// The endpoints that implement the given service.
    Service(Uuid),
}

/// The number of updates on a page at most.
pub const PAGE_SIZE: usize = 32;

/// A set of endpoint updates, at most [`PAGE_SIZE`] of them.
#[derive(Debug, PartialEq, Eq)]
pub struct EndpointsPage {
    endpoints: Vec<Update>,
}

/// A change to the endpoints of the remote peer.
#[derive(Debug, PartialEq, Eq)]
pub enum Update {
    /// There is a new endpoint.
    Add(EndpointBinding),
    /// An endpoint exists no longer.
    Remove(Identity),
}

/// An endpoint.
#[derive(Debug, PartialEq, Eq)]
pub struct EndpointBinding {
    /// The identity of the endpoint.
    pub identity: Identity,
    /// How the endpoint is reached.
    pub kind: EndpointKind,
}

/// How an endpoint is reached.
#[derive(Copy, Clone, Debug, PartialEq, Eq, Structural)]
pub enum EndpointKind {
    /// The endpoint is on the remote peer itself.
    Local,
}

/// The bytes of the identifier of the service,
/// `ec64bff3-7fc4-4ed5-a8f2-ed9e3b30f7be`.
pub open spec fn list_service_uuid() -> Seq<u8> {
    seq![
        0xecu8, 0x64, 0xbf, 0xf3, 0x7f, 0xc4, 0x4e, 0xd5, 0xa8, 0xf2, 0xed, 0x9e, 0x3b, 0x30, 0xf7,
        0xbe,
    ]
}

impl Service for EndpointsService {
    type Hello = WatchEndpoints;

    type ConnectError = ();

    type ClientMsg = ();

    type ServerMsg = EndpointsPage;

    fn uuid() -> (r: Uuid)
        ensures
            r@ == list_service_uuid(),
    {
        let bytes: [u8; 16] = [
            0xec, 0x64, 0xbf, 0xf3, 0x7f, 0xc4, 0x4e, 0xd5, 0xa8, 0xf2, 0xed, 0x9e, 0x3b, 0x30,
            0xf7, 0xbe,
        ];
        assert(bytes@ =~= list_service_uuid());
        Uuid::from_bytes(bytes)
    }
}

/// [`WatchEndpoints`], with its parts taken by their views.
pub enum WatchEndpointsView {
    All,
    Service(Seq<u8>),
}

/// [`Update`], with its parts taken by their views.
pub enum UpdateView {
    Add(EndpointBindingView),
    Remove(IdentityView),
}

/// [`EndpointBinding`], with its parts taken by their views.
pub struct EndpointBindingView {
    pub identity: IdentityView,
    pub kind: EndpointKind,
}

impl View for WatchEndpoints {
    type V = WatchEndpointsView;

    open spec fn view(&self) -> WatchEndpointsView {
        match *self {
            WatchEndpoints::All => WatchEndpointsView::All,
            WatchEndpoints::Service(id) => WatchEndpointsView::Service(id@),
        }
    }
}

impl View for EndpointKind {
    type V = EndpointKind;

    open spec fn view(&self) -> EndpointKind {
        *self
    }
}

impl View for EndpointBinding {
    type V = EndpointBindingView;

    open spec fn view(&self) -> EndpointBindingView {
        EndpointBindingView { identity: self.identity@, kind: self.kind }
    }
}

impl View for Update {
    type V = UpdateView;

    open spec fn view(&self) -> UpdateView {
        match *self {
            Update::Add(binding) => UpdateView::Add(binding@),
            Update::Remove(identity) => UpdateView::Remove(identity@),
        }
    }
}

impl View for EndpointsPage {
    type V = Seq<UpdateView>;

    open spec fn view(&self) -> Seq<UpdateView> {
        views(self.updates())
    }
}

impl Clone for EndpointBinding {
    fn clone(&self) -> (r: EndpointBinding)
        ensures
            r@ == self@,
    {
        EndpointBinding { identity: self.identity.clone(), kind: self.kind }
    }
}

impl Clone for Update {
    fn clone(&self) -> (r: Update)
        ensures
            r@ == self@,
    {
        match self {
            Update::Add(binding) => Update::Add(binding.clone()),
            Update::Remove(identity) => Update::Remove(identity.clone()),
        }
    }
}

impl Clone for EndpointsPage {
    fn clone(&self) -> (r: EndpointsPage)
        ensures
            r@ == self@,
    {
        proof {
            use_type_invariant(self);
        }
        let mut endpoints: Vec<Update> = Vec::new();
        let mut i: usize = 0;
        while i < self.endpoints.len()
            invariant
                i <= self.endpoints@.len(),
                endpoints@.len() == i,
                forall|j: int| 0 <= j < i ==> (#[trigger] endpoints@[j])@ == self.endpoints@[j]@,
            decreases self.endpoints@.len() - i,
        {
            endpoints.push(self.endpoints[i].clone());
            i += 1;
        }
        assert(views(endpoints@) =~= views(self.endpoints@));
        EndpointsPage { endpoints }
    }
}

impl EndpointsPage {
    #[verifier::type_invariant]
    spec fn bounded(self) -> bool {
        self.endpoints@.len() <= PAGE_SIZE
    }

    /// The updates.
    pub closed spec fn updates(self) -> Seq<Update> {
        self.endpoints@
    }

    /// A page without updates.
    pub fn new() -> (r: EndpointsPage)
        ensures
            r.updates() == Seq::<Update>::empty(),
    {
        EndpointsPage { endpoints: Vec::new() }
    }

    /// Adds an update, unless the page is full. Then the update is handed back.
    pub fn push(&mut self, update: Update) -> (r: Result<(), Update>)
        ensures
            match r {
                Ok(_) => {
                    &&& old(self).updates().len() < PAGE_SIZE
                    &&& final(self).updates() == old(self).updates().push(update)
                },
                Err(back) => {
                    &&& old(self).updates().len() == PAGE_SIZE
                    &&& back == update
                    &&& final(self).updates() == old(self).updates()
                },
            },
    {
        proof {
            use_type_invariant(&*self);
        }
        if self.endpoints.len() < PAGE_SIZE {
            let mut endpoints: Vec<Update> = Vec::new();
            core::mem::swap(&mut self.endpoints, &mut endpoints);
            endpoints.push(update);
            self.endpoints = endpoints;
            Ok(())
        } else {
            Err(update)
        }
    }

    /// The updates.
    pub fn endpoints(&self) -> (r: &Vec<Update>)
        ensures
            r@ == self.updates(),
            self.updates().len() <= PAGE_SIZE,
    {
        proof {
            use_type_invariant(self);
        }
        &self.endpoints
    }
}

// ---------------------------------------------------------------------------
// The bytes of the messages
// ---------------------------------------------------------------------------

impl Codec for WatchEndpoints {
    open spec fn encodable(v: WatchEndpointsView) -> bool {
        match v {
            WatchEndpointsView::All => true,
            WatchEndpointsView::Service(id) => <Uuid as Codec>::encodable(id),
        }
    }

    open spec fn encoding(v: WatchEndpointsView) -> Seq<u8> {
        match v {
            WatchEndpointsView::All => <u32 as Codec>::encoding(0),
            WatchEndpointsView::Service(id) => <(u32, Uuid) as Codec>::encoding((1, id)),
        }
    }

    open spec fn decoding(bytes: Seq<u8>) -> Result<(WatchEndpointsView, Seq<u8>), PostcardError> {
        match <u32 as Codec>::decoding(bytes) {
            Ok((tag, rest)) => if tag == 0 {
                Ok((WatchEndpointsView::All, rest))
            } else if tag == 1 {
                match <Uuid as Codec>::decoding(rest) {
                    Ok((id, rest)) => Ok((WatchEndpointsView::Service(id), rest)),
                    Err(e) => Err(e),
                }
            } else {
                Err(PostcardError::SerdeDeCustom)
            },
            Err(e) => Err(e),
        }
    }

    fn to_vec(&self) -> (r: Vec<u8>) {
        match self {
            WatchEndpoints::All => 0u32.to_vec(),
            WatchEndpoints::Service(id) => (1u32, *id).to_vec(),
        }
    }

    fn take_from_bytes(bytes: &[u8]) -> (r: Result<(WatchEndpoints, &[u8]), PostcardError>) {
        match <u32 as Codec>::take_from_bytes(bytes) {
            Ok((tag, rest)) => if tag == 0 {
                Ok((WatchEndpoints::All, rest))
            } else if tag == 1 {
                match <Uuid as Codec>::take_from_bytes(rest) {
                    Ok((id, rest)) => Ok((WatchEndpoints::Service(id), rest)),
                    Err(e) => Err(e),
                }
            } else {
                Err(PostcardError::SerdeDeCustom)
            },
            Err(e) => Err(e),
        }
    }

    proof fn round_trip(v: WatchEndpointsView, rest: Seq<u8>) {
        match v {
            WatchEndpointsView::All => {
                <u32 as Codec>::round_trip(0, rest);
            },
            WatchEndpointsView::Service(id) => {
                <(u32, Uuid) as Codec>::round_trip((1, id), rest);
            },
        }
    }
}

impl Codec for EndpointKind {
    open spec fn encodable(v: EndpointKind) -> bool {
        true
    }

    open spec fn encoding(v: EndpointKind) -> Seq<u8> {
        match v {
            EndpointKind::Local => <u32 as Codec>::encoding(0),
        }
    }

    open spec fn decoding(bytes: Seq<u8>) -> Result<(EndpointKind, Seq<u8>), PostcardError> {
        match <u32 as Codec>::decoding(bytes) {
            Ok((tag, rest)) => if tag == 0 {
                Ok((EndpointKind::Local, rest))
            } else {
                Err(PostcardError::SerdeDeCustom)
            },
            Err(e) => Err(e),
        }
    }

    fn to_vec(&self) -> (r: Vec<u8>) {
        match self {
            EndpointKind::Local => 0u32.to_vec(),
        }
    }

    fn take_from_bytes(bytes: &[u8]) -> (r: Result<(EndpointKind, &[u8]), PostcardError>) {
        match <u32 as Codec>::take_from_bytes(bytes) {
            Ok((tag, rest)) => if tag == 0 {
                Ok((EndpointKind::Local, rest))
            } else {
                Err(PostcardError::SerdeDeCustom)
            },
            Err(e) => Err(e),
        }
    }

    proof fn round_trip(v: EndpointKind, rest: Seq<u8>) {
        <u32 as Codec>::round_trip(0, rest);
    }
}

impl Codec for EndpointBinding {
    open spec fn encodable(v: EndpointBindingView) -> bool {
        <Identity as Codec>::encodable(v.identity)
    }

    open spec fn encoding(v: EndpointBindingView) -> Seq<u8> {
        <(Identity, EndpointKind) as Codec>::encoding((v.identity, v.kind))
    }

    open spec fn decoding(bytes: Seq<u8>) -> Result<(EndpointBindingView, Seq<u8>), PostcardError> {
        match <(Identity, EndpointKind) as Codec>::decoding(bytes) {
            Ok(((identity, kind), rest)) => Ok((EndpointBindingView { identity, kind }, rest)),
            Err(e) => Err(e),
        }
    }

    fn to_vec(&self) -> (r: Vec<u8>) {
        let mut out = self.identity.to_vec();
        push(&mut out, &self.kind);
        out
    }

    fn take_from_bytes(bytes: &[u8]) -> (r: Result<(EndpointBinding, &[u8]), PostcardError>) {
        match <(Identity, EndpointKind) as Codec>::take_from_bytes(bytes) {
            Ok(((identity, kind), rest)) => Ok((EndpointBinding { identity, kind }, rest)),
            Err(e) => Err(e),
        }
    }

    proof fn round_trip(v: EndpointBindingView, rest: Seq<u8>) {
        <(Identity, EndpointKind) as Codec>::round_trip((v.identity, v.kind), rest);
    }
}

impl Codec for Update {
    open spec fn encodable(v: UpdateView) -> bool {
        match v {
            UpdateView::Add(binding) => <EndpointBinding as Codec>::encodable(binding),
            UpdateView::Remove(identity) => <Identity as Codec>::encodable(identity),
        }
    }

    open spec fn encoding(v: UpdateView) -> Seq<u8> {
        match v {
            UpdateView::Add(binding) => <(u32, EndpointBinding) as Codec>::encoding((0, binding)),
            UpdateView::Remove(identity) => <(u32, Identity) as Codec>::encoding((1, identity)),
        }
    }

    open spec fn decoding(bytes: Seq<u8>) -> Result<(UpdateView, Seq<u8>), PostcardError> {
        match <u32 as Codec>::decoding(bytes) {
            Ok((tag, rest)) => if tag == 0 {
                match <EndpointBinding as Codec>::decoding(rest) {
                    Ok((binding, rest)) => Ok((UpdateView::Add(binding), rest)),
                    Err(e) => Err(e),
                }
            } else if tag == 1 {
                match <Identity as Codec>::decoding(rest) {
                    Ok((identity, rest)) => Ok((UpdateView::Remove(identity), rest)),
                    Err(e) => Err(e),
                }
            } else {
                Err(PostcardError::SerdeDeCustom)
            },
            Err(e) => Err(e),
        }
    }

    fn to_vec(&self) -> (r: Vec<u8>) {
        match self {
            Update::Add(binding) => {
                let mut out = 0u32.to_vec();
                push(&mut out, binding);
                out
            },
            Update::Remove(identity) => {
                let mut out = 1u32.to_vec();
                push(&mut out, identity);
                out
            },
        }
    }

    fn take_from_bytes(bytes: &[u8]) -> (r: Result<(Update, &[u8]), PostcardError>) {
        match <u32 as Codec>::take_from_bytes(bytes) {
            Ok((tag, rest)) => if tag == 0 {
                match <EndpointBinding as Codec>::take_from_bytes(rest) {
                    Ok((binding, rest)) => Ok((Update::Add(binding), rest)),
                    Err(e) => Err(e),
                }
            } else if tag == 1 {
                match <Identity as Codec>::take_from_bytes(rest) {
                    Ok((identity, rest)) => Ok((Update::Remove(identity), rest)),
                    Err(e) => Err(e),
                }
            } else {
                Err(PostcardError::SerdeDeCustom)
            },
            Err(e) => Err(e),
        }
    }

    proof fn round_trip(v: UpdateView, rest: Seq<u8>) {
        match v {
            UpdateView::Add(binding) => {
                <(u32, EndpointBinding) as Codec>::round_trip((0, binding), rest);
            },
            UpdateView::Remove(identity) => {
                <(u32, Identity) as Codec>::round_trip((1, identity), rest);
            },
        }
    }
}

impl Codec for EndpointsPage {
    open spec fn encodable(v: Seq<UpdateView>) -> bool {
        list_encodable::<Update>(v, PAGE_SIZE as nat)
    }

    open spec fn encoding(v: Seq<UpdateView>) -> Seq<u8> {
        list_encoding::<Update>(v)
    }

    open spec fn decoding(bytes: Seq<u8>) -> Result<(Seq<UpdateView>, Seq<u8>), PostcardError> {
        list_decoding::<Update>(bytes, PAGE_SIZE as nat)
    }

    fn to_vec(&self) -> (r: Vec<u8>) {
        proof {
            use_type_invariant(self);
        }
        put_list(&self.endpoints)
    }

    fn take_from_bytes(bytes: &[u8]) -> (r: Result<(EndpointsPage, &[u8]), PostcardError>) {
        match take_list::<Update>(bytes, PAGE_SIZE) {
            Ok((endpoints, rest)) => Ok((EndpointsPage { endpoints }, rest)),
            Err(e) => Err(e),
        }
    }

    proof fn round_trip(v: Seq<UpdateView>, rest: Seq<u8>) {
        list_round_trip::<Update>(v, PAGE_SIZE as nat, rest);
    }
}

/// Numbers that belong to no kind of message are refused.
pub proof fn discovery_messages_that_do_not_exist_are_refused(bytes: Seq<u8>)
    ensures
        <u32 as Codec>::decoding(bytes) matches Ok((tag, rest)) ==> {
            &&& tag > 1 ==> <WatchEndpoints as Codec>::decoding(bytes) == Err::<
                (WatchEndpointsView, Seq<u8>),
                PostcardError,
            >(PostcardError::SerdeDeCustom)
            &&& tag > 1 ==> <Update as Codec>::decoding(bytes) == Err::<
                (UpdateView, Seq<u8>),
                PostcardError,
            >(PostcardError::SerdeDeCustom)
            &&& tag > 0 ==> <EndpointKind as Codec>::decoding(bytes) == Err::<
                (EndpointKind, Seq<u8>),
                PostcardError,
            >(PostcardError::SerdeDeCustom)
        },
{
}

/// The messages are laid out as the number of their kind, and what they hold; a page as the
/// number of its updates, and the updates in order.
pub proof fn discovery_messages_are_laid_out_in_order(
    id: Seq<u8>,
    identity: IdentityView,
    updates: Seq<UpdateView>,
    update: UpdateView,
)
    ensures
        <WatchEndpoints as Codec>::encoding(WatchEndpointsView::All) == varint(0),
        <WatchEndpoints as Codec>::encoding(WatchEndpointsView::Service(id)) == varint(1) + counted(
            id,
        ),
        <Update as Codec>::encoding(
            UpdateView::Add(EndpointBindingView { identity, kind: EndpointKind::Local }),
        ) == varint(0) + (<Identity as Codec>::encoding(identity) + varint(0)),
        <Update as Codec>::encoding(UpdateView::Remove(identity)) == varint(1)
            + <Identity as Codec>::encoding(identity),
        <EndpointsPage as Codec>::encoding(Seq::<UpdateView>::empty()) =~= varint(0),
        <EndpointsPage as Codec>::encoding(updates.push(update)) == varint(updates.len() + 1) + (
        encodings::<Update>(updates) + <Update as Codec>::encoding(update)),
{
    assert(updates.push(update).drop_last() =~= updates);
}

/// A page has at most 32 updates: one with more is refused, however well its updates are
/// formed.
pub proof fn long_pages_are_refused(updates: Seq<UpdateView>, rest: Seq<u8>)
    requires
        32 < updates.len() <= usize::MAX,
        forall|i: int|
            0 <= i < updates.len() ==> <Update as Codec>::encodable(#[trigger] updates[i]),
    ensures
        <EndpointsPage as Codec>::decoding(
            varint(updates.len()) + encodings::<Update>(updates) + rest,
        ) == Err::<(Seq<UpdateView>, Seq<u8>), PostcardError>(PostcardError::SerdeDeCustom),
{
    long_lists_are_refused::<Update>(updates, PAGE_SIZE as nat, rest);
}

/// The identifier of the service has 16 bytes, in the order in which they are written.
pub proof fn service_identifier_is_written_in_order()
    ensures
        list_service_uuid().len() == 16,
        list_service_uuid() == seq![0xecu8, 0x64, 0xbf, 0xf3] + seq![0x7fu8, 0xc4] + seq![
            0x4eu8,
            0xd5,
        ] + seq![0xa8u8, 0xf2] + seq![0xedu8, 0x9e, 0x3b, 0x30, 0xf7, 0xbe],
{
    assert(list_service_uuid() =~= seq![0xecu8, 0x64, 0xbf, 0xf3] + seq![0x7fu8, 0xc4] + seq![
        0x4eu8,
        0xd5,
    ] + seq![0xa8u8, 0xf2] + seq![0xedu8, 0x9e, 0x3b, 0x30, 0xf7, 0xbe]);
}

/// Messages are decoded field by field: what follows the number of their kind is decoded
/// as what they hold, and what is wrong with that is wrong with the message.
pub proof fn discovery_messages_are_decoded_field_by_field(bytes: Seq<u8>)
    ensures
        <u32 as Codec>::decoding(bytes) matches Ok((tag, rest)) ==> {
            &&& tag == 0 ==> <WatchEndpoints as Codec>::decoding(bytes) == Ok::<
                (WatchEndpointsView, Seq<u8>),
                PostcardError,
            >((WatchEndpointsView::All, rest))
            &&& tag == 1 ==> <WatchEndpoints as Codec>::decoding(bytes)
                == match <Uuid as Codec>::decoding(rest) {
                Ok((id, behind)) => Ok((WatchEndpointsView::Service(id), behind)),
                Err(e) => Err(e),
            }
            &&& tag == 0 ==> <Update as Codec>::decoding(bytes)
                == match <Identity as Codec>::decoding(rest) {
                Ok((identity, behind)) => match <EndpointKind as Codec>::decoding(behind) {
                    Ok((kind, end)) => Ok(
                        (UpdateView::Add(EndpointBindingView { identity, kind }), end),
                    ),
                    Err(e) => Err(e),
                },
                Err(e) => Err(e),
            }
            &&& tag == 1 ==> <Update as Codec>::decoding(bytes)
                == match <Identity as Codec>::decoding(rest) {
                Ok((identity, behind)) => Ok((UpdateView::Remove(identity), behind)),
                Err(e) => Err(e),
            }
        },
{
}

} // verus!
