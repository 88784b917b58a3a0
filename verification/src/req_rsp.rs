//! Requests and responses over a connection.
//!
//! Each request has a sequence number, and the response to it has the same one.
//! A client may have any number of requests in flight, and its dispatcher hands
//! each response to whoever waits for it.
use crate::codec::{push, varint, Codec, PostcardError};
use crate::message::Reset;
use crate::tricky_pipe::mpsc::error::{RecvError, SendError, TryRecvError, TrySendError};
use crate::tricky_pipe::mpsc::{PipeView, Receiver, Sender, TrickyPipe};
use crate::waiters::{WaitError, Waiters, WakeOutcome};
use crate::registry::Service;
use vstd::prelude::*;

verus! {

/// The sequence number of a request, by which it is responded to.
#[derive(Debug, PartialEq, Eq, Structural)]
pub struct SeqNo(pub usize);

/// A request.
#[derive(Debug, PartialEq, Eq)]
#[must_use]
pub struct Request<T> {
    pub seq: usize,
    pub body: T,
}

/// The response to a request.
#[derive(Debug, PartialEq, Eq)]
#[must_use]
pub struct Response<T> {
    pub seq: usize,
    pub body: T,
}

/// One of the responses to a request.
#[derive(Debug, PartialEq, Eq)]
#[must_use]
pub struct StreamingResponse<T> {
    pub seq: usize,
    pub last: bool,
    pub body: T,
}

/// Why a dispatcher stopped.
#[derive(Copy, Clone, Debug, PartialEq, Eq, Structural)]
pub enum DispatchError {
    /// There is another dispatcher.
    AlreadyRunning,
    /// The connection was reset.
    ConnectionReset(Reset),
}

/// Why a request could not be made, or was not responded to.
#[derive(Copy, Clone, Debug, PartialEq, Eq, Structural)]
pub enum RequestError {
    /// The connection was reset.
    Reset(Reset),
    /// Another request has the same sequence number.
    SeqInUse,
}

/// A service that responds to each request with a single response.
pub trait ReqRspService: Service<
    ClientMsg = Request<<Self as ReqRspService>::Request>,
    ServerMsg = Response<<Self as ReqRspService>::Response>,
> {
    /// What is requested.
    type Request;

    /// What is responded.
    type Response;
}

/// A service that responds to each request with a stream of responses.
pub trait ServerStreamingService: Service<
    ClientMsg = Request<<Self as ServerStreamingService>::Request>,
    ServerMsg = StreamingResponse<<Self as ServerStreamingService>::Response>,
> {
    /// What is requested.
    type Request;

    /// What is responded.
    type Response;
}

impl<S, Req, Rsp> ReqRspService for S where
    S: Service<ClientMsg = Request<Req>, ServerMsg = Response<Rsp>>,
 {
    type Request = Req;

    type Response = Rsp;
}

impl<T: Copy> Copy for Request<T> {

}

impl<T: Clone> Clone for Request<T> {
    fn clone(&self) -> (r: Request<T>)
        ensures
            r.seq == self.seq,
            cloned(self.body, r.body),
    {
        Request { seq: self.seq, body: self.body.clone() }
    }
}

impl<T: Copy> Copy for Response<T> {

}

impl<T: Clone> Clone for Response<T> {
    fn clone(&self) -> (r: Response<T>)
        ensures
            r.seq == self.seq,
            cloned(self.body, r.body),
    {
        Response { seq: self.seq, body: self.body.clone() }
    }
}

impl<T: Copy> Copy for StreamingResponse<T> {

}

impl<T: Clone> Clone for StreamingResponse<T> {
    fn clone(&self) -> (r: StreamingResponse<T>)
        ensures
            r.seq == self.seq,
            r.last == self.last,
            cloned(self.body, r.body),
    {
        StreamingResponse { seq: self.seq, last: self.last, body: self.body.clone() }
    }
}

impl SeqNo {
    /// The response to the request with this sequence number.
    pub fn respond<T>(self, body: T) -> (r: Response<T>)
        ensures
            r == (Response { seq: self.0, body }),
    {
        Response { seq: self.0, body }
    }

    /// One of the responses to the request with this sequence number.
    pub fn respond_streaming<T>(&self, body: T, is_last: bool) -> (r: StreamingResponse<T>)
        ensures
            r == (StreamingResponse { seq: self.0, last: is_last, body }),
    {
        StreamingResponse { seq: self.0, last: is_last, body }
    }
}

impl<T> Request<T> {
    /// What is requested.
    pub fn body(&self) -> (r: &T)
        ensures
            *r == self.body,
    {
        &self.body
    }

    /// The sequence number, and what is requested.
    pub fn into_parts(self) -> (r: (SeqNo, T))
        ensures
            r == (SeqNo(self.seq), self.body),
    {
        (SeqNo(self.seq), self.body)
    }

    /// The response to the request.
    pub fn respond<U>(self, body: U) -> (r: Response<U>)
        ensures
            r == (Response { seq: self.seq, body }),
    {
        Response { seq: self.seq, body }
    }
}

// ---------------------------------------------------------------------------
// The bytes of requests and responses
// ---------------------------------------------------------------------------

impl<T: View> View for Request<T> {
    type V = (usize, T::V);

    open spec fn view(&self) -> (usize, T::V) {
        (self.seq, self.body@)
    }
}

impl<T: View> View for Response<T> {
    type V = (usize, T::V);

    open spec fn view(&self) -> (usize, T::V) {
        (self.seq, self.body@)
    }
}

impl<T: View> View for StreamingResponse<T> {
    type V = (usize, (bool, T::V));

    open spec fn view(&self) -> (usize, (bool, T::V)) {
        (self.seq, (self.last, self.body@))
    }
}

impl<T: Codec> Codec for Request<T> {
    open spec fn encodable(v: (usize, T::V)) -> bool {
        T::encodable(v.1)
    }

    open spec fn encoding(v: (usize, T::V)) -> Seq<u8> {
        <(usize, T) as Codec>::encoding(v)
    }

    open spec fn decoding(bytes: Seq<u8>) -> Result<((usize, T::V), Seq<u8>), PostcardError> {
        <(usize, T) as Codec>::decoding(bytes)
    }

    fn to_vec(&self) -> (r: Vec<u8>) {
        let mut out = self.seq.to_vec();
        push(&mut out, &self.body);
        out
    }

    fn take_from_bytes(bytes: &[u8]) -> (r: Result<(Request<T>, &[u8]), PostcardError>) {
        match <(usize, T) as Codec>::take_from_bytes(bytes) {
            Ok(((seq, body), rest)) => Ok((Request { seq, body }, rest)),
            Err(e) => Err(e),
        }
    }

    proof fn round_trip(v: (usize, T::V), rest: Seq<u8>) {
        <(usize, T) as Codec>::round_trip(v, rest);
    }
}

impl<T: Codec> Codec for Response<T> {
    open spec fn encodable(v: (usize, T::V)) -> bool {
        T::encodable(v.1)
    }

    open spec fn encoding(v: (usize, T::V)) -> Seq<u8> {
        <(usize, T) as Codec>::encoding(v)
    }

    open spec fn decoding(bytes: Seq<u8>) -> Result<((usize, T::V), Seq<u8>), PostcardError> {
        <(usize, T) as Codec>::decoding(bytes)
    }

    fn to_vec(&self) -> (r: Vec<u8>) {
        let mut out = self.seq.to_vec();
        push(&mut out, &self.body);
        out
    }

    fn take_from_bytes(bytes: &[u8]) -> (r: Result<(Response<T>, &[u8]), PostcardError>) {
        match <(usize, T) as Codec>::take_from_bytes(bytes) {
            Ok(((seq, body), rest)) => Ok((Response { seq, body }, rest)),
            Err(e) => Err(e),
        }
    }

    proof fn round_trip(v: (usize, T::V), rest: Seq<u8>) {
        <(usize, T) as Codec>::round_trip(v, rest);
    }
}

impl<T: Codec> Codec for StreamingResponse<T> {
    open spec fn encodable(v: (usize, (bool, T::V))) -> bool {
        T::encodable(v.1.1)
    }

    open spec fn encoding(v: (usize, (bool, T::V))) -> Seq<u8> {
        <(usize, (bool, T)) as Codec>::encoding(v)
    }

    open spec fn decoding(bytes: Seq<u8>) -> Result<
        ((usize, (bool, T::V)), Seq<u8>),
        PostcardError,
    > {
        <(usize, (bool, T)) as Codec>::decoding(bytes)
    }

    fn to_vec(&self) -> (r: Vec<u8>) {
        let mut out = self.seq.to_vec();
        let mut rest = self.last.to_vec();
        push(&mut rest, &self.body);
        out.append(&mut rest);
        out
    }

    fn take_from_bytes(bytes: &[u8]) -> (r: Result<
        (StreamingResponse<T>, &[u8]),
        PostcardError,
    >) {
        match <(usize, (bool, T)) as Codec>::take_from_bytes(bytes) {
            Ok(((seq, (last, body)), rest)) => Ok((StreamingResponse { seq, last, body }, rest)),
            Err(e) => Err(e),
        }
    }

    proof fn round_trip(v: (usize, (bool, T::V)), rest: Seq<u8>) {
        <(usize, (bool, T)) as Codec>::round_trip(v, rest);
    }
}

// ---------------------------------------------------------------------------
// The client
// ---------------------------------------------------------------------------

/// A client of a service that responds to requests. Those who wait for responses
/// are held as values of type `K`.
pub struct Client<K> {
    seq: usize,
    waiters: Waiters<K>,
    shutdown: bool,
    has_dispatcher: bool,
}

/// The state of a client.
pub struct ClientView<K> {
    /// The sequence number to be tried next.
    pub seq: usize,
    /// Those who wait for responses, by the sequence number of their request.
    pub waiting: Map<usize, K>,
    /// Whether there will be no more responses.
    pub closed: bool,
    /// Whether the client has been shut down.
    pub shutdown: bool,
    /// Whether there is a dispatcher.
    pub has_dispatcher: bool,
}

/// What became of a request.
pub enum Requested<K, T> {
    /// It was sent with the given sequence number.
    Sent(usize),
    /// There is no room in the channel: the client has to wait for it, and try
    /// again.
    NoRoom { waiter: K, body: T },
    /// The connection was reset.
    Failed { waiter: K, reset: Reset },
}

/// What the dispatcher came upon.
pub enum Dispatched<K, U> {
    /// The client has been shut down.
    Stopped,
    /// There is no response yet.
    Pending,
    /// A response, and who waits for it.
    Deliver { waiter: K, body: U },
    /// A response that nobody waits for any more.
    Ignored { seq: usize },
    /// The connection was reset; those who waited for responses will get none.
    Reset { reset: Reset, waiters: Vec<(usize, K)> },
}

/// The number of sequence numbers: they wrap around after the largest.
pub open spec fn seq_numbers() -> int {
    usize::MAX + 1
}

/// The `d`-th sequence number from `start` on.
pub open spec fn seq_at(start: usize, d: int) -> usize {
    if start + d < seq_numbers() {
        (start + d) as usize
    } else {
        (start + d - seq_numbers()) as usize
    }
}

impl<K> ClientView<K> {
    /// Whether `seq` is the first sequence number, from the next to be tried on,
    /// that no request in flight has.
    pub open spec fn is_next(self, seq: usize) -> bool {
        exists|d: int| #[trigger] self.is_nth(seq, d)
    }

    /// Whether `seq` is the `d`-th sequence number from the next to be tried on,
    /// and the first that no request in flight has.
    pub open spec fn is_nth(self, seq: usize, d: int) -> bool {
        &&& 0 <= d < seq_numbers()
        &&& seq == seq_at(self.seq, d)
        &&& !self.waiting.contains_key(seq)
        &&& forall|i: int| 0 <= i < d ==> self.waiting.contains_key(#[trigger] seq_at(self.seq, i))
    }

    /// The client after a request was sent.
    pub open spec fn after_request(self, seq: usize, waiter: K) -> ClientView<K> {
        ClientView { seq: seq_at(seq, 1), waiting: self.waiting.insert(seq, waiter), ..self }
    }

    /// The client after a response came.
    pub open spec fn after_response(self, seq: usize) -> ClientView<K> {
        ClientView { waiting: self.waiting.remove(seq), ..self }
    }

    /// The client after the connection was reset.
    pub open spec fn after_reset(self) -> ClientView<K> {
        ClientView { waiting: Map::empty(), closed: true, ..self }
    }

    /// The client is at one with its connection: there are no more responses only
    /// if the connection was closed with an error.
    pub open spec fn goes_with<T>(self, tx: PipeView<T, Reset>) -> bool {
        self.closed ==> tx.error is Some
    }
}

/// Whether `list` holds those who wait according to `waiting`, each once.
pub open spec fn lists<K>(list: Seq<(usize, K)>, waiting: Map<usize, K>) -> bool {
    &&& list.len() == waiting.len()
    &&& forall|i: int|
        0 <= i < list.len() ==> waiting.contains_key((#[trigger] list[i]).0) && waiting[list[i].0]
            == list[i].1
    &&& forall|i: int, j: int|
        0 <= i < j < list.len() ==> (#[trigger] list[i]).0 != (#[trigger] list[j]).0
}

/// The reason that a sender is told when the channel is closed.
pub open spec fn reset_of<T>(pipe: PipeView<T, Reset>) -> Reset {
    match pipe.error {
        Some(reset) => reset,
        None => Reset::BecauseISaidSo,
    }
}

proof fn lemma_all_in_use<K>(waiting: Map<usize, K>, start: usize)
    requires
        waiting.dom().finite(),
        forall|i: int|
            0 <= i < seq_numbers() ==> waiting.contains_key(#[trigger] seq_at(start, i)),
    ensures
        waiting.len() > usize::MAX,
{
    let all = vstd::set_lib::set_int_range(0, seq_numbers());
    vstd::set_lib::lemma_int_range(0, seq_numbers());
    let used = waiting.dom().map(|k: usize| k as int);
    assert(all.subset_of(used)) by {
        assert forall|x: int| all.contains(x) implies used.contains(x) by {
            let i = if x >= start {
                x - start
            } else {
                x - start + seq_numbers()
            };
            assert(waiting.contains_key(seq_at(start, i)));
            assert(seq_at(start, i) == x);
            assert(waiting.dom().contains(x as usize));
        }
    }
    waiting.dom().lemma_map_finite(|k: usize| k as int);
    vstd::set_lib::lemma_map_size_bound(waiting.dom(), used, |k: usize| k as int);
    vstd::set_lib::lemma_len_subset(all, used);
}

impl<K> View for Client<K> {
    type V = ClientView<K>;

    closed spec fn view(&self) -> ClientView<K> {
        ClientView {
            seq: self.seq,
            waiting: self.waiters@.waiting,
            closed: self.waiters@.closed,
            shutdown: self.shutdown,
            has_dispatcher: self.has_dispatcher,
        }
    }
}

impl<K> Client<K> {
    /// Those who wait do so for different responses.
    pub closed spec fn wf(self) -> bool {
        self.waiters.wf()
    }

    /// A client that has made no request.
    pub fn new() -> (r: Client<K>)
        ensures
            r.wf(),
            r@ == (ClientView::<K> {
                seq: 0,
                waiting: Map::empty(),
                closed: false,
                shutdown: false,
                has_dispatcher: false,
            }),
    {
        Client { seq: 0, waiters: Waiters::new(), shutdown: false, has_dispatcher: false }
    }

    /// Sends a request, and lets `waiter` wait for the response.
    ///
    /// The sequence number is used up only once there is room in the channel. It
    /// is the next one that no other request in flight has.
    pub fn request<T>(
        &mut self,
        tx: &Sender<Request<T>, Reset>,
        pipe: &mut TrickyPipe<Request<T>, Reset>,
        waiter: K,
        body: T,
    ) -> (r: Requested<K, T>)
        requires
            old(self).wf(),
            old(pipe).wf(),
            old(self)@.goes_with(old(pipe)@),
        ensures
            final(self).wf(),
            final(pipe).wf(),
            match r {
                Requested::Sent(seq) => {
                    &&& !old(pipe)@.send_closed
                    &&& !old(pipe)@.full()
                    &&& old(self)@.is_next(seq)
                    &&& final(self)@ == old(self)@.after_request(seq, waiter)
                    &&& final(pipe)@ == old(pipe)@.push(Request { seq, body })
                },
                Requested::NoRoom { waiter: w, body: b } => {
                    &&& !old(pipe)@.send_closed
                    &&& old(pipe)@.full()
                    &&& w == waiter
                    &&& b == body
                    &&& final(self)@ == old(self)@
                    &&& final(pipe)@ == old(pipe)@
                },
                Requested::Failed { waiter: w, reset } => {
                    &&& old(pipe)@.send_closed
                    &&& reset == reset_of(old(pipe)@)
                    &&& w == waiter
                    &&& final(self)@ == old(self)@
                    &&& final(pipe)@ == old(pipe)@
                },
            },
    {
        proof {
            old(pipe).lemma_valid();
        }
        // acquire a send permit first --- this way, we don't increment the
        // sequence number until we actually have a channel reservation.
        let permit = match tx.poll_reserve(pipe) {
            Some(Ok(permit)) => permit,
            Some(Err(SendError::Disconnected(_))) => {
                return Requested::Failed { waiter, reset: Reset::BecauseISaidSo };
            },
            Some(Err(SendError::Error { error, .. })) => {
                return Requested::Failed { waiter, reset: error };
            },
            None => {
                return Requested::NoRoom { waiter, body };
            },
        };
        let ghost idx = permit.index();
        assert(old(pipe)@.reserved.insert(idx).remove(idx) =~= old(pipe)@.reserved);
        let start: usize = self.seq;
        let ghost mut d: int = 0;
        let ghost first = waiter;
        let mut held = waiter;
        loop
            invariant
                self.wf(),
                start == old(self)@.seq,
                0 <= d <= seq_numbers(),
                held == first,
                first == waiter,
                d < seq_numbers() ==> self.seq == seq_at(start, d),
                self.waiters@ == old(self).waiters@,
                self.shutdown == old(self).shutdown,
                self.has_dispatcher == old(self).has_dispatcher,
                !self.waiters@.closed,
                forall|i: int|
                    0 <= i < d ==> self.waiters@.waiting.contains_key(#[trigger] seq_at(start, i)),
                pipe.wf(),
                pipe@ == old(pipe)@.reserve(idx),
                idx == permit.index(),
                !old(pipe)@.reserved.contains(idx),
                old(pipe)@.reserved.insert(idx).remove(idx) == old(pipe)@.reserved,
                !old(pipe)@.send_closed,
                !old(pipe)@.full(),
            decreases seq_numbers() - d,
        {
            self.waiters.check_len();
            proof {
                if d == seq_numbers() {
                    lemma_all_in_use(self.waiters@.waiting, start);
                }
            }
            let seq: usize = self.seq;
            self.seq = seq.wrapping_add(1);
            // ensure waiter is enqueued before sending the request.
            match self.waiters.enqueue(seq, held) {
                Ok(_) => {
                    permit.send(pipe, Request { seq, body });
                    proof {
                        assert(old(self)@.is_nth(seq, d));
                    }
                    return Requested::Sent(seq);
                },
                // the sequence number is in use, try the next one.
                Err((_, back)) => {
                    held = back;
                    proof {
                        d = d + 1;
                    }
                },
            }
        }
    }

    /// Shuts down the client: the connection is reset, and those who waited for
    /// responses will get none.
    pub fn shutdown<T, U>(
        &mut self,
        tx: &Sender<Request<T>, Reset>,
        tx_pipe: &mut TrickyPipe<Request<T>, Reset>,
        rx: &Receiver<Response<U>, Reset>,
        rx_pipe: &mut TrickyPipe<Response<U>, Reset>,
    ) -> (r: Vec<(usize, K)>)
        requires
            old(self).wf(),
            old(tx_pipe).wf(),
            old(rx_pipe).wf(),
        ensures
            final(self).wf(),
            final(tx_pipe).wf(),
            final(rx_pipe).wf(),
            final(self)@ == (ClientView { shutdown: true, ..old(self)@.after_reset() }),
            final(tx_pipe)@ == old(tx_pipe)@.close_with_error(Reset::BecauseISaidSo),
            final(rx_pipe)@ == old(rx_pipe)@.close_with_error(Reset::BecauseISaidSo),
            lists(r@, old(self)@.waiting),
    {
        self.shutdown = true;
        let _ = tx.close_with_error(tx_pipe, Reset::BecauseISaidSo);
        let _ = rx.close_with_error(rx_pipe, Reset::BecauseISaidSo);
        self.waiters.close()
    }

    /// Starts the dispatcher. There can be only one.
    pub fn start_dispatch(&mut self) -> (r: Result<(), DispatchError>)
        requires
            old(self).wf(),
        ensures
            final(self).wf(),
            r == if old(self)@.has_dispatcher {
                Err::<(), DispatchError>(DispatchError::AlreadyRunning)
            } else {
                Ok(())
            },
            final(self)@ == (ClientView { has_dispatcher: true, ..old(self)@ }),
    {
        if self.has_dispatcher {
            return Err(DispatchError::AlreadyRunning);
        }
        self.has_dispatcher = true;
        Ok(())
    }

    /// One step of the dispatcher: takes a response from the connection, and finds
    /// who waits for it. When the connection was reset, everything is closed.
    pub fn dispatch<T, U>(
        &mut self,
        tx: &Sender<Request<T>, Reset>,
        tx_pipe: &mut TrickyPipe<Request<T>, Reset>,
        rx: &Receiver<Response<U>, Reset>,
        rx_pipe: &mut TrickyPipe<Response<U>, Reset>,
    ) -> (r: Dispatched<K, U>)
        requires
            old(self).wf(),
            old(tx_pipe).wf(),
            old(rx_pipe).wf(),
        ensures
            final(self).wf(),
            final(tx_pipe).wf(),
            final(rx_pipe).wf(),
            match r {
                Dispatched::Stopped => {
                    &&& old(self)@.shutdown
                    &&& final(self)@ == old(self)@
                    &&& final(tx_pipe)@ == old(tx_pipe)@
                    &&& final(rx_pipe)@ == old(rx_pipe)@
                },
                Dispatched::Pending => {
                    &&& !old(self)@.shutdown
                    &&& old(rx_pipe)@.starves(TryRecvError::Empty)
                    &&& final(self)@ == old(self)@
                    &&& final(tx_pipe)@ == old(tx_pipe)@
                    &&& final(rx_pipe)@ == old(rx_pipe)@
                },
                Dispatched::Deliver { waiter, body } => {
                    let response = old(rx_pipe)@.messages[0];
                    &&& !old(self)@.shutdown
                    &&& !old(self)@.closed
                    &&& old(rx_pipe)@.messages.len() > 0
                    &&& old(self)@.waiting.contains_key(response.seq)
                    &&& waiter == old(self)@.waiting[response.seq]
                    &&& body == response.body
                    &&& final(self)@ == old(self)@.after_response(response.seq)
                    &&& final(tx_pipe)@ == old(tx_pipe)@
                    &&& final(rx_pipe)@ == old(rx_pipe)@.pop()
                },
                Dispatched::Ignored { seq } => {
                    &&& !old(self)@.shutdown
                    &&& old(rx_pipe)@.messages.len() > 0
                    &&& seq == old(rx_pipe)@.messages[0].seq
                    &&& old(self)@.closed || !old(self)@.waiting.contains_key(seq)
                    &&& final(self)@ == old(self)@
                    &&& final(tx_pipe)@ == old(tx_pipe)@
                    &&& final(rx_pipe)@ == old(rx_pipe)@.pop()
                },
                Dispatched::Reset { reset, waiters } => {
                    &&& !old(self)@.shutdown
                    &&& old(rx_pipe)@.messages.len() == 0
                    &&& old(rx_pipe)@.recv_closed
                    &&& reset == reset_of(old(rx_pipe)@)
                    &&& final(self)@ == old(self)@.after_reset()
                    &&& final(tx_pipe)@ == old(tx_pipe)@.close_with_error(reset)
                    &&& final(rx_pipe)@ == old(rx_pipe)@.close_with_error(reset)
                    &&& lists(waiters@, old(self)@.waiting)
                },
            },
    {
        proof {
            old(rx_pipe).lemma_valid();
        }
        if self.shutdown {
            return Dispatched::Stopped;
        }
        let reset = match rx.poll_recv(rx_pipe) {
            None => {
                return Dispatched::Pending;
            },
            Some(Ok(Response { seq, body })) => {
                return match self.waiters.wake(seq) {
                    WakeOutcome::Woke(waiter) => Dispatched::Deliver { waiter, body },
                    _ => Dispatched::Ignored { seq },
                };
            },
            Some(Err(RecvError::Error(reset))) => reset,
            Some(Err(RecvError::Disconnected)) => Reset::BecauseISaidSo,
        };
        let _ = tx.close_with_error(tx_pipe, reset);
        let _ = rx.close_with_error(rx_pipe, reset);
        let waiters = self.waiters.close();
        Dispatched::Reset { reset, waiters }
    }

    /// What it means for a request that its waiter could not wait, or waited in
    /// vain.
    ///
    /// Nobody waits in vain for what was never waited for, or was handed out. And
    /// if nobody can wait any more, the channel is closed.
    pub fn handle_wait_error<T>(
        &self,
        tx: &Sender<Request<T>, Reset>,
        pipe: &mut TrickyPipe<Request<T>, Reset>,
        err: WaitError,
    ) -> (r: RequestError)
        requires
            old(pipe).wf(),
            err == WaitError::Closed || err == WaitError::Duplicate,
            err == WaitError::Closed ==> old(pipe)@.send_closed || old(pipe)@.full(),
        ensures
            final(pipe).wf(),
            final(pipe)@ == old(pipe)@,
            r == if err == WaitError::Duplicate {
                RequestError::SeqInUse
            } else {
                RequestError::Reset(reset_of(old(pipe)@))
            },
    {
        proof {
            old(pipe).lemma_valid();
        }
        match err {
            WaitError::Closed => match tx.try_reserve(pipe) {
                Err(TrySendError::Error { error, .. }) => RequestError::Reset(error),
                _ => RequestError::Reset(Reset::BecauseISaidSo),
            },
            _ => RequestError::SeqInUse,
        }
    }
}

// ---------------------------------------------------------------------------
// Laws
// ---------------------------------------------------------------------------

/// A request that is sent has a sequence number that no other request in flight
/// has, and the response to it is handed to the one who waits for it, once: a
/// second response with the same number is ignored. Others keep waiting.
pub proof fn responses_reach_their_request<K>(client: ClientView<K>, seq: usize, waiter: K)
    requires
        !client.closed,
        client.is_next(seq),
    ensures
        !client.waiting.contains_key(seq),
        client.after_request(seq, waiter).waiting.contains_key(seq),
        client.after_request(seq, waiter).waiting[seq] == waiter,
        !client.after_request(seq, waiter).after_response(seq).waiting.contains_key(seq),
        client.after_request(seq, waiter).after_response(seq).waiting == client.waiting,
{
    let d = choose|d: int| #[trigger] client.is_nth(seq, d);
    assert(client.is_nth(seq, d));
    assert(client.after_request(seq, waiter).after_response(seq).waiting =~= client.waiting);
}

impl<K> ClientView<K> {
    /// The client after requests, one after the other, of which each has the given
    /// sequence number, and those who wait for the responses.
    pub open spec fn after_requests(self, requests: Seq<(usize, K)>) -> ClientView<K>
        decreases requests.len(),
    {
        if requests.len() == 0 {
            self
        } else {
            let (seq, waiter) = requests.last();
            self.after_requests(requests.drop_last()).after_request(seq, waiter)
        }
    }

    /// Whether the requests may have been sent, one after the other.
    pub open spec fn may_send(self, requests: Seq<(usize, K)>) -> bool {
        forall|i: int|
            0 <= i < requests.len() ==> self.after_requests(requests.take(i)).is_next(
                (#[trigger] requests[i]).0,
            )
    }

    /// The client after responses with the given sequence numbers, one after the other.
    pub open spec fn after_responses(self, seqs: Seq<usize>) -> ClientView<K>
        decreases seqs.len(),
    {
        if seqs.len() == 0 {
            self
        } else {
            self.after_responses(seqs.drop_last()).after_response(seqs.last())
        }
    }
}

proof fn lemma_after_requests<K>(client: ClientView<K>, requests: Seq<(usize, K)>)
    requires
        client.may_send(requests),
    ensures
        forall|i: int, j: int|
            0 <= i < j < requests.len() ==> (#[trigger] requests[i]).0 != (
            #[trigger] requests[j]).0,
        forall|i: int|
            0 <= i < requests.len() ==> !client.waiting.contains_key((#[trigger] requests[i]).0),
        forall|i: int|
            0 <= i < requests.len() ==> client.after_requests(requests).waiting.contains_key(
                (#[trigger] requests[i]).0,
            ) && client.after_requests(requests).waiting[requests[i].0] == requests[i].1,
        forall|seq: usize| #[trigger]
            client.waiting.contains_key(seq) ==> client.after_requests(
                requests,
            ).waiting.contains_key(seq) && client.after_requests(requests).waiting[seq]
                == client.waiting[seq],
    decreases requests.len(),
{
    if requests.len() > 0 {
        let before = requests.drop_last();
        let last = requests.len() - 1;
        assert(client.may_send(before)) by {
            assert forall|i: int| 0 <= i < before.len() implies client.after_requests(
                before.take(i),
            ).is_next((#[trigger] before[i]).0) by {
                assert(before.take(i) =~= requests.take(i));
                assert(before[i] == requests[i]);
            }
        }
        lemma_after_requests(client, before);
        assert(requests.take(last) =~= before);
        let (seq, waiter) = requests[last];
        let state = client.after_requests(before);
        assert(state.is_next(seq));
        let d = choose|d: int| #[trigger] state.is_nth(seq, d);
        assert(state.is_nth(seq, d));
        assert(!state.waiting.contains_key(seq));
        assert forall|i: int| 0 <= i < last implies (#[trigger] requests[i]).0 != seq by {
            assert(before[i] == requests[i]);
        }
        assert forall|i: int, j: int| 0 <= i < j < requests.len() implies (
        #[trigger] requests[i]).0 != (#[trigger] requests[j]).0 by {
            if j < last {
                assert(before[i] == requests[i] && before[j] == requests[j]);
            }
        }
        assert forall|i: int| 0 <= i < requests.len() implies !client.waiting.contains_key(
            (#[trigger] requests[i]).0,
        ) by {
            if i < last {
                assert(before[i] == requests[i]);
            }
        }
        assert forall|i: int|
            0 <= i < requests.len() implies client.after_requests(requests).waiting.contains_key(
            (#[trigger] requests[i]).0,
        ) && client.after_requests(requests).waiting[requests[i].0] == requests[i].1 by {
            if i < last {
                assert(before[i] == requests[i]);
            }
        }
    }
}

proof fn lemma_after_responses<K>(client: ClientView<K>, seqs: Seq<usize>, seq: usize)
    requires
        !seqs.contains(seq),
    ensures
        client.after_responses(seqs).waiting.contains_key(seq) == client.waiting.contains_key(seq),
        client.waiting.contains_key(seq) ==> client.after_responses(seqs).waiting[seq]
            == client.waiting[seq],
        client.after_responses(seqs).closed == client.closed,
    decreases seqs.len(),
{
    if seqs.len() > 0 {
        let before = seqs.drop_last();
        assert forall|i: int| 0 <= i < before.len() implies before[i] != seq by {
            assert(seqs[i] == before[i]);
            assert(seqs.contains(seqs[i]));
        }
        assert(seqs.contains(seqs[seqs.len() - 1]));
        lemma_after_responses(client, before, seq);
    }
}

/// Any number of requests may be in flight at once: their sequence numbers differ from
/// each other and from those of earlier requests. In whatever order the server answers
/// them, each response is handed to the one who waits for it, with what the server made
/// of that very request, and to nobody else.
///
/// `order` says in which order the requests are answered; the first `k` of the
/// responses have come already, and the next one is on its way.
pub proof fn many_requests_are_answered_in_any_order<K, T, U>(
    client: ClientView<K>,
    requests: Seq<(usize, K)>,
    bodies: Seq<T>,
    serve: spec_fn(T) -> U,
    order: Seq<int>,
    k: int,
)
    requires
        !client.closed,
        client.may_send(requests),
        bodies.len() == requests.len(),
        order.no_duplicates(),
        forall|i: int| 0 <= i < order.len() ==> 0 <= #[trigger] order[i] < requests.len(),
        0 <= k < order.len(),
    ensures
        forall|i: int, j: int|
            0 <= i < j < requests.len() ==> (#[trigger] requests[i]).0 != (
            #[trigger] requests[j]).0,
        forall|i: int|
            0 <= i < requests.len() ==> !client.waiting.contains_key((#[trigger] requests[i]).0),
        ({
            let n = order[k];
            let answered = Seq::new(k as nat, |i: int| requests[order[i]].0);
            let state = client.after_requests(requests).after_responses(answered);
            let request = Request { seq: requests[n].0, body: bodies[n] };
            let response = Response { seq: request.seq, body: serve(request.body) };
            &&& !state.closed
            &&& state.waiting.contains_key(response.seq)
            &&& state.waiting[response.seq] == requests[n].1
            &&& response.body == serve(bodies[n])
            &&& !state.after_response(response.seq).waiting.contains_key(response.seq)
        }),
{
    lemma_after_requests(client, requests);
    lemma_requests_keep_open(client, requests);
    let n = order[k];
    let answered = Seq::new(k as nat, |i: int| requests[order[i]].0);
    let seq = requests[n].0;
    assert(!answered.contains(seq)) by {
        if answered.contains(seq) {
            let i = answered.index_of(seq);
            assert(answered[i] == requests[order[i]].0);
            assert(order[i] != order[k]);
            if order[i] < n {
                assert(requests[order[i]].0 != requests[n].0);
            } else {
                assert(requests[n].0 != requests[order[i]].0);
            }
        }
    }
    lemma_after_responses(client.after_requests(requests), answered, seq);
}

proof fn lemma_requests_keep_open<K>(client: ClientView<K>, requests: Seq<(usize, K)>)
    ensures
        client.after_requests(requests).closed == client.closed,
    decreases requests.len(),
{
    if requests.len() > 0 {
        lemma_requests_keep_open(client, requests.drop_last());
    }
}

/// Once the connection was reset, nobody waits any more, and every further request
/// fails with the reason of the reset.
pub proof fn reset_clients_fail_requests<K, T>(
    client: ClientView<K>,
    pipe: PipeView<T, Reset>,
    reset: Reset,
)
    requires
        pipe.valid(),
    ensures
        client.after_reset().waiting == Map::<usize, K>::empty(),
        client.after_reset().goes_with(pipe.close_with_error(reset)),
        pipe.close_with_error(reset).send_closed,
        reset_of(pipe.close_with_error(reset)) == match pipe.error {
            Some(first) => first,
            None => reset,
        },
{
}

/// How far `n` is ahead of `start`, counting on from the largest number to zero.
pub open spec fn ahead(start: usize, n: usize) -> int {
    if n >= start {
        n - start
    } else {
        n - start + usize::MAX + 1
    }
}

/// The sequence number of a request is the first, from the one to be tried next on, that
/// no request in flight has: all those before it are in flight. The one behind it is tried
/// next. The others who wait stay as they are.
pub proof fn requests_get_the_first_free_number<K>(client: ClientView<K>, seq: usize, waiter: K)
    requires
        client.is_next(seq),
    ensures
        !client.waiting.contains_key(seq),
        forall|n: usize| #[trigger]
            ahead(client.seq, n) < ahead(client.seq, seq) ==> client.waiting.contains_key(n),
        ({
            let after = client.after_request(seq, waiter);
            &&& ahead(seq, after.seq) == 1
            &&& after.waiting == client.waiting.insert(seq, waiter)
            &&& after.closed == client.closed && after.shutdown == client.shutdown
                && after.has_dispatcher == client.has_dispatcher
        }),
{
    let d = choose|d: int| #[trigger] client.is_nth(seq, d);
    assert(client.is_nth(seq, d));
    assert(ahead(client.seq, seq) == d);
    assert forall|n: usize| #[trigger] ahead(client.seq, n) < d implies client.waiting.contains_key(
        n,
    ) by {
        let i = ahead(client.seq, n);
        assert(seq_at(client.seq, i) == n);
    }
}

/// A free number is found whenever there is one.
pub proof fn free_numbers_are_found<K>(client: ClientView<K>, free: usize)
    requires
        !client.waiting.contains_key(free),
    ensures
        exists|seq: usize| #[trigger] client.is_next(seq),
{
    lemma_first_free(client, ahead(client.seq, free));
}

proof fn lemma_first_free<K>(client: ClientView<K>, d: int)
    requires
        0 <= d < seq_numbers(),
        !client.waiting.contains_key(seq_at(client.seq, d)),
    ensures
        exists|seq: usize| #[trigger] client.is_next(seq),
    decreases d,
{
    if forall|i: int| 0 <= i < d ==> client.waiting.contains_key(#[trigger] seq_at(client.seq, i)) {
        assert(client.is_nth(seq_at(client.seq, d), d));
        assert(client.is_next(seq_at(client.seq, d)));
    } else {
        let i = choose|i: int|
            0 <= i < d && !client.waiting.contains_key(#[trigger] seq_at(client.seq, i));
        lemma_first_free(client, i);
    }
}

/// A response removes the one who waits for it, and nobody else; a reset removes everybody,
/// and lets nobody wait again. Whoever is removed by a reset is listed, once. The reason is
/// the error that the channel was closed with, if there is one.
pub proof fn waiters_leave_when_answered<K, T>(
    client: ClientView<K>,
    seq: usize,
    list: Seq<(usize, K)>,
    pipe: PipeView<T, Reset>,
)
    ensures
        ({
            let after = client.after_response(seq);
            &&& after.waiting == client.waiting.remove(seq)
            &&& after.seq == client.seq && after.closed == client.closed && after.shutdown
                == client.shutdown && after.has_dispatcher == client.has_dispatcher
        }),
        ({
            let after = client.after_reset();
            &&& after.waiting == Map::<usize, K>::empty() && after.closed
            &&& after.seq == client.seq && after.shutdown == client.shutdown
                && after.has_dispatcher == client.has_dispatcher
        }),
        lists(list, client.waiting) ==> list.len() == client.waiting.len() && forall|i: int|
            0 <= i < list.len() ==> client.waiting.contains_key((#[trigger] list[i]).0)
                && client.waiting[list[i].0] == list[i].1,
        lists(list, client.waiting) ==> forall|i: int, j: int|
            0 <= i < j < list.len() ==> (#[trigger] list[i]).0 != (#[trigger] list[j]).0,
        pipe.error matches Some(reset) ==> reset_of(pipe) == reset,
        pipe.error is None ==> reset_of(pipe) is BecauseISaidSo,
        client.goes_with(pipe) <==> !client.closed || pipe.error is Some,
{
}

/// Requests and responses are laid out as the sequence number and the body; a response of
/// a stream has whether it is the last between them.
pub proof fn requests_are_laid_out_in_order<T: Codec>(seq: usize, last: bool, body: T::V)
    ensures
        <Request<T> as Codec>::encoding((seq, body)) == varint(seq as nat) + T::encoding(body),
        <Response<T> as Codec>::encoding((seq, body)) == varint(seq as nat) + T::encoding(body),
        <StreamingResponse<T> as Codec>::encoding((seq, (last, body))) == varint(seq as nat) + (
        seq![
            if last {
                1u8
            } else {
                0u8
            },
        ] + T::encoding(body)),
{
}

} // verus!
