//! The steps of an HTTP/3 attempt and of reading an HTTP/3 response body.

use vstd::prelude::*;
use vstd::string::StringExecFns;

use crate::body;
use crate::error::{Error, ErrorView, Result};
use crate::https_rr::{IpAddr, SocketAddr};
use crate::text;
use crate::time::{Duration, NANOS_PER_MILLI, NANOS_PER_SEC};

verus! {

/// Seconds between two keep-alive packets of a QUIC connection.
const H3_KEEP_ALIVE_SECS: u64 = 15;

/// Seconds after which an idle QUIC connection is closed.
const H3_MAX_IDLE_SECS: u64 = 120;

/// Milliseconds that connecting, and then setting HTTP/3 up, may take each.
pub const H3_CONNECT_TIMEOUT_MILLIS: u64 = 500;

/// Milliseconds that looking up the addresses of a host may take.
pub const H3_DNS_LOOKUP_TIMEOUT_MILLIS: u64 = 150;

/// Milliseconds that opening a stream may take.
pub const H3_STREAM_OPEN_TIMEOUT_MILLIS: u64 = 150;

/// Milliseconds that sending the body, and then finishing the request, may
/// take each.
pub const H3_STREAM_UPLOAD_TIMEOUT_MILLIS: u64 = 500;

/// How long a QUIC connection is kept up.
#[derive(Clone, Copy, Debug, PartialEq, Eq, Structural)]
pub struct H3TransportSettings {
    /// Time between two keep-alive packets.
    pub keep_alive: Duration,
    /// Time after which an idle connection is closed.
    pub max_idle: Duration,
}

/// How long QUIC connections are kept up: keep-alive packets every 15 seconds
/// keep one from becoming idle, and an idle one is closed after 120 seconds.
pub fn h3_transport_settings() -> (r: H3TransportSettings)
    ensures
        r.keep_alive@ == 15 * NANOS_PER_SEC,
        r.max_idle@ == 120 * NANOS_PER_SEC,
        r.keep_alive@ < r.max_idle@,
{
    H3TransportSettings {
        keep_alive: Duration::from_secs(H3_KEEP_ALIVE_SECS),
        max_idle: Duration::from_secs(H3_MAX_IDLE_SECS),
    }
}

/// Why an HTTP/3 attempt failed.
#[derive(Debug)]
pub enum Http3AttemptError {
    /// No connection came about.
    Handshake(String),
    /// There was a connection, and the request failed on it.
    Stream {
        /// Whether nothing of the request was on the wire yet.
        retry_without_h3: bool,
    },
}

/// The failure of a request of which something may be on the wire.
pub fn stream_error_after_request_started() -> (r: Http3AttemptError)
    ensures
        r == (Http3AttemptError::Stream { retry_without_h3: false }),
{
    Http3AttemptError::Stream { retry_without_h3: false }
}

/// The phases of an HTTP/3 attempt.
#[derive(Clone, Copy, Debug, PartialEq, Eq, Structural)]
pub enum H3Phase {
    /// Getting a UDP endpoint.
    OpenEndpoint,
    /// Finding an address of the host.
    ResolveAddress,
    /// The QUIC handshake.
    Connect,
    /// Setting HTTP/3 up on the connection.
    SetUp,
    /// Opening a stream and sending the head of the request.
    OpenStream,
    /// Sending the body.
    SendBody,
    /// Finishing the request.
    Finish,
    /// Waiting for the head of the response.
    ReceiveHead,
}

/// How the outside work of a phase ended.
#[derive(Debug)]
pub enum PhaseOutcome {
    /// It succeeded.
    Done,
    /// It took too long.
    TimedOut,
    /// It failed, for the reason given.
    Failed(String),
}

impl H3Phase {
    /// How long the phase may take, in nanoseconds; `None` is as long as the
    /// request may.
    pub open spec fn time_limit(self) -> Option<nat> {
        match self {
            H3Phase::ResolveAddress => Some(
                (H3_DNS_LOOKUP_TIMEOUT_MILLIS * NANOS_PER_MILLI) as nat,
            ),
            H3Phase::Connect | H3Phase::SetUp => Some(
                (H3_CONNECT_TIMEOUT_MILLIS * NANOS_PER_MILLI) as nat,
            ),
            H3Phase::OpenStream => Some((H3_STREAM_OPEN_TIMEOUT_MILLIS * NANOS_PER_MILLI) as nat),
            H3Phase::SendBody | H3Phase::Finish => Some(
                (H3_STREAM_UPLOAD_TIMEOUT_MILLIS * NANOS_PER_MILLI) as nat,
            ),
            H3Phase::OpenEndpoint | H3Phase::ReceiveHead => None,
        }
    }

    /// The phase that follows, for a request with or without a body.
    pub open spec fn following(self, has_body: bool) -> Option<H3Phase> {
        match self {
            H3Phase::OpenEndpoint => Some(H3Phase::ResolveAddress),
            H3Phase::ResolveAddress => Some(H3Phase::Connect),
            H3Phase::Connect => Some(H3Phase::SetUp),
            H3Phase::SetUp => Some(H3Phase::OpenStream),
            H3Phase::OpenStream => Some(
                if has_body {
                    H3Phase::SendBody
                } else {
                    H3Phase::Finish
                },
            ),
            H3Phase::SendBody => Some(H3Phase::Finish),
            H3Phase::Finish => Some(H3Phase::ReceiveHead),
            H3Phase::ReceiveHead => None,
        }
    }

    /// Whether the phase belongs to building the connection.
    pub open spec fn is_handshake(self) -> bool {
        self is OpenEndpoint || self is ResolveAddress || self is Connect || self is SetUp
    }

    /// Whether the head of the request was sent before the phase began.
    pub open spec fn is_on_wire(self) -> bool {
        self is SendBody || self is Finish || self is ReceiveHead
    }

    /// What is reported where a phase of the handshake takes too long.
    pub open spec fn time_limit_text(self) -> Seq<char> {
        match self {
            H3Phase::ResolveAddress => "HTTP/3 DNS lookup timed out after 150ms"@,
            H3Phase::Connect => "HTTP/3 connect timed out after 500ms"@,
            _ => "HTTP/3 setup timed out after 500ms"@,
        }
    }

    /// How long the phase may take.
    pub fn timeout(self) -> (r: Option<Duration>)
        ensures
            crate::time::optional_span(r) == self.time_limit(),
    {
        match self {
            H3Phase::ResolveAddress => Some(Duration::from_millis(H3_DNS_LOOKUP_TIMEOUT_MILLIS)),
            H3Phase::Connect | H3Phase::SetUp => Some(
                Duration::from_millis(H3_CONNECT_TIMEOUT_MILLIS),
            ),
            H3Phase::OpenStream => Some(Duration::from_millis(H3_STREAM_OPEN_TIMEOUT_MILLIS)),
            H3Phase::SendBody | H3Phase::Finish => Some(
                Duration::from_millis(H3_STREAM_UPLOAD_TIMEOUT_MILLIS),
            ),
            H3Phase::OpenEndpoint | H3Phase::ReceiveHead => None,
        }
    }

    /// Goes on from this phase. `Ok(None)` is the end of the attempt: the head
    /// of the response has arrived. Only a phase with a time limit can time
    /// out.
    pub fn next(self, has_body: bool, outcome: PhaseOutcome) -> (r: std::result::Result<
        Option<H3Phase>,
        Http3AttemptError,
    >)
        requires
            outcome is TimedOut ==> self.time_limit() is Some,
        ensures
            match (outcome, r) {
                (PhaseOutcome::Done, Ok(phase)) => phase == self.following(has_body),
                (PhaseOutcome::Done, Err(_)) => false,
                (_, Ok(_)) => false,
                (PhaseOutcome::TimedOut, Err(Http3AttemptError::Handshake(message))) =>
                    self.is_handshake() && message@ == self.time_limit_text(),
                (PhaseOutcome::Failed(detail), Err(Http3AttemptError::Handshake(message))) =>
                    self.is_handshake() && message@ == detail@,
                (_, Err(Http3AttemptError::Stream { retry_without_h3 })) => !self.is_handshake()
                    && retry_without_h3 == !self.is_on_wire(),
            },
    {
        match outcome {
            PhaseOutcome::Done => Ok(
                match self {
                    H3Phase::OpenEndpoint => Some(H3Phase::ResolveAddress),
                    H3Phase::ResolveAddress => Some(H3Phase::Connect),
                    H3Phase::Connect => Some(H3Phase::SetUp),
                    H3Phase::SetUp => Some(H3Phase::OpenStream),
                    H3Phase::OpenStream => if has_body {
                        Some(H3Phase::SendBody)
                    } else {
                        Some(H3Phase::Finish)
                    },
                    H3Phase::SendBody => Some(H3Phase::Finish),
                    H3Phase::Finish => Some(H3Phase::ReceiveHead),
                    H3Phase::ReceiveHead => None,
                },
            ),
            PhaseOutcome::TimedOut => match self {
                H3Phase::ResolveAddress => Err(
                    Http3AttemptError::Handshake(
                        "HTTP/3 DNS lookup timed out after 150ms".to_owned(),
                    ),
                ),
                H3Phase::Connect => Err(
                    Http3AttemptError::Handshake("HTTP/3 connect timed out after 500ms".to_owned()),
                ),
                H3Phase::SetUp => Err(
                    Http3AttemptError::Handshake("HTTP/3 setup timed out after 500ms".to_owned()),
                ),
                H3Phase::OpenStream => Err(Http3AttemptError::Stream { retry_without_h3: true }),
                _ => Err(stream_error_after_request_started()),
            },
            PhaseOutcome::Failed(detail) => match self {
                H3Phase::OpenEndpoint
                | H3Phase::ResolveAddress
                | H3Phase::Connect
                | H3Phase::SetUp => Err(Http3AttemptError::Handshake(detail)),
                H3Phase::OpenStream => Err(Http3AttemptError::Stream { retry_without_h3: true }),
                _ => Err(stream_error_after_request_started()),
            },
        }
    }
}

/// The address to connect to where the origin gave addresses: the first one.
pub fn hinted_socket_addr(addresses: &Vec<IpAddr>, port: u16) -> (r: Option<SocketAddr>)
    ensures
        match r {
            Some(addr) => addresses@.len() > 0 && addr == (SocketAddr { ip: addresses@[0], port }),
            None => addresses@.len() == 0,
        },
{
    if addresses.len() > 0 {
        Some(SocketAddr { ip: addresses[0], port })
    } else {
        None
    }
}

/// The address to connect to where the addresses of the host had to be looked
/// up: the first one.
pub fn first_socket_addr(host: &str, port: u16, addrs: &Vec<SocketAddr>) -> (r: std::result::Result<
    SocketAddr,
    String,
>)
    ensures
        match r {
            Ok(addr) => addrs@.len() > 0 && addr == addrs@[0],
            Err(message) => addrs@.len() == 0 && message@ == "no socket addresses for "@ + host@
                + ":"@ + text::decimal(port as nat),
        },
{
    if addrs.len() > 0 {
        Ok(addrs[0])
    } else {
        let message = text::join3("no socket addresses for ", host, ":");
        Err(message.concat(text::decimal_text(port as u64).as_str()))
    }
}

/// How far a response body was read. `S` is the type of streams, `F` that of
/// reads that are under way.
#[derive(Debug)]
pub enum H3ResponseBodyState<S, F> {
    /// The next chunk can be asked for, if the stream is still there.
    Ready(Option<S>),
    /// A chunk was asked for.
    Reading(F),
    /// There is nothing more to read.
    Done,
}

/// What is to be done for the next chunk of a body.
#[derive(Debug)]
pub enum H3BodyAction<S> {
    /// Start a read on the stream.
    Start(S),
    /// Wait for the read that is under way.
    Wait,
    /// Report the end of the body.
    End,
}

/// What a read on a stream gave.
#[derive(Debug)]
pub enum H3ReadOutcome {
    /// A chunk.
    Chunk(bytes::Bytes),
    /// The end of the data.
    End,
    /// A failure, for the reason given.
    Failed(String),
}

impl H3ReadOutcome {
    /// The item of the body that the read gives; `None` is the end of the body.
    pub open spec fn item(self) -> Option<std::result::Result<Seq<u8>, ErrorView>> {
        match self {
            H3ReadOutcome::Chunk(chunk) => Some(Ok(body::contents(chunk))),
            H3ReadOutcome::End => None,
            H3ReadOutcome::Failed(detail) => Some(Err(ErrorView::Cancelled(detail@))),
        }
    }
}

/// What an item of a body says.
pub open spec fn item_view(item: Option<Result<bytes::Bytes>>) -> Option<
    std::result::Result<Seq<u8>, ErrorView>,
> {
    match item {
        Some(Ok(chunk)) => Some(Ok(body::contents(chunk))),
        Some(Err(error)) => Some(Err(error@)),
        None => None,
    }
}

impl<S, F> H3ResponseBodyState<S, F> {
    /// What is to be done for the next chunk.
    pub open spec fn action(self) -> H3BodyAction<S> {
        match self {
            H3ResponseBodyState::Ready(Some(stream)) => H3BodyAction::Start(stream),
            H3ResponseBodyState::Reading(_) => H3BodyAction::Wait,
            _ => H3BodyAction::End,
        }
    }

    /// The state in which handing that out leaves the body.
    pub open spec fn acted(self) -> H3ResponseBodyState<S, F> {
        match self {
            H3ResponseBodyState::Ready(Some(_)) => H3ResponseBodyState::Ready(None),
            H3ResponseBodyState::Reading(read) => H3ResponseBodyState::Reading(read),
            _ => H3ResponseBodyState::Done,
        }
    }

    /// The state in which a read on `stream` leaves the body.
    pub open spec fn after_read(stream: S, outcome: H3ReadOutcome) -> H3ResponseBodyState<S, F> {
        match outcome {
            H3ReadOutcome::Chunk(_) => H3ResponseBodyState::Ready(Some(stream)),
            _ => H3ResponseBodyState::Done,
        }
    }

}

impl<S, F> H3ResponseBodyState<S, F> {
    /// Nothing was read yet.
    pub fn new(stream: S) -> (r: H3ResponseBodyState<S, F>)
        ensures
            r == H3ResponseBodyState::<S, F>::Ready(Some(stream)),
    {
        H3ResponseBodyState::Ready(Some(stream))
    }

    /// What is to be done for the next chunk. A stream that is handed out is no
    /// longer held here.
    pub fn next_action(&mut self) -> (r: H3BodyAction<S>)
        ensures
            r == old(self).action(),
            *final(self) == old(self).acted(),
    {
        match self {
            H3ResponseBodyState::Ready(slot) => {
                if let Some(stream) = slot.take() {
                    return H3BodyAction::Start(stream);
                }
            },
            H3ResponseBodyState::Reading(_) => return H3BodyAction::Wait,
            H3ResponseBodyState::Done => return H3BodyAction::End,
        }
        *self = H3ResponseBodyState::Done;
        H3BodyAction::End
    }

    /// A read was started.
    pub fn started(&mut self, read: F)
        ensures
            *final(self) == H3ResponseBodyState::<S, F>::Reading(read),
    {
        *self = H3ResponseBodyState::Reading(read);
    }

    /// A read on `stream` ended: gives the next item of the body, `None` at its
    /// end.
    pub fn finished(&mut self, stream: S, outcome: H3ReadOutcome) -> (r: Option<
        Result<bytes::Bytes>,
    >)
        ensures
            item_view(r) == outcome.item(),
            *final(self) == H3ResponseBodyState::<S, F>::after_read(stream, outcome),
    {
        match outcome {
            H3ReadOutcome::Chunk(chunk) => {
                *self = H3ResponseBodyState::Ready(Some(stream));
                Some(Ok(chunk))
            },
            H3ReadOutcome::End => {
                *self = H3ResponseBodyState::Done;
                None
            },
            H3ReadOutcome::Failed(detail) => {
                *self = H3ResponseBodyState::Done;
                Some(Err(Error::Cancelled(detail)))
            },
        }
    }

    /// The stream that is to be cancelled where the body is given up: one on
    /// which no read is under way and whose end was not seen.
    pub fn abandon(&mut self) -> (r: Option<S>)
        ensures
            match *old(self) {
                H3ResponseBodyState::Ready(stream) => r == stream,
                _ => r is None,
            },
            *final(self) == H3ResponseBodyState::<S, F>::Done,
    {
        let mut state = H3ResponseBodyState::Done;
        std::mem::swap(self, &mut state);
        match state {
            H3ResponseBodyState::Ready(stream) => stream,
            _ => None,
        }
    }
}

/// A response body. It holds the sender of the connection, of type `K`: without
/// a sender the connection closes.
#[derive(Debug)]
pub struct H3ResponseBody<S, F, K> {
    state: H3ResponseBodyState<S, F>,
    sender: K,
}

impl<S, F, K> H3ResponseBody<S, F, K> {
    /// How far the body was read.
    pub closed spec fn state(self) -> H3ResponseBodyState<S, F> {
        self.state
    }

    /// The sender of the connection.
    pub closed spec fn sender(self) -> K {
        self.sender
    }

    /// A body of which nothing was read yet.
    pub fn new(stream: S, sender: K) -> (r: H3ResponseBody<S, F, K>)
        ensures
            r.state() == H3ResponseBodyState::<S, F>::Ready(Some(stream)),
            r.sender() == sender,
    {
        H3ResponseBody { state: H3ResponseBodyState::new(stream), sender }
    }

    /// What is to be done for the next chunk.
    pub fn next_action(&mut self) -> (r: H3BodyAction<S>)
        ensures
            r == old(self).state().action(),
            final(self).state() == old(self).state().acted(),
            final(self).sender() == old(self).sender(),
    {
        self.state.next_action()
    }

    /// A read was started.
    pub fn started(&mut self, read: F)
        ensures
            final(self).state() == H3ResponseBodyState::<S, F>::Reading(read),
            final(self).sender() == old(self).sender(),
    {
        self.state.started(read)
    }

    /// The read that is under way.
    pub fn reading(&mut self) -> (r: Option<&mut F>)
        ensures
            match r {
                Some(read) => old(self).state() == H3ResponseBodyState::<S, F>::Reading(*read)
                    && final(self).state() == H3ResponseBodyState::<S, F>::Reading(*final(read)),
                None => !(old(self).state() is Reading) && final(self).state()
                    == old(self).state(),
            },
            final(self).sender() == old(self).sender(),
    {
        match &mut self.state {
            H3ResponseBodyState::Reading(read) => Some(read),
            _ => None,
        }
    }

    /// A read on `stream` ended: gives the next item of the body, `None` at its
    /// end.
    pub fn finished(&mut self, stream: S, outcome: H3ReadOutcome) -> (r: Option<
        Result<bytes::Bytes>,
    >)
        ensures
            item_view(r) == outcome.item(),
            final(self).state() == H3ResponseBodyState::<S, F>::after_read(stream, outcome),
            final(self).sender() == old(self).sender(),
    {
        self.state.finished(stream, outcome)
    }

    /// The stream that is to be cancelled where the body is given up: one on
    /// which no read is under way and whose end was not seen.
    pub fn abandon(&mut self) -> (r: Option<S>)
        ensures
            match old(self).state() {
                H3ResponseBodyState::Ready(stream) => r == stream,
                _ => r is None,
            },
            final(self).state() == H3ResponseBodyState::<S, F>::Done,
            final(self).sender() == old(self).sender(),
    {
        self.state.abandon()
    }
}

/// The reads of a body: each gives the stream back, and what it read.
pub type Reads<S> = Seq<(S, H3ReadOutcome)>;

impl<S, F> H3ResponseBodyState<S, F> {
    /// The state after an item was asked for, where a read, if one is made for
    /// it, ends with `read`. A read that is started is waited for.
    pub open spec fn polled(self, read: (S, H3ReadOutcome)) -> H3ResponseBodyState<S, F> {
        if self.action() is End {
            self.acted()
        } else {
            H3ResponseBodyState::after_read(read.0, read.1)
        }
    }

    /// The item that is given: what the read gave, or the end where none is
    /// made.
    pub open spec fn polled_item(self, read: (S, H3ReadOutcome)) -> Option<
        std::result::Result<Seq<u8>, ErrorView>,
    > {
        if self.action() is End {
            None
        } else {
            read.1.item()
        }
    }

    /// The state after `k` items were asked for, of which the one numbered `i`
    /// is read with `reads[i]`.
    pub open spec fn after_polls(self, reads: Reads<S>, k: nat) -> H3ResponseBodyState<S, F>
        decreases k,
    {
        if k == 0 {
            self
        } else {
            self.after_polls(reads, (k - 1) as nat).polled(reads[k - 1])
        }
    }

    /// The item numbered `k`.
    pub open spec fn item_at(self, reads: Reads<S>, k: nat) -> Option<
        std::result::Result<Seq<u8>, ErrorView>,
    > {
        self.after_polls(reads, k).polled_item(reads[k as int])
    }
}

/// Whether `reads` are those of a whole body: chunks, and then the end of the
/// data or a failure.
pub open spec fn is_whole_body<S>(reads: Reads<S>) -> bool {
    &&& reads.len() > 0
    &&& !(reads.last().1 is Chunk)
    &&& forall|i: int| 0 <= i < reads.len() - 1 ==> (#[trigger] reads[i]).1 is Chunk
}

/// A body that is read from its beginning gives each chunk once, whole and in
/// order, then its end or the failure, and ever after the end. Each read is made
/// on the stream that the one before gave back, and none is made after the end
/// or the failure.
pub proof fn law_body_gives_what_is_read<S, F>(stream: S, reads: Reads<S>, k: nat)
    requires
        is_whole_body(reads),
    ensures
        ({
            let start = H3ResponseBodyState::<S, F>::Ready(Some(stream));
            let before = start.after_polls(reads, k);
            &&& k < reads.len() ==> start.item_at(reads, k) == reads[k as int].1.item()
            &&& k < reads.len() ==> match reads[k as int].1 {
                H3ReadOutcome::Chunk(chunk) => start.item_at(reads, k) == Some(
                    Ok::<Seq<u8>, ErrorView>(body::contents(chunk)),
                ),
                H3ReadOutcome::End => start.item_at(reads, k) is None,
                H3ReadOutcome::Failed(detail) => start.item_at(reads, k) == Some(
                    Err::<Seq<u8>, ErrorView>(ErrorView::Cancelled(detail@)),
                ),
            }
            &&& k < reads.len() ==> before.action() == H3BodyAction::Start(
                if k == 0 {
                    stream
                } else {
                    reads[k - 1].0
                },
            )
            &&& k >= reads.len() ==> start.item_at(reads, k) is None
            &&& k >= reads.len() ==> before.action() is End
        }),
    decreases k,
{
    if k > 0 {
        law_body_gives_what_is_read::<S, F>(stream, reads, (k - 1) as nat);
        if k < reads.len() {
            assert(reads[k - 1].1 is Chunk);
        } else if k == reads.len() {
            assert(reads[k - 1] == reads.last());
        }
    }
}

/// What the chunks of a body hold together.
pub open spec fn chunk_bytes<S>(reads: Reads<S>) -> Seq<u8>
    decreases reads.len(),
{
    if reads.len() == 0 {
        Seq::empty()
    } else {
        match reads.last().1 {
            H3ReadOutcome::Chunk(chunk) => chunk_bytes(reads.drop_last()) + body::contents(chunk),
            _ => chunk_bytes(reads.drop_last()),
        }
    }
}

/// What the first `k` items of a body hold together.
pub open spec fn item_bytes<S, F>(stream: S, reads: Reads<S>, k: nat) -> Seq<u8>
    decreases k,
{
    if k == 0 {
        Seq::empty()
    } else {
        let start = H3ResponseBodyState::<S, F>::Ready(Some(stream));
        let held = item_bytes::<S, F>(stream, reads, (k - 1) as nat);
        match start.item_at(reads, (k - 1) as nat) {
            Some(Ok(bytes)) => held + bytes,
            _ => held,
        }
    }
}

/// The items of a body, however many are asked for from its end on, hold what
/// its chunks hold.
pub proof fn law_body_is_complete<S, F>(stream: S, reads: Reads<S>, k: nat)
    requires
        is_whole_body(reads),
    ensures
        item_bytes::<S, F>(stream, reads, k) == chunk_bytes(
            reads.take(if k < reads.len() { k as int } else { reads.len() as int }),
        ),
    decreases k,
{
    if k == 0 {
        assert(reads.take(0) == Seq::<(S, H3ReadOutcome)>::empty());
    } else {
        law_body_is_complete::<S, F>(stream, reads, (k - 1) as nat);
        law_body_gives_what_is_read::<S, F>(stream, reads, (k - 1) as nat);
        if k <= reads.len() {
            assert(reads.take(k as int).drop_last() == reads.take(k - 1));
            assert(reads.take(k as int).last() == reads[k - 1]);
        }
    }
}

impl H3Phase {
    /// The place of the phase in an attempt.
    pub open spec fn rank(self) -> nat {
        match self {
            H3Phase::OpenEndpoint => 0,
            H3Phase::ResolveAddress => 1,
            H3Phase::Connect => 2,
            H3Phase::SetUp => 3,
            H3Phase::OpenStream => 4,
            H3Phase::SendBody => 5,
            H3Phase::Finish => 6,
            H3Phase::ReceiveHead => 7,
        }
    }
}

/// An attempt goes forward through its phases: it ends after at most eight of
/// them, the handshake comes first, and once something of the request is on the
/// wire that stays so.
pub proof fn law_phases_go_forward(phase: H3Phase, has_body: bool)
    ensures
        phase.rank() < 8,
        phase.following(has_body) matches Some(next) ==> phase.rank() < next.rank(),
        phase.following(has_body) matches Some(next) ==> (next.is_handshake()
            ==> phase.is_handshake()),
        phase.following(has_body) matches Some(next) ==> (phase.is_on_wire()
            ==> next.is_on_wire()),
        phase.following(has_body) is None <==> phase is ReceiveHead,
{
}

/// A body is sent if and only if the request has one.
pub proof fn law_body_is_sent_once(phase: H3Phase, has_body: bool)
    ensures
        phase.following(has_body) == Some(H3Phase::SendBody) <==> phase is OpenStream && has_body,
        phase is OpenStream && !has_body ==> phase.following(has_body) == Some(H3Phase::Finish),
{
}

/// How long each phase may take: 150 milliseconds for finding an address and for
/// opening a stream, 500 for the handshake, for setting up, for the body and for
/// finishing, and for the others as long as the request may. What is reported of
/// a phase of the handshake names its limit.
pub proof fn law_time_limits()
    ensures
        H3Phase::OpenEndpoint.time_limit() is None,
        H3Phase::ResolveAddress.time_limit() == Some(150_000_000nat),
        H3Phase::Connect.time_limit() == Some(500_000_000nat),
        H3Phase::SetUp.time_limit() == Some(500_000_000nat),
        H3Phase::OpenStream.time_limit() == Some(150_000_000nat),
        H3Phase::SendBody.time_limit() == Some(500_000_000nat),
        H3Phase::Finish.time_limit() == Some(500_000_000nat),
        H3Phase::ReceiveHead.time_limit() is None,
        H3Phase::ResolveAddress.time_limit_text() == "HTTP/3 DNS lookup timed out after 150ms"@,
        H3Phase::Connect.time_limit_text() == "HTTP/3 connect timed out after 500ms"@,
        H3Phase::SetUp.time_limit_text() == "HTTP/3 setup timed out after 500ms"@,
{
}

/// Each phase is followed by the next one, the body being passed over where
/// there is none.
pub proof fn law_phases_in_order(has_body: bool)
    ensures
        H3Phase::OpenEndpoint.following(has_body) == Some(H3Phase::ResolveAddress),
        H3Phase::ResolveAddress.following(has_body) == Some(H3Phase::Connect),
        H3Phase::Connect.following(has_body) == Some(H3Phase::SetUp),
        H3Phase::SetUp.following(has_body) == Some(H3Phase::OpenStream),
        has_body ==> H3Phase::OpenStream.following(has_body) == Some(H3Phase::SendBody),
        !has_body ==> H3Phase::OpenStream.following(has_body) == Some(H3Phase::Finish),
        H3Phase::SendBody.following(has_body) == Some(H3Phase::Finish),
        H3Phase::Finish.following(has_body) == Some(H3Phase::ReceiveHead),
        H3Phase::ReceiveHead.following(has_body) is None,
{
}

/// The first four phases build the connection, the opening of the stream comes
/// after them, and the rest come when the head of the request was sent.
pub proof fn law_stream_opening_divides_the_phases(phase: H3Phase)
    ensures
        phase.is_handshake() <==> phase == H3Phase::OpenEndpoint || phase
            == H3Phase::ResolveAddress || phase == H3Phase::Connect || phase == H3Phase::SetUp,
        phase.is_on_wire() <==> phase == H3Phase::SendBody || phase == H3Phase::Finish || phase
            == H3Phase::ReceiveHead,
        phase.is_handshake() || phase.is_on_wire() || phase == H3Phase::OpenStream,
{
}

/// A stream is handed out once: then it is not held any more, and until a read
/// gives it back there is nothing to read. A read that is under way is waited
/// for, and stays under way.
pub proof fn law_stream_is_handed_out_once<S, F>(stream: S, read: F)
    ensures
        ({
            let ready = H3ResponseBodyState::<S, F>::Ready(Some(stream));
            let reading = H3ResponseBodyState::<S, F>::Reading(read);
            let done = H3ResponseBodyState::<S, F>::Done;
            let empty = H3ResponseBodyState::<S, F>::Ready(None);
            &&& ready.action() == H3BodyAction::Start(stream) && ready.acted() == empty
            &&& empty.action() is End && empty.acted() == done
            &&& reading.action() is Wait && reading.acted() == reading
            &&& done.action() is End && done.acted() == done
        }),
{
}

/// What is said of an item is what it holds.
pub proof fn law_view_of_an_item(chunk: bytes::Bytes, error: Error)
    ensures
        item_view(Some(Ok(chunk))) == Some(Ok::<Seq<u8>, ErrorView>(body::contents(chunk))),
        item_view(Some(Err(error))) == Some(Err::<Seq<u8>, ErrorView>(error@)),
        item_view(None) is None,
{
}

} // verus!
