//! What is decided while a request is sent: where HTTP/3 is tried, how often,
//! and what comes of each outcome.

use vstd::prelude::*;
use vstd::string::StringExecFns;

use crate::alt_svc;
use crate::alt_svc::{AltSvcEntry, AltSvcEntryView, AltSvcUpdateView};
use crate::caches::{CachesView, Http3Caches};
use crate::error::{Error, ErrorView, Result};
use crate::headers;
use crate::http3::{H3Phase, Http3AttemptError};
use crate::https_rr::{HttpsRrEntry, HttpsRrEntryView, IpAddr};
use crate::origin::Origin;
use crate::request::{Sending, SendingView};
use crate::response::{ReadView, Response, ResponseView};
use crate::text;
use crate::time::{Duration, Instant};
use crate::uri;

verus! {

/// Milliseconds that looking up HTTPS records may take.
pub const H3_HTTPS_RR_LOOKUP_TIMEOUT_MILLIS: u64 = 150;

/// What to do where a request failed on an HTTP/3 connection.
#[derive(Clone, Copy, Debug, PartialEq, Eq, Structural)]
pub enum H3StreamFailureAction {
    /// Try again over a fresh HTTP/3 connection.
    RetryFreshH3,
    /// Send the request over TCP.
    UseTcp,
}

/// What to do where attempt number `attempt`, counted from zero, failed: a
/// first attempt of which nothing was on the wire is made again.
pub open spec fn stream_failure_action(
    retry_without_h3: bool,
    attempt: usize,
) -> H3StreamFailureAction {
    if retry_without_h3 && attempt == 0 {
        H3StreamFailureAction::RetryFreshH3
    } else {
        H3StreamFailureAction::UseTcp
    }
}

/// What to do where attempt number `attempt`, counted from zero, failed on an
/// HTTP/3 connection.
pub fn h3_stream_failure_action(retry_without_h3: bool, attempt: usize) -> (r:
    H3StreamFailureAction)
    ensures
        r == stream_failure_action(retry_without_h3, attempt),
{
    if retry_without_h3 && attempt == 0 {
        H3StreamFailureAction::RetryFreshH3
    } else {
        H3StreamFailureAction::UseTcp
    }
}

/// Where HTTP/3 is tried.
#[derive(Debug)]
pub struct Http3RequestTarget {
    /// The host, whose name the certificate has to bear.
    pub authority_host: String,
    /// UDP port.
    pub port: u16,
    /// Addresses of the host; none if they have to be looked up.
    pub addresses: Vec<IpAddr>,
}

/// What an [`Http3RequestTarget`] says.
pub struct TargetView {
    /// The host.
    pub authority_host: Seq<char>,
    /// UDP port.
    pub port: u16,
    /// Addresses of the host.
    pub addresses: Seq<IpAddr>,
}

impl View for Http3RequestTarget {
    type V = TargetView;

    open spec fn view(&self) -> TargetView {
        TargetView {
            authority_host: self.authority_host@,
            port: self.port,
            addresses: self.addresses@,
        }
    }
}

/// The target that an alternative names.
pub open spec fn alt_svc_target(origin: (Seq<char>, u16), entry: AltSvcEntryView) -> TargetView {
    TargetView {
        authority_host: match entry.host {
            Some(host) => host,
            None => origin.0,
        },
        port: entry.port,
        addresses: Seq::empty(),
    }
}

/// The target that an HTTPS record names.
pub open spec fn https_rr_target(origin: (Seq<char>, u16), entry: HttpsRrEntryView) -> TargetView {
    TargetView { authority_host: origin.0, port: entry.port, addresses: entry.addresses }
}

/// The target that an alternative names.
fn target_of_alt_svc(origin: &Origin, entry: AltSvcEntry) -> (r: Http3RequestTarget)
    ensures
        r@ == alt_svc_target(origin@, entry@),
{
    let authority_host = match entry.host {
        Some(host) => host,
        None => origin.host.clone(),
    };
    Http3RequestTarget { authority_host, port: entry.port, addresses: Vec::new() }
}

/// The target that an HTTPS record names.
fn target_of_https_rr(origin: &Origin, entry: HttpsRrEntry) -> (r: Http3RequestTarget)
    ensures
        r@ == https_rr_target(origin@, entry@),
{
    Http3RequestTarget {
        authority_host: origin.host.clone(),
        port: entry.port,
        addresses: entry.addresses,
    }
}

/// How far trying HTTP/3 has come.
#[derive(Debug)]
pub enum Http3Stage {
    /// The alternative that the origin offered is tried.
    AltSvc {
        /// Where.
        target: Http3RequestTarget,
        /// How many attempts at it failed.
        attempt: usize,
    },
    /// The HTTPS records of the origin have to be looked up.
    LookUp,
    /// What the HTTPS records say is tried.
    HttpsRr {
        /// Where.
        target: Http3RequestTarget,
        /// How many attempts at it failed.
        attempt: usize,
    },
    /// HTTP/3 is not tried any more.
    UseTcp,
}

/// What an [`Http3Stage`] says.
pub enum StageView {
    /// The alternative is tried.
    AltSvc {
        /// Where.
        target: TargetView,
        /// How many attempts at it failed.
        attempt: usize,
    },
    /// The HTTPS records have to be looked up.
    LookUp,
    /// What the HTTPS records say is tried.
    HttpsRr {
        /// Where.
        target: TargetView,
        /// How many attempts at it failed.
        attempt: usize,
    },
    /// HTTP/3 is not tried any more.
    UseTcp,
}

impl View for Http3Stage {
    type V = StageView;

    open spec fn view(&self) -> StageView {
        match *self {
            Http3Stage::AltSvc { target, attempt } => StageView::AltSvc {
                target: target@,
                attempt,
            },
            Http3Stage::LookUp => StageView::LookUp,
            Http3Stage::HttpsRr { target, attempt } => StageView::HttpsRr {
                target: target@,
                attempt,
            },
            Http3Stage::UseTcp => StageView::UseTcp,
        }
    }
}

/// Trying a request over HTTP/3.
#[derive(Debug)]
pub struct TryHttp3 {
    origin: Origin,
    now: Instant,
    negative_for: Duration,
    stage: Http3Stage,
}

/// What a [`TryHttp3`] says.
pub struct TryView {
    /// The origin.
    pub origin: (Seq<char>, u16),
    /// When the trying began.
    pub now: nat,
    /// For how long HTTP/3 is not tried after a failure.
    pub negative_for: nat,
    /// How far it has come.
    pub stage: StageView,
}

impl View for TryHttp3 {
    type V = TryView;

    closed spec fn view(&self) -> TryView {
        TryView {
            origin: self.origin@,
            now: self.now@,
            negative_for: self.negative_for@,
            stage: self.stage@,
        }
    }
}

/// What is to be done next.
#[derive(Debug)]
pub enum Http3Action<'a> {
    /// Make an attempt.
    Attempt(&'a Http3RequestTarget),
    /// Look the HTTPS records of the origin up.
    LookUp,
    /// Send the request over TCP.
    UseTcp,
}

/// What comes of an attempt.
#[derive(Debug)]
pub enum Http3Progress<R> {
    /// There is a response.
    Answered(R),
    /// There is none yet.
    Continue(TryHttp3),
}

/// The stage that an HTTPS record leads to: an attempt, if it advertises HTTP/3.
pub open spec fn stage_of_record(
    origin: (Seq<char>, u16),
    entry: Option<HttpsRrEntryView>,
) -> StageView {
    match entry {
        Some(entry) => if entry.has_h3 {
            StageView::HttpsRr { target: https_rr_target(origin, entry), attempt: 0 }
        } else {
            StageView::UseTcp
        },
        None => StageView::UseTcp,
    }
}

/// The stage in which there is no alternative to try any more: what is known of
/// the HTTPS records decides, or they have to be looked up.
pub open spec fn stage_of_records(
    caches: CachesView,
    origin: (Seq<char>, u16),
    now: nat,
) -> StageView {
    match caches.fresh_https_rr(origin, now) {
        Some(entry) => stage_of_record(origin, Some(entry)),
        None => StageView::LookUp,
    }
}

/// The stage in which trying HTTP/3 begins: not at all at an origin where it
/// failed, then with the alternative, then with the HTTPS records.
pub open spec fn first_stage(caches: CachesView, origin: (Seq<char>, u16), now: nat) -> StageView {
    if caches.blocks(origin, now) {
        StageView::UseTcp
    } else {
        match caches.fresh_alt_svc(origin, now) {
            Some(entry) => StageView::AltSvc {
                target: alt_svc_target(origin, entry),
                attempt: 0,
            },
            None => stage_of_records(caches, origin, now),
        }
    }
}

/// What is left of the caches once trying HTTP/3 has begun.
pub open spec fn caches_at_first(
    caches: CachesView,
    origin: (Seq<char>, u16),
    now: nat,
) -> CachesView {
    if caches.blocks(origin, now) {
        caches
    } else {
        let asked = caches.negative_asked(origin, now).alt_svc_asked(origin, now);
        match caches.fresh_alt_svc(origin, now) {
            Some(_) => asked,
            None => asked.https_rr_asked(origin, now),
        }
    }
}

/// Whether a failed attempt is made again over a fresh connection.
pub open spec fn is_retried(error: Http3AttemptError, attempt: usize) -> bool {
    match error {
        Http3AttemptError::Handshake(_) => false,
        Http3AttemptError::Stream { retry_without_h3 } => stream_failure_action(
            retry_without_h3,
            attempt,
        ) is RetryFreshH3,
    }
}

impl TryView {
    /// The caches once the attempts at a target have failed.
    pub open spec fn caches_after_failure(self, caches: CachesView) -> CachesView {
        caches.failed(self.origin, self.now + self.negative_for)
    }

    /// The stage that a failed attempt leads to.
    pub open spec fn stage_after(self, caches: CachesView, error: Http3AttemptError) -> StageView {
        match self.stage {
            StageView::AltSvc { target, attempt } => if is_retried(error, attempt) {
                StageView::AltSvc { target, attempt: 1 }
            } else {
                stage_of_records(self.caches_after_failure(caches), self.origin, self.now)
            },
            StageView::HttpsRr { target, attempt } => if is_retried(error, attempt) {
                StageView::HttpsRr { target, attempt: 1 }
            } else {
                StageView::UseTcp
            },
            other => other,
        }
    }

    /// The caches that a failed attempt leads to.
    pub open spec fn caches_after(
        self,
        caches: CachesView,
        error: Http3AttemptError,
    ) -> CachesView {
        match self.stage {
            StageView::AltSvc { target, attempt } => if is_retried(error, attempt) {
                caches
            } else {
                self.caches_after_failure(caches).https_rr_asked(self.origin, self.now)
            },
            StageView::HttpsRr { target, attempt } => if is_retried(error, attempt) {
                caches
            } else {
                self.caches_after_failure(caches)
            },
            _ => caches,
        }
    }
}

/// The record that a lookup gave, if it was in time, succeeded and found one.
pub open spec fn looked_up_entry(lookup: Option<Result<Option<HttpsRrEntry>>>) -> Option<
    HttpsRrEntryView,
> {
    match lookup {
        Some(Ok(Some(entry))) => Some(entry@),
        _ => None,
    }
}

impl TryHttp3 {
    #[verifier::type_invariant]
    spec fn began_on_the_clock(self) -> bool {
        self.now.is_clock_reading()
    }

    /// The stage in which there is no alternative to try any more.
    fn stage_from_records(caches: &mut Http3Caches, origin: &Origin, now: Instant) -> (r:
        Http3Stage)
        ensures
            r@ == stage_of_records(old(caches)@, origin@, now@),
            final(caches)@ == old(caches)@.https_rr_asked(origin@, now@),
    {
        match caches.cached_https_rr(origin, now) {
            Some(entry) => Self::stage_from_record(origin, Some(entry)),
            None => Http3Stage::LookUp,
        }
    }

    /// The stage that an HTTPS record leads to.
    fn stage_from_record(origin: &Origin, entry: Option<HttpsRrEntry>) -> (r: Http3Stage)
        ensures
            r@ == stage_of_record(
                origin@,
                (match entry {
                    Some(entry) => Some(entry@),
                    None => None,
                }),
            ),
    {
        match entry {
            Some(entry) => if entry.has_h3 {
                Http3Stage::HttpsRr { target: target_of_https_rr(origin, entry), attempt: 0 }
            } else {
                Http3Stage::UseTcp
            },
            None => Http3Stage::UseTcp,
        }
    }

    /// Begins trying HTTP/3 at `origin`.
    pub fn start(
        caches: &mut Http3Caches,
        origin: Origin,
        now: Instant,
        negative_for: Duration,
    ) -> (r: TryHttp3)
        requires
            now.is_clock_reading(),
        ensures
            r@ == (TryView {
                origin: origin@,
                now: now@,
                negative_for: negative_for@,
                stage: first_stage(old(caches)@, origin@, now@),
            }),
            final(caches)@ == caches_at_first(old(caches)@, origin@, now@),
    {
        let stage = if caches.negative_cache_hit(&origin, now) {
            Http3Stage::UseTcp
        } else {
            match caches.alt_svc_entry(&origin, now) {
                Some(entry) => Http3Stage::AltSvc {
                    target: target_of_alt_svc(&origin, entry),
                    attempt: 0,
                },
                None => Self::stage_from_records(caches, &origin, now),
            }
        };
        TryHttp3 { origin, now, negative_for, stage }
    }

    /// What is to be done next.
    pub fn action(&self) -> (r: Http3Action<'_>)
        ensures
            match (self@.stage, r) {
                (StageView::AltSvc { target, .. }, Http3Action::Attempt(given)) => given@
                    == target,
                (StageView::HttpsRr { target, .. }, Http3Action::Attempt(given)) => given@
                    == target,
                (StageView::LookUp, Http3Action::LookUp) => true,
                (StageView::UseTcp, Http3Action::UseTcp) => true,
                _ => false,
            },
    {
        match &self.stage {
            Http3Stage::AltSvc { target, .. } => Http3Action::Attempt(target),
            Http3Stage::LookUp => Http3Action::LookUp,
            Http3Stage::HttpsRr { target, .. } => Http3Action::Attempt(target),
            Http3Stage::UseTcp => Http3Action::UseTcp,
        }
    }

    /// Remembers that HTTP/3 failed at the origin.
    fn remember_failure(&self, caches: &mut Http3Caches)
        ensures
            final(caches)@ == self@.caches_after_failure(old(caches)@),
    {
        proof {
            use_type_invariant(self);
        }
        caches.insert_negative(self.origin.clone(), self.now, self.negative_for);
    }

    /// Goes on with what an attempt gave.
    pub fn attempted<R>(
        self,
        caches: &mut Http3Caches,
        result: std::result::Result<R, Http3AttemptError>,
    ) -> (r: Http3Progress<R>)
        requires
            self@.stage is AltSvc || self@.stage is HttpsRr,
        ensures
            match (result, r) {
                (Ok(response), Http3Progress::Answered(given)) => given == response
                    && final(caches)@ == old(caches)@,
                (Err(error), Http3Progress::Continue(next)) => next@ == (TryView {
                    stage: self@.stage_after(old(caches)@, error),
                    ..self@
                }) && final(caches)@ == self@.caches_after(old(caches)@, error),
                _ => false,
            },
    {
        let error = match result {
            Ok(response) => return Http3Progress::Answered(response),
            Err(error) => error,
        };
        proof {
            use_type_invariant(&self);
        }
        let attempt: usize = match &self.stage {
            Http3Stage::AltSvc { attempt, .. } => *attempt,
            Http3Stage::HttpsRr { attempt, .. } => *attempt,
            _ => 0,
        };
        let again = match error {
            Http3AttemptError::Handshake(_) => false,
            Http3AttemptError::Stream { retry_without_h3 } => match h3_stream_failure_action(
                retry_without_h3,
                attempt,
            ) {
                H3StreamFailureAction::RetryFreshH3 => true,
                H3StreamFailureAction::UseTcp => false,
            },
        };
        if !again {
            self.remember_failure(caches);
        }
        let TryHttp3 { origin, now, negative_for, stage } = self;
        let next = match stage {
            Http3Stage::AltSvc { target, .. } => if again {
                Http3Stage::AltSvc { target, attempt: 1 }
            } else {
                Self::stage_from_records(caches, &origin, now)
            },
            Http3Stage::HttpsRr { target, .. } => if again {
                Http3Stage::HttpsRr { target, attempt: 1 }
            } else {
                Http3Stage::UseTcp
            },
            other => other,
        };
        Http3Progress::Continue(TryHttp3 { origin, now, negative_for, stage: next })
    }

    /// Goes on with what looking the HTTPS records up gave; `None` is a lookup
    /// that took too long.
    pub fn looked_up(
        self,
        caches: &mut Http3Caches,
        lookup: Option<Result<Option<HttpsRrEntry>>>,
    ) -> (r: TryHttp3)
        requires
            self@.stage is LookUp,
        ensures
            r@ == (TryView {
                stage: stage_of_record(self@.origin, looked_up_entry(lookup)),
                ..self@
            }),
            final(caches)@ == (match looked_up_entry(lookup) {
                Some(entry) => old(caches)@.looked_up(self@.origin, entry),
                None => old(caches)@,
            }),
    {
        proof {
            use_type_invariant(&self);
        }
        let TryHttp3 { origin, now, negative_for, .. } = self;
        let entry = caches.https_rr_entry(&origin, lookup);
        let stage = Self::stage_from_record(&origin, entry);
        TryHttp3 { origin, now, negative_for, stage }
    }
}

/// Remembers, where an HTTP/3 attempt is given up while it is under way, that
/// HTTP/3 failed at the origin.
#[derive(Debug)]
pub struct H3AttemptCancellationGuard {
    origin: Origin,
    armed: bool,
}

impl H3AttemptCancellationGuard {
    /// The origin of the attempt.
    pub closed spec fn origin(self) -> (Seq<char>, u16) {
        self.origin@
    }

    /// Whether the attempt is under way.
    pub closed spec fn armed(self) -> bool {
        self.armed
    }

    /// A guard for an attempt that begins.
    pub fn new(origin: &Origin) -> (r: H3AttemptCancellationGuard)
        ensures
            r.origin() == origin@,
            r.armed(),
    {
        H3AttemptCancellationGuard { origin: origin.clone(), armed: true }
    }

    /// The attempt has ended by itself.
    pub fn disarm(&mut self)
        ensures
            final(self).origin() == old(self).origin(),
            !final(self).armed(),
    {
        self.armed = false;
    }

    /// The guard is let go at `now`.
    pub fn release(&self, caches: &mut Http3Caches, now: Instant, negative_for: Duration)
        requires
            now.is_clock_reading(),
        ensures
            final(caches)@ == (if self.armed() {
                old(caches)@.failed(self.origin(), now@ + negative_for@)
            } else {
                old(caches)@
            }),
    {
        if self.armed {
            caches.insert_negative(self.origin.clone(), now, negative_for);
        }
    }
}

/// A failure of the TCP transport.
#[derive(Debug)]
pub struct TransportFailure {
    /// Text of the error.
    pub message: String,
    /// Texts of the errors that caused it, from the nearest on.
    pub causes: Vec<String>,
    /// Whether no connection came about.
    pub connect: bool,
    /// Whether one of the causes is an error of the TLS implementation.
    pub tls: bool,
}

/// What a [`TransportFailure`] says.
pub struct FailureView {
    /// Text of the error.
    pub message: Seq<char>,
    /// Texts of the causes.
    pub causes: Seq<Seq<char>>,
    /// Whether no connection came about.
    pub connect: bool,
    /// Whether one of the causes is an error of the TLS implementation.
    pub tls: bool,
}

impl View for TransportFailure {
    type V = FailureView;

    open spec fn view(&self) -> FailureView {
        FailureView {
            message: self.message@,
            causes: self.causes@.map_values(|cause: String| cause@),
            connect: self.connect,
            tls: self.tls,
        }
    }
}

impl FailureView {
    /// Whether the error or one of its causes has `word` in its text, whatever
    /// the case of the letters.
    pub open spec fn mentions(self, word: Seq<char>) -> bool {
        ||| text::occurs_in(text::ascii_lowercased(self.message), word)
        ||| exists|i: int|
            0 <= i < self.causes.len() && text::occurs_in(
                text::ascii_lowercased(#[trigger] self.causes[i]),
                word,
            )
    }

    /// Whether the failure lies in the network: a name that was not found, or a
    /// connection that was there and broke.
    pub open spec fn is_network_failure(self) -> bool {
        self.mentions("dns"@) || (!self.connect && self.mentions("connect"@))
    }

    /// Whether the texts tell of TLS.
    pub open spec fn mentions_tls(self) -> bool {
        self.mentions("certificate"@) || self.mentions("tls"@)
    }
}

/// The error for a failure of the TCP transport. A connection that did not come
/// about for a reason of TLS is a TLS error; any other, a name that was not
/// found and a connection that broke leave the upstream unreachable.
pub open spec fn transport_error_of(failure: FailureView) -> ErrorView {
    if failure.connect && failure.tls {
        ErrorView::Tls(failure.message)
    } else if failure.is_network_failure() {
        ErrorView::Unreachable(failure.message)
    } else if failure.mentions_tls() {
        ErrorView::Tls(failure.message)
    } else if failure.connect {
        ErrorView::Unreachable(failure.message)
    } else {
        ErrorView::Internal(failure.message)
    }
}

impl TransportFailure {
    /// Whether the error or one of its causes has `word` in its text, whatever
    /// the case of the letters.
    fn mentions(&self, word: &str) -> (r: bool)
        ensures
            r == self@.mentions(word@),
    {
        if text::contains(text::to_ascii_lowercase(self.message.as_str()).as_str(), word) {
            return true;
        }
        let mut i: usize = 0;
        while i < self.causes.len()
            invariant
                i <= self.causes.len(),
                forall|j: int|
                    0 <= j < i ==> !text::occurs_in(
                        text::ascii_lowercased(#[trigger] self@.causes[j]),
                        word@,
                    ),
            decreases self.causes.len() - i,
        {
            assert(self@.causes[i as int] == self.causes@[i as int]@);
            if text::contains(text::to_ascii_lowercase(self.causes[i].as_str()).as_str(), word) {
                return true;
            }
            i = i + 1;
        }
        false
    }
}

/// Tells the failures of the TCP transport apart.
pub fn map_legacy_error(failure: TransportFailure) -> (r: Error)
    ensures
        r@ == transport_error_of(failure@),
{
    if failure.connect && failure.tls {
        Error::Tls(failure.message)
    } else if failure.mentions("dns") || (!failure.connect && failure.mentions("connect")) {
        Error::Unreachable(failure.message)
    } else if failure.mentions("certificate") || failure.mentions("tls") {
        Error::Tls(failure.message)
    } else if failure.connect {
        Error::Unreachable(failure.message)
    } else {
        Error::Internal(failure.message)
    }
}

/// The transports.
#[derive(Clone, Copy, Debug, PartialEq, Eq, Structural)]
pub enum Transport {
    /// HTTP/1.1 or HTTP/2 over TCP.
    Tcp,
    /// HTTP/3 over QUIC.
    Quic,
}

/// The error for a request whose head a transport does not take.
pub fn request_build_error(transport: Transport, detail: &str) -> (r: Error)
    ensures
        r@ == ErrorView::Internal(
            (match transport {
                Transport::Tcp => "request build: "@,
                Transport::Quic => "HTTP/3 request build: "@,
            }) + detail@,
        ),
{
    match transport {
        Transport::Tcp => Error::Internal("request build: ".to_owned().concat(detail)),
        Transport::Quic => Error::Internal("HTTP/3 request build: ".to_owned().concat(detail)),
    }
}

/// What sending a request over TCP gave.
#[derive(Debug)]
pub enum TcpOutcome<T> {
    /// It took too long.
    TimedOut,
    /// It failed.
    Failed(TransportFailure),
    /// There is a response.
    Answered(Response<T>),
}

impl<B> SendingView<B> {
    /// The caches once HTTP/3 took too long.
    pub open spec fn caches_after_timeout(self, caches: CachesView, now: nat) -> CachesView {
        match self.http3 {
            Some((origin, _)) => caches.failed(origin, now + self.negative_for),
            None => caches,
        }
    }

    /// A response as it is handed on: each frame of its body may take as long as
    /// the request.
    pub open spec fn given<T>(self, response: ResponseView<T>) -> ResponseView<T> {
        ResponseView { frame_timeout: self.timeout, ..response }
    }
}

impl<B> Sending<B> {
    /// What comes of trying HTTP/3, where `None` is that it took too long.
    /// `Ok(None)` is that the request goes over TCP. Each frame of the body of a
    /// response may take as long as the request.
    pub fn http3_finished<T>(
        &self,
        caches: &mut Http3Caches,
        outcome: Option<Result<Option<Response<T>>>>,
        now: Instant,
    ) -> (r: Result<Option<Response<T>>>)
        requires
            now.is_clock_reading(),
        ensures
            match (outcome, r) {
                (None, Err(error)) => error@ == ErrorView::Timeout && final(caches)@
                    == self@.caches_after_timeout(old(caches)@, now@),
                (Some(Ok(Some(response))), Ok(Some(given))) => given@ == self@.given(response@)
                    && final(caches)@ == old(caches)@,
                (Some(Ok(None)), Ok(None)) => final(caches)@ == old(caches)@,
                (Some(Err(error)), Err(told)) => told == error && final(caches)@ == old(caches)@,
                _ => false,
            },
    {
        match outcome {
            Some(Ok(Some(response))) => Ok(Some(response.with_frame_timeout(self.timeout))),
            Some(other) => other,
            None => {
                if let Some((origin, _)) = &self.http3 {
                    caches.insert_negative(origin.clone(), now, self.negative_for);
                }
                Err(Error::Timeout)
            },
        }
    }

    /// What comes of sending the request over TCP. An alternative that the
    /// response offers is remembered. Each frame of the body of the response may
    /// take as long as the request.
    pub fn tcp_finished<T>(
        &self,
        caches: &mut Http3Caches,
        outcome: TcpOutcome<T>,
        now: Instant,
    ) -> (r: Result<Response<T>>)
        requires
            now.is_clock_reading(),
        ensures
            match (outcome, r) {
                (TcpOutcome::TimedOut, Err(error)) => error@ == ErrorView::Timeout
                    && final(caches)@ == old(caches)@,
                (TcpOutcome::Failed(failure), Err(error)) => error@ == transport_error_of(failure@)
                    && final(caches)@ == old(caches)@,
                (TcpOutcome::Answered(response), Ok(given)) => given@ == self@.given(response@)
                    && final(caches)@ == old(caches)@.answered(
                    uri::origin_of(self@.head.uri.parts),
                    response@.headers,
                    now@,
                ),
                _ => false,
            },
    {
        match outcome {
            TcpOutcome::TimedOut => Err(Error::Timeout),
            TcpOutcome::Failed(failure) => Err(map_legacy_error(failure)),
            TcpOutcome::Answered(response) => {
                let origin = Origin::from_uri(&self.head.uri);
                caches.maybe_update_alt_svc(origin, response.headers(), now);
                Ok(response.with_frame_timeout(self.timeout))
            },
        }
    }
}

impl StageView {
    /// How many attempts and lookups can still follow.
    pub open spec fn steps_left(self) -> nat {
        match self {
            StageView::AltSvc { attempt, .. } => if attempt == 0 {
                5
            } else {
                4
            },
            StageView::LookUp => 3,
            StageView::HttpsRr { attempt, .. } => if attempt == 0 {
                2
            } else {
                1
            },
            StageView::UseTcp => 0,
        }
    }
}

/// Each attempt and each lookup leaves fewer of them, so that HTTP/3 is given up
/// after at most five steps: two attempts at the alternative, one lookup, two
/// attempts at what the records say.
pub proof fn law_trying_ends(
    state: TryView,
    caches: CachesView,
    error: Http3AttemptError,
    entry: Option<HttpsRrEntryView>,
)
    ensures
        state.stage.steps_left() <= 5,
        state.stage is AltSvc || state.stage is HttpsRr ==> state.stage_after(
            caches,
            error,
        ).steps_left() < state.stage.steps_left(),
        state.stage is LookUp ==> stage_of_record(state.origin, entry).steps_left()
            < state.stage.steps_left(),
        state.stage.steps_left() == 0 <==> state.stage is UseTcp,
{
}

/// An attempt is made again only if it was the first at its target and nothing
/// of the request was on the wire. Until the attempts at a target have failed,
/// the caches stay as they are.
pub proof fn law_retry_is_safe(state: TryView, caches: CachesView, error: Http3AttemptError)
    requires
        state.stage is AltSvc || state.stage is HttpsRr,
    ensures
        ({
            let attempt = match state.stage {
                StageView::AltSvc { attempt, .. } => attempt,
                StageView::HttpsRr { attempt, .. } => attempt,
                _ => 0,
            };
            is_retried(error, attempt) <==> attempt == 0 && error
                == (Http3AttemptError::Stream { retry_without_h3: true })
        }),
        state.stage matches StageView::AltSvc { target, attempt } ==> (is_retried(error, attempt)
            ==> state.stage_after(caches, error) == (StageView::AltSvc { target, attempt: 1 })
            && state.caches_after(caches, error) == caches),
        state.stage matches StageView::HttpsRr { target, attempt } ==> (is_retried(error, attempt)
            ==> state.stage_after(caches, error) == (StageView::HttpsRr { target, attempt: 1 })
            && state.caches_after(caches, error) == caches),
{
}

/// An attempt is made again at its target only where nothing of the request was
/// sent there: the phase that failed is then the opening of the stream.
pub proof fn law_retry_repeats_nothing_sent(phase: H3Phase, attempt: usize)
    requires
        !phase.is_handshake(),
    ensures
        is_retried(
            Http3AttemptError::Stream { retry_without_h3: !phase.is_on_wire() },
            attempt,
        ) <==> phase is OpenStream && attempt == 0,
{
}

/// Once the attempts at a target have failed, HTTP/3 is not tried at the origin
/// until the span for that is over, and its alternative is forgotten.
pub proof fn law_failed_origin_is_left_alone(
    state: TryView,
    caches: CachesView,
    error: Http3AttemptError,
    later: nat,
)
    requires
        match state.stage {
            StageView::AltSvc { attempt, .. } => !is_retried(error, attempt),
            StageView::HttpsRr { attempt, .. } => !is_retried(error, attempt),
            _ => false,
        },
    ensures
        later < state.now + state.negative_for ==> first_stage(
            state.caches_after(caches, error),
            state.origin,
            later,
        ) is UseTcp,
        later >= state.now + state.negative_for ==> !state.caches_after(caches, error).blocks(
            state.origin,
            later,
        ),
        state.caches_after(caches, error).fresh_alt_svc(state.origin, later) is None,
{
}

/// An alternative that a response offered is what the next request to that
/// origin tries first, until it expires or HTTP/3 has failed there: the HTTPS
/// records are then not looked up.
pub proof fn law_offered_alternative_is_tried(
    caches: CachesView,
    origin: (Seq<char>, u16),
    fields: headers::Fields,
    now: nat,
    later: nat,
    entry: AltSvcEntryView,
)
    requires
        headers::first_text(fields, "alt-svc"@) is Some,
        alt_svc::update_of(headers::first_text(fields, "alt-svc"@)->0, now, origin.1)
            == AltSvcUpdateView::Entry(entry),
        later < entry.expires_at,
        !caches.blocks(origin, later),
    ensures
        first_stage(caches.answered(Some(origin), fields, now), origin, later) == (
        StageView::AltSvc { target: alt_svc_target(origin, entry), attempt: 0 }),
{
}

/// After `clear`, or where nothing was offered, what is known of the HTTPS
/// records decides, and if nothing is, they are looked up.
pub proof fn law_records_decide_without_alternative(
    caches: CachesView,
    origin: (Seq<char>, u16),
    now: nat,
)
    requires
        !caches.blocks(origin, now),
    ensures
        first_stage(caches.updated(origin, AltSvcUpdateView::Clear), origin, now)
            == stage_of_records(caches, origin, now),
        caches.fresh_alt_svc(origin, now) is None ==> first_stage(caches, origin, now)
            == stage_of_records(caches, origin, now),
        caches.fresh_https_rr(origin, now) is None ==> stage_of_records(caches, origin, now)
            is LookUp,
{
}

/// A request that took too long over HTTP/3 keeps later ones from trying it
/// until the span for that is over.
pub proof fn law_timeout_blocks_origin<B>(
    sending: SendingView<B>,
    caches: CachesView,
    origin: (Seq<char>, u16),
    now: nat,
    later: nat,
)
    requires
        sending.http3 matches Some((tried, _)) && tried == origin,
    ensures
        sending.caches_after_timeout(caches, now).blocks(origin, later) <==> later < now
            + sending.negative_for,
        sending.caches_after_timeout(caches, now).fresh_alt_svc(origin, later) is None,
{
}

/// Where no connection came about, the upstream is unreachable or the TLS
/// handshake failed: the handshake, where the TLS implementation reported an
/// error, and the upstream, where nothing tells of TLS. The error keeps the
/// message.
pub proof fn law_failed_connection_is_told(failure: FailureView)
    requires
        failure.connect,
    ensures
        transport_error_of(failure) == ErrorView::Unreachable(failure.message)
            || transport_error_of(failure) == ErrorView::Tls(failure.message),
        failure.tls ==> transport_error_of(failure) is Tls,
        !failure.tls && !failure.mentions_tls() ==> transport_error_of(failure) is Unreachable,
        !failure.tls && failure.mentions("dns"@) ==> transport_error_of(failure) is Unreachable,
{
}

/// A connection that broke leaves the upstream unreachable.
pub proof fn law_broken_connection_is_unreachable(failure: FailureView)
    requires
        !failure.connect,
        failure.mentions("connect"@),
    ensures
        transport_error_of(failure) == ErrorView::Unreachable(failure.message),
{
}

/// The timeout of a request is also that of each frame of the body of its
/// response.
pub proof fn law_timeout_covers_body_frames<B, T>(
    sending: SendingView<B>,
    response: ResponseView<T>,
    limit: usize,
)
    ensures
        sending.given(response).read(limit) matches Ok(ReadView::Stream(_, reader))
            ==> reader.frame_timeout == sending.timeout,
{
}

/// An alternative that holds is what trying HTTP/3 begins with at an origin that
/// is not blocked: at the port of the alternative, and at its host if it names
/// one, else at that of the origin. Its addresses have to be looked up.
pub proof fn law_alternative_is_tried_where_it_says(
    caches: CachesView,
    origin: (Seq<char>, u16),
    now: nat,
)
    requires
        caches.alt_svc.contains_key(origin),
        now < caches.alt_svc[origin].expires_at,
        caches.negative.contains_key(origin) ==> caches.negative[origin] <= now,
    ensures
        first_stage(caches, origin, now) matches StageView::AltSvc { target, attempt } && attempt
            == 0 && target.port == caches.alt_svc[origin].port && target.addresses.len() == 0 && (
        caches.alt_svc[origin].host matches Some(host) ==> target.authority_host == host) && (
        caches.alt_svc[origin].host is None ==> target.authority_host == origin.0),
{
}

/// Where no alternative holds at an origin that is not blocked, its record is
/// followed: it is tried at the host of the origin, at the port and the
/// addresses of the record, if the record holds and advertises HTTP/3. A record
/// without HTTP/3 leads to TCP, and without a record that holds one is looked
/// up.
pub proof fn law_record_is_followed(caches: CachesView, origin: (Seq<char>, u16), now: nat)
    requires
        caches.alt_svc.contains_key(origin) ==> caches.alt_svc[origin].expires_at <= now,
        caches.negative.contains_key(origin) ==> caches.negative[origin] <= now,
    ensures
        ({
            let stage = first_stage(caches, origin, now);
            let known = caches.https_rr.contains_key(origin) && now
                < caches.https_rr[origin].expires_at;
            let record = caches.https_rr[origin];
            &&& known && record.has_h3 ==> (stage matches StageView::HttpsRr { target, attempt }
                && attempt == 0 && target.authority_host == origin.0 && target.port == record.port
                && target.addresses == record.addresses)
            &&& known && !record.has_h3 ==> stage is UseTcp
            &&& !known ==> stage is LookUp
        }),
{
}

/// A record that was looked up is followed as one that was known; a lookup that
/// gave none leads to TCP.
pub proof fn law_looked_up_record_is_followed(
    origin: (Seq<char>, u16),
    record: HttpsRrEntryView,
    lookup: Option<Result<Option<HttpsRrEntry>>>,
)
    ensures
        record.has_h3 ==> (stage_of_record(origin, Some(record)) matches StageView::HttpsRr {
            target,
            attempt,
        } && attempt == 0 && target.authority_host == origin.0 && target.port == record.port
            && target.addresses == record.addresses),
        !record.has_h3 ==> stage_of_record(origin, Some(record)) is UseTcp,
        stage_of_record(origin, None) is UseTcp,
        lookup matches Some(Ok(Some(entry))) ==> looked_up_entry(lookup) == Some(entry@),
        lookup is None || lookup->0 is Err || lookup->0->Ok_0 is None ==> looked_up_entry(lookup)
            is None,
{
}

/// HTTP/3 is not tried at an origin that is blocked, whatever else is known of
/// it.
pub proof fn law_blocked_origin_uses_tcp(caches: CachesView, origin: (Seq<char>, u16), now: nat)
    requires
        caches.negative.contains_key(origin),
        now < caches.negative[origin],
    ensures
        first_stage(caches, origin, now) is UseTcp,
        caches_at_first(caches, origin, now) == caches,
{
}

/// Beginning to try HTTP/3 forgets, of that origin alone, what no longer holds,
/// and changes nothing else.
pub proof fn law_beginning_forgets_only_what_expired(
    caches: CachesView,
    origin: (Seq<char>, u16),
    now: nat,
    other: (Seq<char>, u16),
)
    ensures
        ({
            let left = caches_at_first(caches, origin, now);
            &&& left.alt_svc.submap_of(caches.alt_svc)
            &&& left.https_rr.submap_of(caches.https_rr)
            &&& left.negative.submap_of(caches.negative)
            &&& caches.alt_svc.contains_key(other) && (other != origin || now
                < caches.alt_svc[other].expires_at) ==> left.alt_svc.contains_key(other)
            &&& caches.https_rr.contains_key(other) && (other != origin || now
                < caches.https_rr[other].expires_at) ==> left.https_rr.contains_key(other)
            &&& caches.negative.contains_key(other) && (other != origin || now
                < caches.negative[other]) ==> left.negative.contains_key(other)
        }),
{
}

/// The attempts at a target have failed where one failed that is not made again:
/// where it was not the first, or the connection did not come about, or the
/// request was on the wire. The failure is then remembered until the span for
/// that is over, the alternative is forgotten, and nothing is learned of other
/// origins. After the alternative comes what the records say; after those, TCP.
pub proof fn law_failure_is_remembered(
    state: TryView,
    caches: CachesView,
    error: Http3AttemptError,
    attempt: usize,
    target: TargetView,
)
    requires
        state.stage == (StageView::AltSvc { target, attempt }) || state.stage == (
        StageView::HttpsRr { target, attempt }),
        attempt != 0 || error != (Http3AttemptError::Stream { retry_without_h3: true }),
    ensures
        ({
            let after = state.caches_after(caches, error);
            let known = caches.https_rr.contains_key(state.origin) && state.now
                < caches.https_rr[state.origin].expires_at;
            &&& after.negative == caches.negative.insert(
                state.origin,
                state.now + state.negative_for,
            )
            &&& after.alt_svc == caches.alt_svc.remove(state.origin)
            &&& known || state.stage is HttpsRr ==> after.https_rr == caches.https_rr
            &&& !known && state.stage is AltSvc ==> after.https_rr == caches.https_rr.remove(
                state.origin,
            )
            &&& state.stage is HttpsRr ==> state.stage_after(caches, error) is UseTcp
            &&& state.stage is AltSvc && !known ==> state.stage_after(caches, error) is LookUp
            &&& state.stage is AltSvc && known && !caches.https_rr[state.origin].has_h3
                ==> state.stage_after(caches, error) is UseTcp
            &&& state.stage is AltSvc && known && caches.https_rr[state.origin].has_h3 ==> (
            state.stage_after(caches, error) matches StageView::HttpsRr { target: next, attempt: n }
                && n == 0 && next.authority_host == state.origin.0 && next.port
                == caches.https_rr[state.origin].port && next.addresses
                == caches.https_rr[state.origin].addresses)
        }),
{
}

/// A first attempt that failed before anything was on the wire is made again, at
/// the same target and with the caches as they are.
pub proof fn law_stale_connection_is_retried(
    state: TryView,
    caches: CachesView,
    target: TargetView,
)
    ensures
        ({
            let stale = Http3AttemptError::Stream { retry_without_h3: true };
            &&& state.stage == (StageView::AltSvc { target, attempt: 0 }) ==> state.stage_after(
                caches,
                stale,
            ) == (StageView::AltSvc { target, attempt: 1 })
            &&& state.stage == (StageView::HttpsRr { target, attempt: 0 }) ==> state.stage_after(
                caches,
                stale,
            ) == (StageView::HttpsRr { target, attempt: 1 })
            &&& state.stage == (StageView::AltSvc { target, attempt: 0 }) || state.stage == (
            StageView::HttpsRr { target, attempt: 0 }) ==> state.caches_after(caches, stale)
                == caches
        }),
{
}

/// What to do where a request failed on a connection: try again if and only if
/// it was the first attempt and nothing was on the wire.
pub proof fn law_only_first_unsent_attempt_is_retried(retry_without_h3: bool, attempt: usize)
    ensures
        stream_failure_action(retry_without_h3, attempt) == H3StreamFailureAction::RetryFreshH3
            <==> retry_without_h3 && attempt == 0,
        stream_failure_action(retry_without_h3, attempt) == H3StreamFailureAction::UseTcp
            <==> !(retry_without_h3 && attempt == 0),
{
}

/// What a server offers in a header is where the next request to that origin
/// goes, for exactly the seconds that it offers it: at the host and the port
/// that were written, or at the host of the origin where none was.
pub proof fn law_offer_is_followed(
    caches: CachesView,
    origin: (Seq<char>, u16),
    fields: headers::Fields,
    host: Seq<char>,
    port: u16,
    seconds: u64,
    now: nat,
    later: nat,
)
    requires
        host.len() > 0 ==> alt_svc::is_plain_host(host),
        forall|i: int| 0 <= i < host.len() ==> ' ' <= #[trigger] host[i] <= '~',
        fields.contains_key("alt-svc"@),
        fields["alt-svc"@].len() > 0,
        fields["alt-svc"@][0] == vstd::utf8::encode_utf8(
            alt_svc::timed_offer_text(alt_svc::authority_text(host, port), seconds as nat),
        ),
        caches.negative.contains_key(origin) ==> caches.negative[origin] <= later,
    ensures
        ({
            let stage = first_stage(caches.answered(Some(origin), fields, now), origin, later);
            &&& later < now + seconds * 1_000_000_000 ==> (stage matches StageView::AltSvc {
                target,
                attempt,
            } && attempt == 0 && target.port == port && target.authority_host == (
            if host.len() > 0 {
                host
            } else {
                origin.0
            }))
            &&& later >= now + seconds * 1_000_000_000 ==> !(stage is AltSvc)
        }),
{
    let authority = alt_svc::authority_text(host, port);
    let raw = alt_svc::timed_offer_text(authority, seconds as nat);
    lemma_offer_is_visible(host, port, seconds);
    crate::caches::law_response_updates_its_origin(caches, origin, fields, raw, now);
    if host.len() > 0 {
        alt_svc::law_offered_host_reads_back(host, port, seconds, now, origin.1);
    } else {
        assert(host =~= Seq::<char>::empty());
        alt_svc::law_offered_port_reads_back(port, seconds, now, origin.1);
    }
}

/// What is written in an offer is visible.
proof fn lemma_offer_is_visible(host: Seq<char>, port: u16, seconds: u64)
    requires
        forall|i: int| 0 <= i < host.len() ==> ' ' <= #[trigger] host[i] <= '~',
    ensures
        ({
            let raw = alt_svc::timed_offer_text(
                alt_svc::authority_text(host, port),
                seconds as nat,
            );
            forall|i: int|
                0 <= i < raw.len() ==> (raw[i] == '\t' || ' ' <= #[trigger] raw[i] <= '~')
        }),
{
    reveal_strlit("h3=");
    reveal_strlit("; ma=");
    reveal_strlit("\"");
    reveal_strlit(":");
    let a = text::decimal(port as nat);
    let b = text::decimal(seconds as nat);
    text::lemma_decimal_is_digits(port as nat);
    text::lemma_decimal_is_digits(seconds as nat);
    let raw = alt_svc::timed_offer_text(alt_svc::authority_text(host, port), seconds as nat);
    let h = host.len() as int;
    let p = a.len() as int;
    assert forall|i: int| 0 <= i < raw.len() implies (raw[i] == '\t' || ' ' <= #[trigger] raw[i]
        <= '~') by {
        if 4 <= i < 4 + h {
            assert(raw[i] == host[i - 4]);
        } else if 5 + h <= i < 5 + h + p {
            assert(raw[i] == a[i - 5 - h]);
            assert(text::is_digit(a[i - 5 - h]));
        } else if i >= 11 + h + p {
            assert(raw[i] == b[i - 11 - h - p]);
            assert(text::is_digit(b[i - 11 - h - p]));
        }
    }
}

/// A response is handed on as it arrived: its status, its version, its headers
/// and its body are not changed.
pub proof fn law_response_is_handed_on<B, T>(sending: SendingView<B>, response: ResponseView<T>)
    ensures
        sending.given(response).status == response.status,
        sending.given(response).version == response.version,
        sending.given(response).headers == response.headers,
        sending.given(response).body == response.body,
        sending.given(response).frame_timeout == sending.timeout,
{
}

impl FailureView {
    /// Whether `told` is a text of the failure: its own, or that of a cause.
    pub open spec fn tells(self, told: Seq<char>) -> bool {
        told == self.message || self.causes.contains(told)
    }

    /// Whether `word` stands in a text of the failure, whatever the case of the
    /// letters there.
    pub open spec fn says(self, word: Seq<char>) -> bool {
        exists|told: Seq<char>| #[trigger]
            self.tells(told) && text::occurs_in(text::ascii_lowercased(told), word)
    }
}

/// A failure of TCP is told by its texts, its own or those of its causes, and the
/// error keeps the message. TLS that reported why no connection came about goes
/// first. Then a word of the name service leaves the upstream unreachable, as
/// does that of a connection which was there. Then come the words of TLS. A
/// failure that says nothing of these is unreachable where no connection came
/// about, and internal otherwise.
pub proof fn law_texts_tell_the_failure(failure: FailureView)
    ensures
        ({
            let error = transport_error_of(failure);
            let by_tls = failure.connect && failure.tls;
            let network = failure.says("dns"@) || (!failure.connect && failure.says("connect"@));
            let tls = failure.says("certificate"@) || failure.says("tls"@);
            &&& by_tls ==> error == ErrorView::Tls(failure.message)
            &&& !by_tls && network ==> error == ErrorView::Unreachable(failure.message)
            &&& !by_tls && !network && tls ==> error == ErrorView::Tls(failure.message)
            &&& !by_tls && !network && !tls && failure.connect ==> error
                == ErrorView::Unreachable(failure.message)
            &&& !network && !tls && !failure.connect ==> error == ErrorView::Internal(
                failure.message,
            )
        }),
{
    lemma_mentioned_is_said(failure, "dns"@);
    lemma_mentioned_is_said(failure, "connect"@);
    lemma_mentioned_is_said(failure, "certificate"@);
    lemma_mentioned_is_said(failure, "tls"@);
}

/// What is mentioned is what a text of the failure says.
proof fn lemma_mentioned_is_said(failure: FailureView, word: Seq<char>)
    ensures
        failure.mentions(word) == failure.says(word),
{
    if failure.mentions(word) {
        if text::occurs_in(text::ascii_lowercased(failure.message), word) {
            assert(failure.tells(failure.message));
        } else {
            let i = choose|i: int|
                0 <= i < failure.causes.len() && text::occurs_in(
                    text::ascii_lowercased(#[trigger] failure.causes[i]),
                    word,
                );
            assert(failure.tells(failure.causes[i]));
        }
    }
    if failure.says(word) {
        let told = choose|told: Seq<char>| #[trigger]
            failure.tells(told) && text::occurs_in(text::ascii_lowercased(told), word);
        if told != failure.message {
            let i = choose|i: int| 0 <= i < failure.causes.len() && failure.causes[i] == told;
            assert(failure.causes[i] == told);
        }
    }
}

/// A timeout of HTTP/3 is remembered as a failure of its origin at that moment,
/// and changes nothing else; where HTTP/3 was not tried, it changes nothing.
pub proof fn law_timeout_is_remembered<B>(sending: SendingView<B>, caches: CachesView, now: nat)
    ensures
        ({
            let after = sending.caches_after_timeout(caches, now);
            &&& sending.http3 is None ==> after == caches
            &&& sending.http3 matches Some((origin, _)) ==> after.negative
                == caches.negative.insert(origin, now + sending.negative_for)
            &&& sending.http3 matches Some((origin, _)) ==> after.alt_svc == caches.alt_svc.remove(
                origin,
            )
            &&& after.https_rr == caches.https_rr
        }),
{
}

/// What is said of targets, stages and failures is what they hold.
pub proof fn law_views_of_trying(
    target: Http3RequestTarget,
    attempt: usize,
    failure: TransportFailure,
)
    ensures
        target@.authority_host == target.authority_host@,
        target@.port == target.port,
        target@.addresses == target.addresses@,
        (Http3Stage::AltSvc { target, attempt })@ == (StageView::AltSvc {
            target: target@,
            attempt,
        }),
        (Http3Stage::HttpsRr { target, attempt })@ == (StageView::HttpsRr {
            target: target@,
            attempt,
        }),
        Http3Stage::LookUp@ is LookUp,
        Http3Stage::UseTcp@ is UseTcp,
        failure@.message == failure.message@,
        failure@.connect == failure.connect,
        failure@.tls == failure.tls,
        failure@.causes.len() == failure.causes@.len(),
        forall|i: int|
            0 <= i < failure.causes@.len() ==> #[trigger] failure@.causes[i]
                == failure.causes@[i]@,
{
}

/// Looking HTTPS records up may take 150 milliseconds.
pub proof fn law_lookup_time_limit()
    ensures
        H3_HTTPS_RR_LOOKUP_TIMEOUT_MILLIS * crate::time::NANOS_PER_MILLI == 150_000_000,
{
}

} // verus!
