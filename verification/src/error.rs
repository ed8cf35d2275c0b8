//! Error model. Responses with a status other than success are not errors:
//! callers look at the status of the [`Response`](crate::Response).

use vstd::prelude::*;
use vstd::string::StringExecFns;

use crate::text;

verus! {

/// `Result<T, Error>` with this crate's [`enum@Error`].
pub type Result<T> = std::result::Result<T, Error>;

/// The ways in which building, sending or reading can fail.
#[non_exhaustive]
#[derive(Debug)]
pub enum Error {
    /// The per-request timeout fired before the response arrived.
    Timeout,
    /// TCP refused, DNS failed, mid-flight network drop.
    Unreachable(String),
    /// TLS handshake failure.
    Tls(String),
    /// The body could not be decoded.
    Decode(String),
    /// The body exceeded the cap on wire bytes.
    BodyTooLarge {
        /// The cap, in wire bytes, that was exceeded.
        limit: usize,
        /// How many wire bytes had been buffered when the cap was hit.
        seen: usize,
    },
    /// The URL did not parse, or its scheme is neither `http` nor `https`.
    InvalidUrl(String),
    /// A header name or value is not valid.
    InvalidHeader(String),
    /// The request body could not be written as JSON.
    SerializeJson(String),
    /// The connection was cancelled mid-flight.
    Cancelled(String),
    /// Any other failure of client construction or of the transport.
    Internal(String),
}

/// What an [`enum@Error`] says.
pub enum ErrorView {
    /// The per-request timeout fired.
    Timeout,
    /// The upstream could not be reached.
    Unreachable(Seq<char>),
    /// The TLS handshake failed.
    Tls(Seq<char>),
    /// The body could not be decoded.
    Decode(Seq<char>),
    /// The body exceeded the cap.
    BodyTooLarge {
        /// The cap in wire bytes.
        limit: usize,
        /// The wire bytes that had been buffered.
        seen: usize,
    },
    /// The URL is not acceptable.
    InvalidUrl(Seq<char>),
    /// A header is not acceptable.
    InvalidHeader(Seq<char>),
    /// The body could not be written as JSON.
    SerializeJson(Seq<char>),
    /// The connection was cancelled.
    Cancelled(Seq<char>),
    /// Any other failure.
    Internal(Seq<char>),
}

impl View for Error {
    type V = ErrorView;

    open spec fn view(&self) -> ErrorView {
        match *self {
            Error::Timeout => ErrorView::Timeout,
            Error::Unreachable(detail) => ErrorView::Unreachable(detail@),
            Error::Tls(detail) => ErrorView::Tls(detail@),
            Error::Decode(detail) => ErrorView::Decode(detail@),
            Error::BodyTooLarge { limit, seen } => ErrorView::BodyTooLarge { limit, seen },
            Error::InvalidUrl(detail) => ErrorView::InvalidUrl(detail@),
            Error::InvalidHeader(detail) => ErrorView::InvalidHeader(detail@),
            Error::SerializeJson(detail) => ErrorView::SerializeJson(detail@),
            Error::Cancelled(detail) => ErrorView::Cancelled(detail@),
            Error::Internal(detail) => ErrorView::Internal(detail@),
        }
    }
}

/// What a [`Result`] says.
pub open spec fn outcome<T: View>(r: Result<T>) -> std::result::Result<T::V, ErrorView> {
    match r {
        Ok(value) => Ok(value@),
        Err(error) => Err(error@),
    }
}

/// What an optional error says.
pub open spec fn optional_error(error: Option<Error>) -> Option<ErrorView> {
    match error {
        Some(error) => Some(error@),
        None => None,
    }
}

impl ErrorView {
    /// The text in which the error is shown.
    pub open spec fn shown(self) -> Seq<char> {
        match self {
            ErrorView::Timeout => "request timed out"@,
            ErrorView::Unreachable(detail) => "upstream unreachable: "@ + detail,
            ErrorView::Tls(detail) => "TLS error: "@ + detail,
            ErrorView::Decode(detail) => "response decode error: "@ + detail,
            ErrorView::BodyTooLarge { limit, seen } => "response body exceeded cap: limit="@
                + text::decimal(limit as nat) + ", seen="@ + text::decimal(seen as nat),
            ErrorView::InvalidUrl(detail) => "invalid URL: "@ + detail,
            ErrorView::InvalidHeader(detail) => "invalid header: "@ + detail,
            ErrorView::SerializeJson(detail) => "request JSON serialise: "@ + detail,
            ErrorView::Cancelled(detail) => "request cancelled: "@ + detail,
            ErrorView::Internal(detail) => "internal HTTP client error: "@ + detail,
        }
    }
}

impl Error {
    /// True iff the per-request timeout fired.
    pub fn is_timeout(&self) -> (r: bool)
        ensures
            r == (self@ is Timeout),
    {
        matches!(self, Error::Timeout)
    }

    /// True iff the upstream was unreachable (TCP, DNS, mid-flight drop).
    pub fn is_unreachable(&self) -> (r: bool)
        ensures
            r == (self@ is Unreachable),
    {
        matches!(self, Error::Unreachable(_))
    }

    /// The text in which the error is shown.
    pub fn message(&self) -> (r: String)
        ensures
            r@ == self@.shown(),
    {
        match self {
            Error::Timeout => "request timed out".to_owned(),
            Error::Unreachable(detail) => "upstream unreachable: ".to_owned().concat(
                detail.as_str(),
            ),
            Error::Tls(detail) => "TLS error: ".to_owned().concat(detail.as_str()),
            Error::Decode(detail) => "response decode error: ".to_owned().concat(detail.as_str()),
            Error::BodyTooLarge { limit, seen } => {
                let limit = text::decimal_text(*limit as u64);
                let seen = text::decimal_text(*seen as u64);
                "response body exceeded cap: limit=".to_owned().concat(limit.as_str()).concat(
                    ", seen=",
                ).concat(seen.as_str())
            },
            Error::InvalidUrl(detail) => "invalid URL: ".to_owned().concat(detail.as_str()),
            Error::InvalidHeader(detail) => "invalid header: ".to_owned().concat(detail.as_str()),
            Error::SerializeJson(detail) => "request JSON serialise: ".to_owned().concat(
                detail.as_str(),
            ),
            Error::Cancelled(detail) => "request cancelled: ".to_owned().concat(detail.as_str()),
            Error::Internal(detail) => "internal HTTP client error: ".to_owned().concat(
                detail.as_str(),
            ),
        }
    }
}

impl ErrorView {
    /// The detail that the error carries, if it carries one.
    pub open spec fn detail(self) -> Option<Seq<char>> {
        match self {
            ErrorView::Timeout => None,
            ErrorView::Unreachable(detail) => Some(detail),
            ErrorView::Tls(detail) => Some(detail),
            ErrorView::Decode(detail) => Some(detail),
            ErrorView::BodyTooLarge { .. } => None,
            ErrorView::InvalidUrl(detail) => Some(detail),
            ErrorView::InvalidHeader(detail) => Some(detail),
            ErrorView::SerializeJson(detail) => Some(detail),
            ErrorView::Cancelled(detail) => Some(detail),
            ErrorView::Internal(detail) => Some(detail),
        }
    }
}

/// Whether `s` ends with `tail`, with something before it.
pub open spec fn ends_with(s: Seq<char>, tail: Seq<char>) -> bool {
    s.len() > tail.len() && s.skip(s.len() - tail.len()) == tail
}

/// The text in which an error is shown ends with the whole of its detail.
pub proof fn law_shown_text_ends_with_detail(error: ErrorView)
    ensures
        error.detail() matches Some(detail) ==> ends_with(error.shown(), detail),
{
    reveal_strlit("upstream unreachable: ");
    reveal_strlit("TLS error: ");
    reveal_strlit("response decode error: ");
    reveal_strlit("invalid URL: ");
    reveal_strlit("invalid header: ");
    reveal_strlit("request JSON serialise: ");
    reveal_strlit("request cancelled: ");
    reveal_strlit("internal HTTP client error: ");
    if let Some(detail) = error.detail() {
        let shown = error.shown();
        assert(shown.skip(shown.len() - detail.len()) =~= detail);
    }
}

/// The text for a body that is too large gives the cap and the number of bytes
/// that were seen: what stands behind the last equals sign is the latter, and
/// what stands between the first one and the comma behind it is the former.
pub proof fn law_shown_cap_reads_back(limit: usize, seen: usize)
    ensures
        ({
            let shown = ErrorView::BodyTooLarge { limit, seen }.shown();
            let (_, tail) = text::split_at_first(shown, '=')->0;
            let (first, _) = text::split_at_first(tail, ',')->0;
            let (_, last) = text::split_at_last(shown, '=')->0;
            &&& text::split_at_first(shown, '=') is Some
            &&& text::split_at_first(tail, ',') is Some
            &&& text::parsed_unsigned(first, u64::MAX as nat) == Some(limit as nat)
            &&& text::split_at_last(shown, '=') is Some
            &&& text::parsed_unsigned(last, u64::MAX as nat) == Some(seen as nat)
        }),
{
    reveal_strlit("response body exceeded cap: limit=");
    reveal_strlit(", seen=");
    let shown = ErrorView::BodyTooLarge { limit, seen }.shown();
    let a = text::decimal(limit as nat);
    let b = text::decimal(seen as nat);
    text::lemma_decimal_is_digits(limit as nat);
    text::lemma_decimal_is_digits(seen as nat);
    text::law_decimal_round_trip(limit as nat, u64::MAX as nat);
    text::law_decimal_round_trip(seen as nat, u64::MAX as nat);
    let label = "response body exceeded cap: limit="@;
    let head = label.drop_last();
    let tail = a + ", seen="@ + b;
    assert(label == head.push('='));
    assert(shown == head.push('=') + tail);
    assert(!head.contains('='));
    text::law_split_once_undoes_joining(head, tail, '=');
    let behind = ", seen="@.drop_first() + b;
    assert(tail == a.push(',') + behind);
    assert(!a.contains(','));
    text::law_split_once_undoes_joining(a, behind, ',');
    let front = label + a + ", seen="@.drop_last();
    assert(shown == front.push('=') + b);
    assert(!b.contains('='));
    text::law_rsplit_once_undoes_joining(front, b, '=');
}

/// The characters of the text of an error that tell its kind.
spec fn marks(error: ErrorView) -> (char, char, char, char) {
    (error.shown()[0], error.shown()[2], error.shown()[8], error.shown()[9])
}

/// No two errors are shown in the same text: it tells the kind of an error and
/// all that the error holds.
pub proof fn law_shown_text_tells_errors_apart(a: ErrorView, b: ErrorView)
    requires
        a.shown() == b.shown(),
    ensures
        a == b,
{
    reveal_strlit("request timed out");
    reveal_strlit("upstream unreachable: ");
    reveal_strlit("TLS error: ");
    reveal_strlit("response decode error: ");
    reveal_strlit("response body exceeded cap: limit=");
    reveal_strlit("invalid URL: ");
    reveal_strlit("invalid header: ");
    reveal_strlit("request JSON serialise: ");
    reveal_strlit("request cancelled: ");
    reveal_strlit("internal HTTP client error: ");
    assert(marks(a) == marks(b));
    law_shown_text_ends_with_detail(a);
    law_shown_text_ends_with_detail(b);
    match (a, b) {
        (
            ErrorView::BodyTooLarge { limit, seen },
            ErrorView::BodyTooLarge { limit: other_limit, seen: other_seen },
        ) => {
            law_shown_cap_reads_back(limit, seen);
            law_shown_cap_reads_back(other_limit, other_seen);
        },
        _ => {
            assert("request timed out"@[0] == 'r' && "request timed out"@[8] == 't');
            assert("request JSON serialise: "@[8] == 'J' && "request cancelled: "@[8] == 'c');
            assert("response decode error: "@[9] == 'd');
            assert("response body exceeded cap: limit="@[9] == 'b');
            assert("invalid URL: "@[8] == 'U' && "invalid header: "@[8] == 'h');
        },
    }
}

/// What is said of an error is what it holds.
pub proof fn law_views_of_errors<T: View>(
    detail: String,
    limit: usize,
    seen: usize,
    value: T,
    error: Error,
)
    ensures
        Error::Timeout@ is Timeout,
        Error::Unreachable(detail)@ == ErrorView::Unreachable(detail@),
        Error::Tls(detail)@ == ErrorView::Tls(detail@),
        Error::Decode(detail)@ == ErrorView::Decode(detail@),
        (Error::BodyTooLarge { limit, seen })@ == (ErrorView::BodyTooLarge { limit, seen }),
        Error::InvalidUrl(detail)@ == ErrorView::InvalidUrl(detail@),
        Error::InvalidHeader(detail)@ == ErrorView::InvalidHeader(detail@),
        Error::SerializeJson(detail)@ == ErrorView::SerializeJson(detail@),
        Error::Cancelled(detail)@ == ErrorView::Cancelled(detail@),
        Error::Internal(detail)@ == ErrorView::Internal(detail@),
        outcome(Ok::<T, Error>(value)) == Ok::<T::V, ErrorView>(value@),
        outcome(Err::<T, Error>(error)) == Err::<T::V, ErrorView>(error@),
        optional_error(Some(error)) == Some(error@),
        optional_error(None) is None,
{
}

} // verus!
