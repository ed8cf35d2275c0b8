//! [`Response`]: the head of a response, and reading its body with or without a
//! cap on wire bytes. A body with the `Content-Encoding` `gzip`, `deflate` or
//! `br` is decompressed; the cap applies to what arrives, before that.

use std::io::Read;

use vstd::prelude::*;
use vstd::string::StringExecFns;

use crate::body;
use crate::error;
use crate::error::{Error, ErrorView, Result};
use crate::headers;
use crate::text;
use crate::text::CharClass;
use crate::time;
use crate::time::Duration;

verus! {

/// A status code of the `http` crate.
#[verifier::external_type_specification]
#[verifier::external_body]
pub struct ExStatusCode(http::StatusCode);

/// A protocol version of the `http` crate.
#[verifier::external_type_specification]
#[verifier::external_body]
pub struct ExVersion(http::Version);

/// The views of decoded bytes or of why there are none.
pub open spec fn decoding_view(
    decoded: std::result::Result<Vec<u8>, String>,
) -> std::result::Result<Seq<u8>, Seq<char>> {
    match decoded {
        Ok(bytes) => Ok(bytes@),
        Err(detail) => Err(detail@),
    }
}

/// What reading `data` through `flate2::read::GzDecoder` to its end gives: the
/// bytes, or the text of the error.
pub uninterp spec fn gzip_decoded(data: Seq<u8>) -> std::result::Result<Seq<u8>, Seq<char>>;

/// What reading `data` through `flate2::read::ZlibDecoder` to its end gives:
/// the bytes, or the text of the error.
pub uninterp spec fn zlib_decoded(data: Seq<u8>) -> std::result::Result<Seq<u8>, Seq<char>>;

/// What reading `data` through `brotli::Decompressor` to its end gives: the
/// bytes, or the text of the error.
pub uninterp spec fn brotli_decoded(data: Seq<u8>) -> std::result::Result<Seq<u8>, Seq<char>>;

/// `flate2::read::GzDecoder`, read to its end. What it gives depends on the
/// data alone and has the name [`gzip_decoded`].
#[verifier::external_body]
fn gunzip(data: &[u8]) -> (r: std::result::Result<Vec<u8>, String>)
    ensures
        decoding_view(r) == gzip_decoded(data@),
{
    let mut out = Vec::new();
    match flate2::read::GzDecoder::new(data).read_to_end(&mut out) {
        Ok(_) => Ok(out),
        Err(error) => Err(error.to_string()),
    }
}

/// `flate2::read::ZlibDecoder`, read to its end. What it gives depends on the
/// data alone and has the name [`zlib_decoded`].
#[verifier::external_body]
fn inflate(data: &[u8]) -> (r: std::result::Result<Vec<u8>, String>)
    ensures
        decoding_view(r) == zlib_decoded(data@),
{
    let mut out = Vec::new();
    match flate2::read::ZlibDecoder::new(data).read_to_end(&mut out) {
        Ok(_) => Ok(out),
        Err(error) => Err(error.to_string()),
    }
}

/// `brotli::Decompressor` with a buffer of 4096 bytes, read to its end. What it
/// gives depends on the data alone and has the name [`brotli_decoded`].
#[verifier::external_body]
fn unbrotli(data: &[u8]) -> (r: std::result::Result<Vec<u8>, String>)
    ensures
        decoding_view(r) == brotli_decoded(data@),
{
    let mut out = Vec::new();
    match brotli::Decompressor::new(data, 4096).read_to_end(&mut out) {
        Ok(_) => Ok(out),
        Err(error) => Err(error.to_string()),
    }
}

/// The ways in which a body can be encoded.
#[derive(Clone, Copy, Debug, PartialEq, Eq, Structural)]
pub enum Coding {
    /// Not at all.
    Identity,
    /// `gzip`
    Gzip,
    /// `deflate`
    Deflate,
    /// `br`
    Brotli,
}

/// The name of a coding: what a `Content-Encoding` header says, in lower case
/// and without the space around it. No header is `identity`.
pub open spec fn coding_name(encoding: Option<Seq<char>>) -> Seq<char> {
    match encoding {
        Some(encoding) => text::ascii_lowercased(text::trimmed_ws(encoding)),
        None => "identity"@,
    }
}

/// The coding with this name, if it is supported.
pub open spec fn coding_of(name: Seq<char>) -> Option<Coding> {
    if name == ""@ || name == "identity"@ {
        Some(Coding::Identity)
    } else if name == "gzip"@ || name == "x-gzip"@ {
        Some(Coding::Gzip)
    } else if name == "deflate"@ {
        Some(Coding::Deflate)
    } else if name == "br"@ {
        Some(Coding::Brotli)
    } else {
        None
    }
}

/// What comes of a decoding, where `label` says which it was.
pub open spec fn decoding_outcome(
    label: Seq<char>,
    decoded: std::result::Result<Seq<u8>, Seq<char>>,
) -> std::result::Result<Seq<u8>, ErrorView> {
    match decoded {
        Ok(bytes) => Ok(bytes),
        Err(detail) => Err(ErrorView::Decode(label + detail)),
    }
}

/// What a body with this `Content-Encoding` decodes to.
pub open spec fn decoded(encoding: Option<Seq<char>>, data: Seq<u8>) -> std::result::Result<
    Seq<u8>,
    ErrorView,
> {
    match coding_of(coding_name(encoding)) {
        Some(Coding::Identity) => Ok(data),
        Some(Coding::Gzip) => decoding_outcome("gzip decode: "@, gzip_decoded(data)),
        Some(Coding::Deflate) => decoding_outcome("deflate decode: "@, zlib_decoded(data)),
        Some(Coding::Brotli) => decoding_outcome("brotli decode: "@, brotli_decoded(data)),
        None => Err(
            ErrorView::Decode("unsupported Content-Encoding `"@ + coding_name(encoding) + "`"@),
        ),
    }
}

/// The bytes or the error that a [`Result`] holds.
pub open spec fn bytes_outcome(r: Result<bytes::Bytes>) -> std::result::Result<
    Seq<u8>,
    ErrorView,
> {
    match r {
        Ok(bytes) => Ok(body::contents(bytes)),
        Err(error) => Err(error@),
    }
}

/// The coding with this name, if it is supported.
pub fn parse_coding(name: &str) -> (r: Option<Coding>)
    ensures
        r == coding_of(name@),
{
    if text::same_text(name, "") || text::same_text(name, "identity") {
        Some(Coding::Identity)
    } else if text::same_text(name, "gzip") || text::same_text(name, "x-gzip") {
        Some(Coding::Gzip)
    } else if text::same_text(name, "deflate") {
        Some(Coding::Deflate)
    } else if text::same_text(name, "br") {
        Some(Coding::Brotli)
    } else {
        None
    }
}

/// Turns what a decoder gave into a result.
pub fn finish_decoding(label: &str, decoded: std::result::Result<Vec<u8>, String>) -> (r: Result<
    bytes::Bytes,
>)
    ensures
        bytes_outcome(r) == decoding_outcome(label@, decoding_view(decoded)),
{
    match decoded {
        Ok(bytes) => Ok(body::from_vec(bytes)),
        Err(detail) => Err(Error::Decode(label.to_owned().concat(detail.as_str()))),
    }
}

/// Decodes a body with this `Content-Encoding`.
pub fn decompress(encoding: Option<&str>, data: bytes::Bytes) -> (r: Result<bytes::Bytes>)
    ensures
        bytes_outcome(r) == decoded(
            (match encoding {
                Some(encoding) => Some(encoding@),
                None => None,
            }),
            body::contents(data),
        ),
{
    let name = match encoding {
        Some(encoding) => text::to_ascii_lowercase(text::trim(encoding, CharClass::Whitespace)),
        None => "identity".to_owned(),
    };
    match parse_coding(name.as_str()) {
        Some(Coding::Identity) => Ok(data),
        Some(Coding::Gzip) => finish_decoding("gzip decode: ", gunzip(body::as_slice(&data))),
        Some(Coding::Deflate) => finish_decoding(
            "deflate decode: ",
            inflate(body::as_slice(&data)),
        ),
        Some(Coding::Brotli) => finish_decoding(
            "brotli decode: ",
            unbrotli(body::as_slice(&data)),
        ),
        None => Err(
            Error::Decode(text::join3("unsupported Content-Encoding `", name.as_str(), "`")),
        ),
    }
}

/// Whether a text in lower case tells of a cancellation, in either spelling.
pub open spec fn tells_of_cancellation(lowered: Seq<char>) -> bool {
    text::occurs_in(lowered, "canceled"@) || text::occurs_in(lowered, "cancelled"@)
}

/// The error that the TCP transport reports with `message`, of which `lowered`
/// is the text in lower case: a cancellation, or else an unreachable upstream.
pub open spec fn body_error_of(message: Seq<char>, lowered: Seq<char>) -> ErrorView {
    if tells_of_cancellation(lowered) {
        ErrorView::Cancelled(message)
    } else {
        ErrorView::Unreachable(message)
    }
}

/// Tells cancellations from other failures of reading a body by the message in
/// lower case.
pub fn classify_body_error(message: String, lowered: &str) -> (r: Error)
    ensures
        r@ == body_error_of(message@, lowered@),
{
    if text::contains(lowered, "canceled") || text::contains(lowered, "cancelled") {
        Error::Cancelled(message)
    } else {
        Error::Unreachable(message)
    }
}

/// The error for a failure of reading a body over TCP.
pub fn map_hyper_body_error(message: String) -> (r: Error)
    ensures
        r@ == body_error_of(message@, text::lowercased(message@)),
        vstd::utf8::is_ascii_chars(message@) ==> r@ == body_error_of(
            message@,
            text::ascii_lowercased(message@),
        ),
        tells_of_cancellation(text::ascii_lowercased(message@)) ==> r@ == ErrorView::Cancelled(
            message@,
        ),
{
    proof {
        reveal_strlit("canceled");
        reveal_strlit("cancelled");
        assert(text::is_lower_word("canceled"@));
        assert(text::is_lower_word("cancelled"@));
    }
    let lowered = text::to_lowercase(message.as_str());
    classify_body_error(message, lowered.as_str())
}

/// What arrives while a body is read.
#[derive(Debug)]
pub enum BodyEvent {
    /// A piece of the body.
    Data(bytes::Bytes),
    /// Trailers, or a frame of another kind.
    Other,
    /// The end of the body.
    End,
    /// Nothing, for as long as the request may take.
    TimedOut,
    /// The TCP transport failed, with this message.
    Failed(String),
    /// The HTTP/3 body failed.
    Http3Failed(Error),
}

/// What a [`BodyEvent`] says.
pub enum EventView {
    /// A piece of the body.
    Data(Seq<u8>),
    /// A frame of another kind.
    Other,
    /// The end of the body.
    End,
    /// The reading failed.
    Failed(ErrorView),
}

impl View for BodyEvent {
    type V = EventView;

    open spec fn view(&self) -> EventView {
        match *self {
            BodyEvent::Data(data) => EventView::Data(body::contents(data)),
            BodyEvent::Other => EventView::Other,
            BodyEvent::End => EventView::End,
            BodyEvent::TimedOut => EventView::Failed(ErrorView::Timeout),
            BodyEvent::Failed(message) => EventView::Failed(
                body_error_of(message@, text::lowercased(message@)),
            ),
            BodyEvent::Http3Failed(error) => EventView::Failed(error@),
        }
    }
}

/// A body of which some has arrived.
#[derive(Debug)]
pub struct BodyReader {
    encoding: Option<String>,
    limit: usize,
    frame_timeout: Option<Duration>,
    buffered: Vec<u8>,
}

/// What a [`BodyReader`] holds.
pub struct ReaderView {
    /// What the `Content-Encoding` header says.
    pub encoding: Option<Seq<char>>,
    /// The cap on wire bytes.
    pub limit: usize,
    /// How long each frame may take to arrive, in nanoseconds.
    pub frame_timeout: Option<nat>,
    /// The wire bytes that have arrived.
    pub buffered: Seq<u8>,
}

impl View for BodyReader {
    type V = ReaderView;

    closed spec fn view(&self) -> ReaderView {
        ReaderView {
            encoding: text::optional_text(self.encoding),
            limit: self.limit,
            frame_timeout: time::optional_span(self.frame_timeout),
            buffered: self.buffered@,
        }
    }
}

/// What comes of an event.
#[derive(Debug)]
pub enum BodyStep {
    /// The reading goes on.
    Continue(BodyReader),
    /// The reading is over.
    Finished(Result<bytes::Bytes>),
}

/// What a [`BodyStep`] says.
pub enum StepView {
    /// The reading goes on.
    Continue(ReaderView),
    /// The reading is over.
    Finished(std::result::Result<Seq<u8>, ErrorView>),
}

impl View for BodyStep {
    type V = StepView;

    open spec fn view(&self) -> StepView {
        match *self {
            BodyStep::Continue(reader) => StepView::Continue(reader@),
            BodyStep::Finished(r) => StepView::Finished(bytes_outcome(r)),
        }
    }
}

impl ReaderView {
    /// What comes of an event.
    pub open spec fn after(self, event: EventView) -> StepView {
        match event {
            EventView::Data(data) => if self.buffered.len() + data.len() > self.limit {
                StepView::Finished(
                    Err(
                        ErrorView::BodyTooLarge {
                            limit: self.limit,
                            seen: self.buffered.len() as usize,
                        },
                    ),
                )
            } else {
                StepView::Continue(ReaderView { buffered: self.buffered + data, ..self })
            },
            EventView::Other => StepView::Continue(self),
            EventView::End => StepView::Finished(decoded(self.encoding, self.buffered)),
            EventView::Failed(error) => StepView::Finished(Err(error)),
        }
    }
}

impl BodyReader {
    #[verifier::type_invariant]
    spec fn within_limit(self) -> bool {
        self.buffered.len() <= self.limit
    }

    /// How many wire bytes were buffered: never more than the cap.
    pub fn buffered_len(&self) -> (r: usize)
        ensures
            r == self@.buffered.len(),
            r <= self@.limit,
    {
        proof {
            use_type_invariant(self);
        }
        self.buffered.len()
    }

    /// A body of which nothing has arrived.
    pub fn new(
        encoding: Option<String>,
        limit: usize,
        frame_timeout: Option<Duration>,
    ) -> (r: BodyReader)
        ensures
            r@ == fresh_reader(
                text::optional_text(encoding),
                limit,
                time::optional_span(frame_timeout),
            ),
    {
        BodyReader { encoding, limit, frame_timeout, buffered: Vec::new() }
    }

    /// How long each frame may take to arrive.
    pub fn frame_timeout(&self) -> (r: Option<Duration>)
        ensures
            time::optional_span(r) == self@.frame_timeout,
    {
        self.frame_timeout
    }

    /// Goes on with what arrived.
    pub fn step(self, event: BodyEvent) -> (r: BodyStep)
        ensures
            r@ == self@.after(event@),
            event matches BodyEvent::Failed(message) ==> (vstd::utf8::is_ascii_chars(message@)
                ==> r@ == StepView::Finished(
                Err(body_error_of(message@, text::ascii_lowercased(message@))),
            )),
            event matches BodyEvent::Failed(message) ==> (tells_of_cancellation(
                text::ascii_lowercased(message@),
            ) ==> r@ == StepView::Finished(Err(ErrorView::Cancelled(message@)))),
    {
        proof {
            use_type_invariant(&self);
        }
        match event {
            BodyEvent::Data(data) => {
                let BodyReader { encoding, limit, frame_timeout, buffered } = self;
                let data = body::as_slice(&data);
                if data.len() > limit - buffered.len() {
                    return BodyStep::Finished(
                        Err(Error::BodyTooLarge { limit, seen: buffered.len() }),
                    );
                }
                let mut buffered = buffered;
                buffered.extend_from_slice(data);
                assert(buffered@ =~= self.buffered@ + data@);
                BodyStep::Continue(BodyReader { encoding, limit, frame_timeout, buffered })
            },
            BodyEvent::Other => BodyStep::Continue(self),
            BodyEvent::End => {
                let encoding = match &self.encoding {
                    Some(encoding) => Some(encoding.as_str()),
                    None => None,
                };
                BodyStep::Finished(decompress(encoding, body::from_vec(self.buffered)))
            },
            BodyEvent::TimedOut => BodyStep::Finished(Err(Error::Timeout)),
            BodyEvent::Failed(message) => BodyStep::Finished(Err(map_hyper_body_error(message))),
            BodyEvent::Http3Failed(error) => BodyStep::Finished(Err(error)),
        }
    }
}

/// The body of a response, where `B` is the type of bodies that arrive while
/// they are read.
#[derive(Debug)]
pub enum ResponseBody<B> {
    /// A body that arrives while it is read.
    Streamed(B),
    /// A body that has arrived.
    Buffered(bytes::Bytes),
}

/// What a [`ResponseBody`] holds.
pub enum BodyView<B> {
    /// A body that arrives while it is read.
    Streamed(B),
    /// A body that has arrived.
    Buffered(Seq<u8>),
}

impl<B> View for ResponseBody<B> {
    type V = BodyView<B>;

    open spec fn view(&self) -> BodyView<B> {
        match *self {
            ResponseBody::Streamed(body) => BodyView::Streamed(body),
            ResponseBody::Buffered(bytes) => BodyView::Buffered(body::contents(bytes)),
        }
    }
}

/// A response. A status other than success is no error.
#[derive(Debug)]
pub struct Response<B> {
    status: http::StatusCode,
    version: http::Version,
    headers: http::HeaderMap,
    body: ResponseBody<B>,
    frame_timeout: Option<Duration>,
}

/// What a [`Response`] says.
pub struct ResponseView<B> {
    /// Status code.
    pub status: http::StatusCode,
    /// Protocol version.
    pub version: http::Version,
    /// Headers.
    pub headers: headers::Fields,
    /// Body.
    pub body: BodyView<B>,
    /// How long each frame of the body may take to arrive, in nanoseconds.
    pub frame_timeout: Option<nat>,
}

impl<B> View for Response<B> {
    type V = ResponseView<B>;

    closed spec fn view(&self) -> ResponseView<B> {
        ResponseView {
            status: self.status,
            version: self.version,
            headers: headers::map_fields(self.headers),
            body: self.body@,
            frame_timeout: time::optional_span(self.frame_timeout),
        }
    }
}

/// How a body can be read.
#[derive(Debug)]
pub enum BodyRead<B> {
    /// It is still to arrive.
    Stream(B, BodyReader),
    /// It is there, decoded.
    Complete(bytes::Bytes),
}

/// What a [`BodyRead`] says.
pub enum ReadView<B> {
    /// It is still to arrive.
    Stream(B, ReaderView),
    /// It is there, decoded.
    Complete(Seq<u8>),
}

impl<B> View for BodyRead<B> {
    type V = ReadView<B>;

    open spec fn view(&self) -> ReadView<B> {
        match *self {
            BodyRead::Stream(body, reader) => ReadView::Stream(body, reader@),
            BodyRead::Complete(bytes) => ReadView::Complete(body::contents(bytes)),
        }
    }
}

impl<B> ResponseView<B> {
    /// What the `Content-Length` header says, if it can be read as a number of
    /// 64 bits.
    pub open spec fn content_length(self) -> Option<nat> {
        match headers::first_text(self.headers, "content-length"@) {
            Some(value) => text::parsed_unsigned(text::trimmed_ws(value), u64::MAX as nat),
            None => None,
        }
    }

    /// What the `Content-Encoding` header says.
    pub open spec fn content_encoding(self) -> Option<Seq<char>> {
        headers::first_text(self.headers, "content-encoding"@)
    }

    /// What reading the body with a cap on wire bytes gives.
    pub open spec fn read(self, limit: usize) -> std::result::Result<ReadView<B>, ErrorView> {
        match self.body {
            BodyView::Streamed(body) => Ok(
                ReadView::Stream(
                    body,
                    fresh_reader(self.content_encoding(), limit, self.frame_timeout),
                ),
            ),
            BodyView::Buffered(data) => if data.len() > limit {
                Err(ErrorView::BodyTooLarge { limit, seen: limit })
            } else {
                match decoded(self.content_encoding(), data) {
                    Ok(bytes) => Ok(ReadView::Complete(bytes)),
                    Err(error) => Err(error),
                }
            },
        }
    }
}

/// The text of the error that `String::from_utf8` reports.
pub uninterp spec fn utf8_error_text(data: Seq<u8>) -> Seq<char>;

/// `String::from_utf8`: accepts UTF-8 and nothing else. The text of its error
/// has the name [`utf8_error_text`].
#[verifier::external_body]
fn from_utf8(data: Vec<u8>) -> (r: std::result::Result<String, String>)
    ensures
        r is Ok <==> vstd::utf8::valid_utf8(data@),
        r matches Ok(s) ==> s@ == vstd::utf8::decode_utf8(data@),
        r matches Err(detail) ==> detail@ == utf8_error_text(data@),
{
    String::from_utf8(data).map_err(|error| error.to_string())
}

/// Turns what reading bytes as UTF-8 gave into a result.
pub fn finish_text(decoded: std::result::Result<String, String>) -> (r: Result<String>)
    ensures
        match (decoded, r) {
            (Ok(text), Ok(given)) => given == text,
            (Err(detail), Err(told)) => told@ == ErrorView::Decode(
                "response body is not valid UTF-8: "@ + detail@,
            ),
            _ => false,
        },
{
    match decoded {
        Ok(text) => Ok(text),
        Err(detail) => Err(
            Error::Decode("response body is not valid UTF-8: ".to_owned().concat(detail.as_str())),
        ),
    }
}

impl<B> Response<B> {
    /// A response whose body arrives while it is read.
    pub fn new(
        status: http::StatusCode,
        version: http::Version,
        headers: http::HeaderMap,
        body: B,
    ) -> (r: Response<B>)
        ensures
            r@ == (ResponseView {
                status,
                version,
                headers: headers::map_fields(headers),
                body: BodyView::Streamed(body),
                frame_timeout: None,
            }),
    {
        Response {
            status,
            version,
            headers,
            body: ResponseBody::Streamed(body),
            frame_timeout: None,
        }
    }

    /// A response whose body has arrived.
    pub fn new_buffered(
        status: http::StatusCode,
        version: http::Version,
        headers: http::HeaderMap,
        body: bytes::Bytes,
    ) -> (r: Response<B>)
        ensures
            r@ == (ResponseView {
                status,
                version,
                headers: headers::map_fields(headers),
                body: BodyView::<B>::Buffered(body::contents(body)),
                frame_timeout: None,
            }),
    {
        Response {
            status,
            version,
            headers,
            body: ResponseBody::Buffered(body),
            frame_timeout: None,
        }
    }

    /// Sets how long each frame of the body may take to arrive.
    pub fn with_frame_timeout(self, frame_timeout: Option<Duration>) -> (r: Response<B>)
        ensures
            r@ == (ResponseView { frame_timeout: time::optional_span(frame_timeout), ..self@ }),
    {
        Response { frame_timeout, ..self }
    }

    /// Status code.
    pub fn status(&self) -> (r: http::StatusCode)
        ensures
            r == self@.status,
    {
        self.status
    }

    /// Headers.
    pub fn headers(&self) -> (r: &http::HeaderMap)
        ensures
            headers::map_fields(*r) == self@.headers,
    {
        &self.headers
    }

    /// Protocol version.
    pub fn version(&self) -> (r: http::Version)
        ensures
            r == self@.version,
    {
        self.version
    }

    /// Value of the `Content-Length` header, if it can be read as a `u64`.
    pub fn content_length(&self) -> (r: Option<u64>)
        ensures
            match r {
                Some(n) => self@.content_length() == Some(n as nat),
                None => self@.content_length() is None,
            },
    {
        proof {
            reveal_strlit("content-length");
            assert(text::ascii_lowercased("content-length"@) =~= "content-length"@);
        }
        match headers::get_text(&self.headers, "content-length") {
            Some(value) => text::parse_unsigned(
                text::trim(value, CharClass::Whitespace),
                u64::MAX,
            ),
            None => None,
        }
    }

    /// What the `Content-Encoding` header says.
    fn content_encoding(&self) -> (r: Option<&str>)
        ensures
            match r {
                Some(encoding) => self@.content_encoding() == Some(encoding@),
                None => self@.content_encoding() is None,
            },
    {
        proof {
            reveal_strlit("content-encoding");
            assert(text::ascii_lowercased("content-encoding"@) =~= "content-encoding"@);
        }
        headers::get_text(&self.headers, "content-encoding")
    }

    /// Reads the body, however large it is, and decodes it.
    pub fn bytes(self) -> (r: Result<BodyRead<B>>)
        ensures
            error::outcome(r) == self@.read(usize::MAX),
    {
        self.bytes_with_cap(usize::MAX)
    }

    /// Reads the body with a cap on wire bytes and decodes it. What it decodes
    /// to may be larger than the cap.
    pub fn bytes_with_cap(self, max_wire_bytes: usize) -> (r: Result<BodyRead<B>>)
        ensures
            error::outcome(r) == self@.read(max_wire_bytes),
    {
        let encoding = match self.content_encoding() {
            Some(encoding) => Some(encoding.to_owned()),
            None => None,
        };
        match self.body {
            ResponseBody::Streamed(body) => Ok(
                BodyRead::Stream(
                    body,
                    BodyReader::new(encoding, max_wire_bytes, self.frame_timeout),
                ),
            ),
            ResponseBody::Buffered(data) => {
                if body::as_slice(&data).len() > max_wire_bytes {
                    return Err(
                        Error::BodyTooLarge { limit: max_wire_bytes, seen: max_wire_bytes },
                    );
                }
                let encoding = match &encoding {
                    Some(encoding) => Some(encoding.as_str()),
                    None => None,
                };
                match decompress(encoding, data) {
                    Ok(bytes) => Ok(BodyRead::Complete(bytes)),
                    Err(error) => Err(error),
                }
            },
        }
    }

    /// The body as it arrives: it is not decoded, so who forwards it keeps the
    /// `Content-Encoding` header.
    pub fn into_body(self) -> (r: ResponseBody<B>)
        ensures
            r@ == self@.body,
    {
        self.body
    }

    /// Takes what reading the body gave as text in UTF-8.
    pub fn text(read: Result<bytes::Bytes>) -> (r: Result<String>)
        ensures
            match (read, r) {
                (Err(error), Err(told)) => told == error,
                (Ok(bytes), Ok(text)) => vstd::utf8::valid_utf8(body::contents(bytes)) && text@
                    == vstd::utf8::decode_utf8(body::contents(bytes)),
                (Ok(bytes), Err(told)) => !vstd::utf8::valid_utf8(body::contents(bytes)) && told@
                    == ErrorView::Decode(
                    "response body is not valid UTF-8: "@ + utf8_error_text(body::contents(bytes)),
                ),
                (Err(_), Ok(_)) => false,
            },
    {
        match read {
            Ok(bytes) => finish_text(
                from_utf8(vstd::slice::slice_to_vec(body::as_slice(&bytes))),
            ),
            Err(error) => Err(error),
        }
    }

    /// Takes what reading the body, and then parsing it as JSON, gave.
    pub fn json<T>(read: Result<std::result::Result<T, String>>) -> (r: Result<T>)
        ensures
            match (read, r) {
                (Err(error), Err(told)) => told == error,
                (Ok(Ok(value)), Ok(given)) => given == value,
                (Ok(Err(detail)), Err(told)) => told@ == ErrorView::Decode(
                    "response body is not valid JSON: "@ + detail@,
                ),
                _ => false,
            },
    {
        match read {
            Err(error) => Err(error),
            Ok(Ok(value)) => Ok(value),
            Ok(Err(detail)) => Err(
                Error::Decode(
                    "response body is not valid JSON: ".to_owned().concat(detail.as_str()),
                ),
            ),
        }
    }
}

impl StepView {
    /// What comes of one event more; none counts once the reading is over.
    pub open spec fn then_event(self, event: EventView) -> StepView {
        match self {
            StepView::Continue(reader) => reader.after(event),
            StepView::Finished(r) => StepView::Finished(r),
        }
    }
}

impl ReaderView {
    /// What comes of a series of events.
    pub open spec fn after_all(self, events: Seq<EventView>) -> StepView
        decreases events.len(),
    {
        if events.len() == 0 {
            StepView::Continue(self)
        } else {
            self.after_all(events.drop_last()).then_event(events.last())
        }
    }
}

/// The bytes that a series of events brings.
pub open spec fn wire_bytes(events: Seq<EventView>) -> Seq<u8>
    decreases events.len(),
{
    if events.len() == 0 {
        Seq::empty()
    } else {
        match events.last() {
            EventView::Data(data) => wire_bytes(events.drop_last()) + data,
            _ => wire_bytes(events.drop_last()),
        }
    }
}

/// Whether all of a series of events are frames of the body.
pub open spec fn are_frames(events: Seq<EventView>) -> bool {
    forall|i: int|
        0 <= i < events.len() ==> (#[trigger] events[i]) is Data || events[i] is Other
}

/// A reader of which nothing has arrived.
pub open spec fn fresh_reader(
    encoding: Option<Seq<char>>,
    limit: usize,
    frame_timeout: Option<nat>,
) -> ReaderView {
    ReaderView { encoding, limit, frame_timeout, buffered: Seq::empty() }
}

/// While a body is read, what was buffered is what has arrived, and it is never
/// more than the cap.
pub proof fn law_buffer_stays_within_cap(
    encoding: Option<Seq<char>>,
    limit: usize,
    frame_timeout: Option<nat>,
    events: Seq<EventView>,
)
    ensures
        fresh_reader(encoding, limit, frame_timeout).after_all(events) matches StepView::Continue(
            reader,
        ) ==> reader.buffered == wire_bytes(events) && reader.buffered.len() <= limit
            && reader.limit == limit && reader.encoding == encoding && reader.frame_timeout
            == frame_timeout,
    decreases events.len(),
{
    if events.len() > 0 {
        law_buffer_stays_within_cap(encoding, limit, frame_timeout, events.drop_last());
    }
}

/// A body whose frames all arrive is read if and only if its wire bytes are
/// within the cap: then it gives what they decode to, however large that is.
/// Else the reading ends with an error that tells the cap, and no more bytes
/// than that as seen.
pub proof fn law_cap_decides(
    encoding: Option<Seq<char>>,
    limit: usize,
    frame_timeout: Option<nat>,
    frames: Seq<EventView>,
)
    requires
        are_frames(frames),
    ensures
        wire_bytes(frames).len() <= limit ==> fresh_reader(
            encoding,
            limit,
            frame_timeout,
        ).after_all(
            frames.push(EventView::End),
        ) == StepView::Finished(decoded(encoding, wire_bytes(frames))),
        wire_bytes(frames).len() > limit ==> (fresh_reader(
            encoding,
            limit,
            frame_timeout,
        ).after_all(
            frames.push(EventView::End),
        ) matches StepView::Finished(Err(ErrorView::BodyTooLarge { limit: told, seen })) && told
            == limit && seen <= limit),
{
    let end = frames.push(EventView::End);
    assert(end.drop_last() == frames);
    lemma_frames(encoding, limit, frame_timeout, frames);
}

/// Once the reading is over, nothing that follows changes what came of it.
pub proof fn law_reading_ends_once(
    reader: ReaderView,
    events: Seq<EventView>,
    more: Seq<EventView>,
)
    requires
        reader.after_all(events) is Finished,
    ensures
        reader.after_all(events + more) == reader.after_all(events),
    decreases more.len(),
{
    if more.len() == 0 {
        assert(events + more == events);
    } else {
        law_reading_ends_once(reader, events, more.drop_last());
        assert((events + more).drop_last() == events + more.drop_last());
    }
}

/// A failure while the frames arrive is what comes of the reading, unless the
/// cap was exceeded before.
pub proof fn law_failure_is_reported(
    encoding: Option<Seq<char>>,
    limit: usize,
    frame_timeout: Option<nat>,
    frames: Seq<EventView>,
    error: ErrorView,
)
    requires
        are_frames(frames),
        wire_bytes(frames).len() <= limit,
    ensures
        fresh_reader(encoding, limit, frame_timeout).after_all(
            frames.push(EventView::Failed(error)),
        ) == StepView::Finished(Err(error)),
{
    assert(frames.push(EventView::Failed(error)).drop_last() == frames);
    lemma_frames(encoding, limit, frame_timeout, frames);
}

/// After frames, either all was buffered or the cap was told.
proof fn lemma_frames(
    encoding: Option<Seq<char>>,
    limit: usize,
    frame_timeout: Option<nat>,
    frames: Seq<EventView>,
)
    requires
        are_frames(frames),
    ensures
        wire_bytes(frames).len() <= limit ==> fresh_reader(
            encoding,
            limit,
            frame_timeout,
        ).after_all(frames) == StepView::Continue(
            ReaderView { encoding, limit, frame_timeout, buffered: wire_bytes(frames) },
        ),
        wire_bytes(frames).len() > limit ==> (fresh_reader(
            encoding,
            limit,
            frame_timeout,
        ).after_all(
            frames,
        ) matches StepView::Finished(Err(ErrorView::BodyTooLarge { limit: told, seen })) && told
            == limit && seen <= limit),
    decreases frames.len(),
{
    if frames.len() > 0 {
        let init = frames.drop_last();
        assert forall|i: int| 0 <= i < init.len() implies (#[trigger] init[i]) is Data
            || init[i] is Other by {
            assert(init[i] == frames[i]);
        }
        lemma_frames(encoding, limit, frame_timeout, init);
        assert(frames[frames.len() - 1] == frames.last());
    }
}

/// The cap is the caller's: whatever the headers say, a body that is still to
/// arrive is read with exactly that cap, from its beginning, and with the time
/// that the response allows for each frame.
pub proof fn law_cap_is_the_callers<B>(response: ResponseView<B>, stream: B, limit: usize)
    requires
        response.body == BodyView::Streamed(stream),
    ensures
        response.read(limit) matches Ok(ReadView::Stream(body, reader)) && body == stream
            && reader.limit == limit && reader.buffered.len() == 0 && reader.frame_timeout
            == response.frame_timeout && reader.encoding == headers::first_text(
            response.headers,
            "content-encoding"@,
        ),
{
}

/// Reading a response with a cap ends with an error that tells that cap if the
/// frames that arrive hold more bytes than it, whatever the headers say, and
/// else with what the bytes decode to.
pub proof fn law_response_is_read_within_cap<B>(
    response: ResponseView<B>,
    stream: B,
    limit: usize,
    frames: Seq<EventView>,
)
    requires
        response.body == BodyView::Streamed(stream),
        are_frames(frames),
    ensures
        ({
            let reader = response.read(limit)->Ok_0->Stream_1;
            let end = reader.after_all(frames.push(EventView::End));
            &&& response.read(limit) matches Ok(ReadView::Stream(_, _))
            &&& wire_bytes(frames).len() > limit ==> (end matches StepView::Finished(
                Err(ErrorView::BodyTooLarge { limit: told, seen }),
            ) && told == limit && seen <= limit)
            &&& wire_bytes(frames).len() <= limit ==> end == StepView::Finished(
                decoded(
                    headers::first_text(response.headers, "content-encoding"@),
                    wire_bytes(frames),
                ),
            )
        }),
{
    law_cap_is_the_callers(response, stream, limit);
    let reader = response.read(limit)->Ok_0->Stream_1;
    assert(reader.buffered =~= Seq::<u8>::empty());
    assert(reader == fresh_reader(reader.encoding, limit, response.frame_timeout));
    law_cap_decides(reader.encoding, limit, response.frame_timeout, frames);
}

/// A body that has arrived is read if and only if its bytes are within the cap.
pub proof fn law_arrived_body_is_read_within_cap<B>(
    response: ResponseView<B>,
    data: Seq<u8>,
    limit: usize,
)
    requires
        response.body == BodyView::<B>::Buffered(data),
    ensures
        data.len() > limit ==> response.read(limit) == Err::<ReadView<B>, ErrorView>(
            ErrorView::BodyTooLarge { limit, seen: limit },
        ),
        data.len() <= limit ==> match decoded(
            headers::first_text(response.headers, "content-encoding"@),
            data,
        ) {
            Ok(bytes) => response.read(limit) == Ok::<ReadView<B>, ErrorView>(
                ReadView::Complete(bytes),
            ),
            Err(error) => response.read(limit) == Err::<ReadView<B>, ErrorView>(error),
        },
{
}

/// A frame is buffered whole, behind what was buffered, if both together are
/// within the cap, and else the reading ends and tells the cap and how much was
/// buffered. Other frames change nothing, the end gives what the bytes decode
/// to, and a failure is told.
pub proof fn law_frame_is_buffered_or_told(reader: ReaderView, data: Seq<u8>, error: ErrorView)
    requires
        reader.buffered.len() <= reader.limit,
    ensures
        reader.buffered.len() + data.len() <= reader.limit ==> (reader.after(
            EventView::Data(data),
        ) matches StepView::Continue(next) && next.buffered == reader.buffered + data && next.limit
            == reader.limit && next.encoding == reader.encoding && next.frame_timeout
            == reader.frame_timeout),
        reader.buffered.len() + data.len() > reader.limit ==> (reader.after(
            EventView::Data(data),
        ) matches StepView::Finished(Err(ErrorView::BodyTooLarge { limit, seen })) && limit
            == reader.limit && seen == reader.buffered.len()),
        reader.after(EventView::Other) == StepView::Continue(reader),
        reader.after(EventView::End) == StepView::Finished(
            decoded(reader.encoding, reader.buffered),
        ),
        reader.after(EventView::Failed(error)) == StepView::Finished(Err(error)),
{
}

/// What arrives is taken as it is: the bytes of a frame whole, the end as the
/// end, a wait that was too long as a timeout, an HTTP/3 failure as its error,
/// and a failure of TCP as a cancellation where its message, in lower case, says
/// so, and else as an unreachable upstream, with its whole message.
pub proof fn law_events_say_what_arrived(data: bytes::Bytes, message: String, error: Error)
    ensures
        BodyEvent::Data(data)@ == EventView::Data(body::contents(data)),
        BodyEvent::Other@ is Other,
        BodyEvent::End@ is End,
        BodyEvent::TimedOut@ == EventView::Failed(ErrorView::Timeout),
        BodyEvent::Http3Failed(error)@ == EventView::Failed(error@),
        ({
            let lowered = text::lowercased(message@);
            let told = BodyEvent::Failed(message)@;
            &&& text::occurs_in(lowered, "canceled"@) ==> told == EventView::Failed(
                ErrorView::Cancelled(message@),
            )
            &&& text::occurs_in(lowered, "cancelled"@) ==> told == EventView::Failed(
                ErrorView::Cancelled(message@),
            )
            &&& !text::occurs_in(lowered, "canceled"@) && !text::occurs_in(lowered, "cancelled"@)
                ==> told == EventView::Failed(ErrorView::Unreachable(message@))
        }),
{
}

/// A body without a `Content-Encoding`, or with one that is empty or `identity`,
/// is kept byte for byte.
pub proof fn law_plain_body_is_kept(
    before: Seq<char>,
    word: Seq<char>,
    after: Seq<char>,
    data: Seq<u8>,
)
    requires
        text::all_in(before, CharClass::Whitespace),
        text::all_in(after, CharClass::Whitespace),
        text::has_firm_ends(word, CharClass::Whitespace),
        text::ascii_lowercased(word) == "identity"@ || word.len() == 0,
    ensures
        decoded(None, data) == Ok::<Seq<u8>, ErrorView>(data),
        decoded(Some(before + word + after), data) == Ok::<Seq<u8>, ErrorView>(data),
{
    reveal_strlit("");
    text::law_trim_takes_what_stands_around(before, word, after, CharClass::Whitespace);
    if word.len() == 0 {
        assert(text::ascii_lowercased(word) =~= ""@);
    }
}

/// A body with a `Content-Encoding` decodes to exactly the bytes that the decoder
/// of that name gives, and fails with the decoder's reason if it gives none. The
/// case of the name and whitespace around it do not matter.
pub proof fn law_body_decodes_to_what_the_decoder_gives(
    before: Seq<char>,
    word: Seq<char>,
    after: Seq<char>,
    data: Seq<u8>,
)
    requires
        text::all_in(before, CharClass::Whitespace),
        text::all_in(after, CharClass::Whitespace),
        text::has_firm_ends(word, CharClass::Whitespace),
    ensures
        ({
            let name = text::ascii_lowercased(word);
            let result = decoded(Some(before + word + after), data);
            &&& name == "gzip"@ || name == "x-gzip"@ ==> match gzip_decoded(data) {
                Ok(bytes) => result == Ok::<Seq<u8>, ErrorView>(bytes),
                Err(detail) => result == Err::<Seq<u8>, ErrorView>(
                    ErrorView::Decode("gzip decode: "@ + detail),
                ),
            }
            &&& name == "deflate"@ ==> match zlib_decoded(data) {
                Ok(bytes) => result == Ok::<Seq<u8>, ErrorView>(bytes),
                Err(detail) => result == Err::<Seq<u8>, ErrorView>(
                    ErrorView::Decode("deflate decode: "@ + detail),
                ),
            }
            &&& name == "br"@ ==> match brotli_decoded(data) {
                Ok(bytes) => result == Ok::<Seq<u8>, ErrorView>(bytes),
                Err(detail) => result == Err::<Seq<u8>, ErrorView>(
                    ErrorView::Decode("brotli decode: "@ + detail),
                ),
            }
        }),
{
    reveal_strlit("");
    reveal_strlit("identity");
    reveal_strlit("gzip");
    reveal_strlit("x-gzip");
    reveal_strlit("deflate");
    reveal_strlit("br");
    text::law_trim_takes_what_stands_around(before, word, after, CharClass::Whitespace);
    let name = text::ascii_lowercased(word);
    assert(name.len() == word.len());
    assert("gzip"@.len() == 4 && "x-gzip"@.len() == 6 && "deflate"@.len() == 7 && "br"@.len() == 2
        && "identity"@.len() == 8);
}

/// A body with any other `Content-Encoding` is refused, and the error names it in
/// lower case.
pub proof fn law_other_encodings_are_refused(
    before: Seq<char>,
    word: Seq<char>,
    after: Seq<char>,
    data: Seq<u8>,
)
    requires
        text::all_in(before, CharClass::Whitespace),
        text::all_in(after, CharClass::Whitespace),
        text::has_firm_ends(word, CharClass::Whitespace),
        word.len() > 0,
        text::ascii_lowercased(word) != "identity"@,
        text::ascii_lowercased(word) != "gzip"@,
        text::ascii_lowercased(word) != "x-gzip"@,
        text::ascii_lowercased(word) != "deflate"@,
        text::ascii_lowercased(word) != "br"@,
    ensures
        decoded(Some(before + word + after), data) == Err::<Seq<u8>, ErrorView>(
            ErrorView::Decode(
                "unsupported Content-Encoding `"@ + text::ascii_lowercased(word) + "`"@,
            ),
        ),
{
    reveal_strlit("");
    text::law_trim_takes_what_stands_around(before, word, after, CharClass::Whitespace);
    assert(text::ascii_lowercased(word).len() == word.len());
}

/// A `Content-Length` is read as the number that its first value writes, with
/// whatever spaces and tabs around it; one that writes no number, and a header
/// that is not there, give none.
pub proof fn law_content_length_reads_back<B>(
    response: ResponseView<B>,
    before: Seq<char>,
    number: Seq<char>,
    after: Seq<char>,
    n: u64,
)
    requires
        forall|i: int| 0 <= i < before.len() ==> (before[i] == '\t' || #[trigger] before[i] == ' '),
        forall|i: int| 0 <= i < number.len() ==> '!' <= #[trigger] number[i] <= '~',
        forall|i: int| 0 <= i < after.len() ==> (after[i] == '\t' || #[trigger] after[i] == ' '),
    ensures
        response.headers.contains_key("content-length"@)
            && response.headers["content-length"@].len() > 0
            && response.headers["content-length"@][0] == vstd::utf8::encode_utf8(
            before + number + after,
        ) ==> response.content_length() == text::parsed_unsigned(
            number,
            0xffff_ffff_ffff_ffff,
        ) && (number == text::decimal(n as nat) ==> response.content_length() == Some(n as nat)),
        !response.headers.contains_key("content-length"@) ==> response.content_length() is None,
{
    text::law_decimal_round_trip(n as nat, u64::MAX as nat);
    let written = before + number + after;
    assert forall|i: int| 0 <= i < written.len() implies (written[i] == '\t' || ' '
        <= #[trigger] written[i] <= '~') by {
        if i < before.len() {
            assert(written[i] == before[i]);
        } else if i < before.len() + number.len() {
            assert(written[i] == number[i - before.len()]);
        } else {
            assert(written[i] == after[i - before.len() - number.len()]);
        }
    }
    headers::lemma_visible_text(written);
    if number.len() > 0 {
        assert('!' <= number[0] <= '~' && '!' <= number[number.len() - 1] <= '~');
    }
    assert forall|i: int| 0 <= i < before.len() implies CharClass::Whitespace.has(
        #[trigger] before[i],
    ) by {
        assert(before[i] == '\t' || before[i] == ' ');
    }
    assert forall|i: int| 0 <= i < after.len() implies CharClass::Whitespace.has(
        #[trigger] after[i],
    ) by {
        assert(after[i] == '\t' || after[i] == ' ');
    }
    text::law_trim_takes_what_stands_around(before, number, after, CharClass::Whitespace);
}

/// What is said of decoded bytes, bodies, steps and results is what they hold.
pub proof fn law_views_of_bodies<B>(
    decoded: Vec<u8>,
    detail: String,
    data: bytes::Bytes,
    error: Error,
    stream: B,
    reader: BodyReader,
)
    ensures
        decoding_view(Ok(decoded)) == Ok::<Seq<u8>, Seq<char>>(decoded@),
        decoding_view(Err(detail)) == Err::<Seq<u8>, Seq<char>>(detail@),
        bytes_outcome(Ok(data)) == Ok::<Seq<u8>, ErrorView>(body::contents(data)),
        bytes_outcome(Err(error)) == Err::<Seq<u8>, ErrorView>(error@),
        ResponseBody::Streamed(stream)@ == BodyView::Streamed(stream),
        ResponseBody::<B>::Buffered(data)@ == BodyView::<B>::Buffered(body::contents(data)),
        BodyRead::Stream(stream, reader)@ == ReadView::Stream(stream, reader@),
        BodyRead::<B>::Complete(data)@ == ReadView::<B>::Complete(body::contents(data)),
        BodyStep::Continue(reader)@ == StepView::Continue(reader@),
        BodyStep::Finished(Ok(data))@ == StepView::Finished(Ok(body::contents(data))),
        BodyStep::Finished(Err(error))@ == StepView::Finished(Err(error@)),
{
}

} // verus!
