//! [`RequestBuilder`]: the settings of a single request, and what is decided
//! while it is sent.

use vstd::prelude::*;
use vstd::string::StringExecFns;

use crate::body;
use crate::body::{PayloadView, RequestPayload};
use crate::client::{BuilderView, Client, ClientView};
use crate::error;
use crate::error::{Error, ErrorView, Result};
use crate::headers;
use crate::method::Method;
use crate::origin::Origin;
use crate::text;
use crate::time;
use crate::time::Duration;
use crate::uri;
use crate::uri::{Uri, UriView};

verus! {

/// The settings of a request. What is wrong with them is reported when the
/// request is sent; until then no method fails. `B` is the type of bodies that
/// are produced while they are sent.
#[derive(Debug)]
pub struct RequestBuilder<B> {
    client: Client,
    method: Method,
    uri: Result<Uri>,
    headers: http::HeaderMap,
    body: RequestPayload<B>,
    timeout: Option<Duration>,
    deferred_error: Option<Error>,
}

/// What a [`RequestBuilder`] is set to.
pub struct RequestView<B> {
    /// The client.
    pub client: ClientView,
    /// Name of the method.
    pub method: Seq<char>,
    /// Where the request goes, or why it cannot.
    pub uri: std::result::Result<UriView, ErrorView>,
    /// The headers of this request alone.
    pub headers: headers::Fields,
    /// The body.
    pub body: PayloadView<B>,
    /// The timeout of this request alone, in nanoseconds.
    pub timeout: Option<nat>,
    /// The first thing that was wrong with a header or the body.
    pub deferred_error: Option<ErrorView>,
}

impl<B> View for RequestBuilder<B> {
    type V = RequestView<B>;

    closed spec fn view(&self) -> RequestView<B> {
        RequestView {
            client: self.client@,
            method: self.method.name(),
            uri: error::outcome(self.uri),
            headers: headers::map_fields(self.headers),
            body: self.body@,
            timeout: time::optional_span(self.timeout),
            deferred_error: error::optional_error(self.deferred_error),
        }
    }
}

impl<B> RequestView<B> {
    /// A request without headers and body.
    pub open spec fn new(
        client: ClientView,
        method: Seq<char>,
        uri: std::result::Result<UriView, ErrorView>,
    ) -> RequestView<B> {
        RequestView {
            client,
            method,
            uri,
            headers: headers::no_fields(),
            body: PayloadView::Empty,
            timeout: None,
            deferred_error: None,
        }
    }

    /// With `error` reported, unless one is already.
    pub open spec fn refused(self, error: ErrorView) -> RequestView<B> {
        match self.deferred_error {
            Some(_) => self,
            None => RequestView { deferred_error: Some(error), ..self },
        }
    }

    /// With one more header; `None` is a name or a value that is not valid.
    pub open spec fn with_header(
        self,
        name: Option<Seq<char>>,
        value: Option<Seq<u8>>,
    ) -> RequestView<B> {
        match (name, value) {
            (None, _) => self.refused(ErrorView::InvalidHeader("header name rejected"@)),
            (Some(name), None) => self.refused(
                ErrorView::InvalidHeader("header `"@ + name + "` value rejected"@),
            ),
            (Some(name), Some(value)) => RequestView {
                headers: headers::appended(self.headers, name, value),
                ..self
            },
        }
    }

    /// With a JSON body, written or not.
    pub open spec fn with_json(
        self,
        encoded: std::result::Result<Seq<u8>, Seq<char>>,
    ) -> RequestView<B> {
        match encoded {
            Ok(bytes) => RequestView {
                body: PayloadView::Replayable(bytes),
                headers: if self.headers.contains_key("content-type"@) {
                    self.headers
                } else {
                    headers::replaced(
                        self.headers,
                        "content-type"@,
                        vstd::utf8::encode_utf8("application/json"@),
                    )
                },
                ..self
            },
            Err(detail) => self.refused(ErrorView::SerializeJson(detail)),
        }
    }

    /// Whether one more header fits, whatever its name is.
    pub open spec fn has_room(self) -> bool {
        headers::names_within(self.headers, headers::MAX_HEADER_NAMES as int)
    }
}

/// The views of a JSON text or of why there is none.
pub open spec fn encoded_view(
    encoded: std::result::Result<Vec<u8>, String>,
) -> std::result::Result<Seq<u8>, Seq<char>> {
    match encoded {
        Ok(bytes) => Ok(bytes@),
        Err(detail) => Err(detail@),
    }
}

impl Client {
    /// Starts a GET request.
    pub fn get<B>(&self, url: &str) -> (r: RequestBuilder<B>)
        ensures
            r@ == RequestView::<B>::new(
                self@,
                "GET"@,
                uri::accepted(url@, uri::parsed_parts(url@)),
            ),
    {
        self.request(Method::Get, url)
    }

    /// Starts a POST request.
    pub fn post<B>(&self, url: &str) -> (r: RequestBuilder<B>)
        ensures
            r@ == RequestView::<B>::new(
                self@,
                "POST"@,
                uri::accepted(url@, uri::parsed_parts(url@)),
            ),
    {
        self.request(Method::Post, url)
    }

    /// Starts a PUT request.
    pub fn put<B>(&self, url: &str) -> (r: RequestBuilder<B>)
        ensures
            r@ == RequestView::<B>::new(
                self@,
                "PUT"@,
                uri::accepted(url@, uri::parsed_parts(url@)),
            ),
    {
        self.request(Method::Put, url)
    }

    /// Starts a PATCH request.
    pub fn patch<B>(&self, url: &str) -> (r: RequestBuilder<B>)
        ensures
            r@ == RequestView::<B>::new(
                self@,
                "PATCH"@,
                uri::accepted(url@, uri::parsed_parts(url@)),
            ),
    {
        self.request(Method::Patch, url)
    }

    /// Starts a DELETE request.
    pub fn delete<B>(&self, url: &str) -> (r: RequestBuilder<B>)
        ensures
            r@ == RequestView::<B>::new(
                self@,
                "DELETE"@,
                uri::accepted(url@, uri::parsed_parts(url@)),
            ),
    {
        self.request(Method::Delete, url)
    }

    /// Starts a HEAD request.
    pub fn head<B>(&self, url: &str) -> (r: RequestBuilder<B>)
        ensures
            r@ == RequestView::<B>::new(
                self@,
                "HEAD"@,
                uri::accepted(url@, uri::parsed_parts(url@)),
            ),
    {
        self.request(Method::Head, url)
    }

    /// Starts a request with a given method.
    pub fn request<B>(&self, method: Method, url: &str) -> (r: RequestBuilder<B>)
        ensures
            r@ == RequestView::<B>::new(
                self@,
                method.name(),
                uri::accepted(url@, uri::parsed_parts(url@)),
            ),
    {
        RequestBuilder::new(self.clone(), method, uri::parse(url))
    }
}

impl<B> RequestBuilder<B> {
    /// A request without headers and body to a URL that was accepted or
    /// refused.
    pub fn new(client: Client, method: Method, uri: Result<Uri>) -> (r: RequestBuilder<B>)
        ensures
            r@ == RequestView::<B>::new(client@, method.name(), error::outcome(uri)),
    {
        RequestBuilder {
            client,
            method,
            uri,
            headers: headers::new_map(),
            body: RequestPayload::Empty,
            timeout: None,
            deferred_error: None,
        }
    }

    /// Whether one more header fits, whatever its name is.
    pub fn has_room(&self) -> (r: bool)
        ensures
            r == self@.has_room(),
    {
        headers::name_count(&self.headers) <= headers::MAX_HEADER_NAMES
    }

    /// Remembers an error, unless there is one already.
    fn refuse(self, error: Error) -> (r: RequestBuilder<B>)
        ensures
            r@ == self@.refused(error@),
    {
        match self.deferred_error {
            Some(_) => self,
            None => RequestBuilder { deferred_error: Some(error), ..self },
        }
    }

    /// Adds a header.
    pub fn header(self, name: &str, value: &str) -> (r: RequestBuilder<B>)
        requires
            headers::is_header_name(name@) && headers::is_header_value(value@)
                ==> self@.has_room(),
        ensures
            r@ == self@.with_header(headers::parsed_name(name@), headers::parsed_value(value@)),
    {
        self.header_value(headers::parse_name(name), headers::parse_value(value))
    }

    /// Adds a header. A request whose headers take no more is given back as it
    /// is; one that has room never is.
    pub fn try_header(self, name: &str, value: &str) -> (r: std::result::Result<
        RequestBuilder<B>,
        RequestBuilder<B>,
    >)
        ensures
            match r {
                Ok(builder) => builder@ == self@.with_header(
                    headers::parsed_name(name@),
                    headers::parsed_value(value@),
                ),
                Err(builder) => builder@ == self@ && !self@.has_room() && headers::is_header_name(
                    name@,
                ) && headers::is_header_value(value@),
            },
    {
        self.try_header_value(headers::parse_name(name), headers::parse_value(value))
    }

    /// Adds a header whose name and value were parsed; `None` is one that is
    /// not valid.
    pub fn header_value(
        self,
        name: Option<http::HeaderName>,
        value: Option<http::HeaderValue>,
    ) -> (r: RequestBuilder<B>)
        requires
            name is Some && value is Some ==> self@.has_room(),
        ensures
            r@ == self@.with_header(headers::optional_name(name), headers::optional_value(value)),
    {
        match self.try_header_value(name, value) {
            Ok(builder) => builder,
            Err(_) => vstd::pervasive::unreached(),
        }
    }

    /// Adds a header whose name and value were parsed; `None` is one that is
    /// not valid. A request whose headers take no more is given back as it is;
    /// one that has room never is.
    pub fn try_header_value(
        self,
        name: Option<http::HeaderName>,
        value: Option<http::HeaderValue>,
    ) -> (r: std::result::Result<RequestBuilder<B>, RequestBuilder<B>>)
        ensures
            match r {
                Ok(builder) => builder@ == self@.with_header(
                    headers::optional_name(name),
                    headers::optional_value(value),
                ),
                Err(builder) => builder@ == self@ && !self@.has_room() && name is Some
                    && value is Some,
            },
    {
        let name = match name {
            Some(name) => name,
            None => return Ok(
                self.refuse(Error::InvalidHeader("header name rejected".to_owned())),
            ),
        };
        match value {
            Some(value) => {
                let mut builder = self;
                if headers::try_append(&mut builder.headers, name, value) {
                    Ok(builder)
                } else {
                    Err(builder)
                }
            },
            None => {
                let message = text::join3("header `", headers::name_str(&name), "` value rejected");
                Ok(self.refuse(Error::InvalidHeader(message)))
            },
        }
    }

    /// Adds an `Authorization: Bearer <token>` header.
    pub fn bearer_auth(self, token: &str) -> (r: RequestBuilder<B>)
        requires
            headers::is_header_value("Bearer "@ + token@) ==> self@.has_room(),
        ensures
            r@ == self@.with_header(
                Some("authorization"@),
                headers::parsed_value("Bearer "@ + token@),
            ),
    {
        match self.try_bearer_auth(token) {
            Ok(builder) => builder,
            Err(_) => vstd::pervasive::unreached(),
        }
    }

    /// Adds an `Authorization: Bearer <token>` header. A request whose headers
    /// take no more is given back as it is; one that has room never is.
    pub fn try_bearer_auth(self, token: &str) -> (r: std::result::Result<
        RequestBuilder<B>,
        RequestBuilder<B>,
    >)
        ensures
            match r {
                Ok(builder) => builder@ == self@.with_header(
                    Some("authorization"@),
                    headers::parsed_value("Bearer "@ + token@),
                ),
                Err(builder) => builder@ == self@ && !self@.has_room() && headers::is_header_value(
                    "Bearer "@ + token@,
                ),
            },
    {
        let value = "Bearer ".to_owned().concat(token);
        self.try_header_value(
            Some(headers::authorization_name()),
            headers::parse_value(value.as_str()),
        )
    }

    /// Sets the timeout of this request, in place of that of the client.
    pub fn timeout(self, timeout: Duration) -> (r: RequestBuilder<B>)
        ensures
            r@ == (RequestView { timeout: Some(timeout@), ..self@ }),
    {
        RequestBuilder { timeout: Some(timeout), ..self }
    }

    /// Sets the body to the given bytes.
    pub fn body(self, bytes: bytes::Bytes) -> (r: RequestBuilder<B>)
        ensures
            r@ == (RequestView {
                body: PayloadView::Replayable(body::contents(bytes)),
                ..self@
            }),
    {
        RequestBuilder { body: RequestPayload::Replayable(bytes), ..self }
    }

    /// Sets the body to one that is produced while it is sent. Such a request
    /// goes over TCP: HTTP/3 is for bodies that can be sent again.
    pub fn body_streaming(self, body: B) -> (r: RequestBuilder<B>)
        ensures
            r@ == (RequestView { body: PayloadView::Streaming(body), ..self@ }),
    {
        RequestBuilder { body: RequestPayload::Streaming(body), ..self }
    }

    /// Sets the body to a JSON text, and the `Content-Type` to
    /// `application/json` unless there is one. `encoded` is the text, or why
    /// the value could not be written.
    pub fn json(self, encoded: std::result::Result<Vec<u8>, String>) -> (r: RequestBuilder<B>)
        requires
            encoded is Ok && !self@.headers.contains_key("content-type"@) ==> self@.has_room(),
        ensures
            r@ == self@.with_json(encoded_view(encoded)),
    {
        match self.try_json(encoded) {
            Ok(builder) => builder,
            Err(_) => vstd::pervasive::unreached(),
        }
    }

    /// Sets the body to a JSON text, and the `Content-Type` to
    /// `application/json` unless there is one. A request that has none and whose
    /// headers take no more is given back as it is; one that has room never is.
    pub fn try_json(self, encoded: std::result::Result<Vec<u8>, String>) -> (r: std::result::Result<
        RequestBuilder<B>,
        RequestBuilder<B>,
    >)
        ensures
            match r {
                Ok(builder) => builder@ == self@.with_json(encoded_view(encoded)),
                Err(builder) => builder@ == self@ && !self@.has_room() && encoded is Ok
                    && !self@.headers.contains_key("content-type"@),
            },
    {
        let bytes = match encoded {
            Ok(bytes) => bytes,
            Err(detail) => return Ok(self.refuse(Error::SerializeJson(detail))),
        };
        let mut builder = self;
        if !headers::has_content_type(&builder.headers) {
            if !headers::try_insert(
                &mut builder.headers,
                headers::content_type_name(),
                headers::json_value(),
            ) {
                return Err(builder);
            }
        }
        Ok(RequestBuilder { body: RequestPayload::Replayable(body::from_vec(bytes)), ..builder })
    }
}

/// The head of a request.
#[derive(Debug)]
pub struct RequestHead {
    /// Method.
    pub method: Method,
    /// Where the request goes.
    pub uri: Uri,
    /// The headers of the client and of the request together.
    pub headers: http::HeaderMap,
}

/// What a [`RequestHead`] says.
pub struct HeadView {
    /// Name of the method.
    pub method: Seq<char>,
    /// Where the request goes.
    pub uri: UriView,
    /// Headers.
    pub headers: headers::Fields,
}

impl View for RequestHead {
    type V = HeadView;

    open spec fn view(&self) -> HeadView {
        HeadView {
            method: self.method.name(),
            uri: self.uri@,
            headers: headers::map_fields(self.headers),
        }
    }
}

/// A request that is being sent.
#[derive(Debug)]
pub struct Sending<B> {
    /// Head.
    pub head: RequestHead,
    /// Body.
    pub body: RequestPayload<B>,
    /// How long the request may take over each transport.
    pub timeout: Option<Duration>,
    /// Whether HTTP/3 is to be tried: the origin, and the body for it.
    pub http3: Option<(Origin, Option<bytes::Bytes>)>,
    /// For how long HTTP/3 is not tried at an origin where it failed.
    pub negative_for: Duration,
}

/// What a [`Sending`] says.
pub struct SendingView<B> {
    /// Head.
    pub head: HeadView,
    /// Body.
    pub body: PayloadView<B>,
    /// How long the request may take over each transport, in nanoseconds.
    pub timeout: Option<nat>,
    /// Whether HTTP/3 is to be tried: the origin, and the body for it.
    pub http3: Option<((Seq<char>, u16), Option<Seq<u8>>)>,
    /// For how long HTTP/3 is not tried after a failure, in nanoseconds.
    pub negative_for: nat,
}

impl<B> View for Sending<B> {
    type V = SendingView<B>;

    open spec fn view(&self) -> SendingView<B> {
        SendingView {
            head: self.head@,
            body: self.body@,
            timeout: time::optional_span(self.timeout),
            http3: match self.http3 {
                Some((origin, bytes)) => Some((origin@, body::optional_contents(bytes))),
                None => None,
            },
            negative_for: self.negative_for@,
        }
    }
}

impl<B> RequestView<B> {
    /// Whether HTTP/3 is to be tried: where the client has it enabled, the URL
    /// has an origin, and the body can be sent again.
    pub open spec fn http3(self) -> Option<((Seq<char>, u16), Option<Seq<u8>>)> {
        match (self.uri, self.body.replayable()) {
            (Ok(uri), Some(bytes)) => match uri::origin_of(uri.parts) {
                Some(origin) => if self.client.http3_enabled {
                    Some((origin, bytes))
                } else {
                    None
                },
                None => None,
            },
            _ => None,
        }
    }

    /// What sending starts with, or why the request cannot be sent.
    pub open spec fn sent(self) -> std::result::Result<SendingView<B>, ErrorView> {
        match (self.deferred_error, self.uri) {
            (Some(error), _) => Err(error),
            (None, Err(error)) => Err(error),
            (None, Ok(uri)) => Ok(
                SendingView {
                    head: HeadView {
                        method: self.method,
                        uri,
                        headers: headers::overridden(self.client.default_headers, self.headers),
                    },
                    body: self.body,
                    timeout: match self.timeout {
                        Some(timeout) => Some(timeout),
                        None => self.client.default_timeout,
                    },
                    http3: self.http3(),
                    negative_for: self.client.http3_negative_cache_duration,
                },
            ),
        }
    }

    /// Whether the headers of the client and of the request fit in one map,
    /// whatever their names are.
    pub open spec fn fits(self) -> bool {
        headers::names_within(
            headers::overridden(self.client.default_headers, self.headers),
            headers::MAX_HEADER_NAMES as int,
        )
    }
}

impl<B> RequestBuilder<B> {
    /// Starts sending the request, unless something is wrong with it. `None` is
    /// that nothing is, but that one map does not take the headers of the client
    /// and of the request. Headers that fit are always taken.
    pub fn try_send(self) -> (r: Option<Result<Sending<B>>>)
        ensures
            match r {
                Some(sending) => error::outcome(sending) == self@.sent(),
                None => self@.sent() is Ok && !self@.fits(),
            },
    {
        if let Some(error) = self.deferred_error {
            return Some(Err(error));
        }
        let uri = match self.uri {
            Ok(uri) => uri,
            Err(error) => return Some(Err(error)),
        };
        let merged = match headers::merge(self.client.default_headers(), &self.headers) {
            Some(merged) => merged,
            None => return None,
        };
        let http3 = match (
            self.client.http3_enabled(),
            Origin::from_uri(&uri),
            self.body.replayable_for_h3(),
        ) {
            (true, Some(origin), Some(bytes)) => Some((origin, bytes)),
            _ => None,
        };
        let timeout = match self.timeout {
            Some(timeout) => Some(timeout),
            None => self.client.default_timeout(),
        };
        Some(
            Ok(
                Sending {
                    head: RequestHead { method: self.method, uri, headers: merged },
                    body: self.body,
                    timeout,
                    http3,
                    negative_for: self.client.http3_negative_cache_duration(),
                },
            ),
        )
    }

    /// Starts sending the request, unless something is wrong with it.
    pub fn send(self) -> (r: Result<Sending<B>>)
        requires
            self@.deferred_error is None && self@.uri is Ok ==> self@.fits(),
        ensures
            error::outcome(r) == self@.sent(),
    {
        match self.try_send() {
            Some(sending) => sending,
            None => vstd::pervasive::unreached(),
        }
    }
}

/// What is wrong first is what is reported: once something is, sending fails
/// with it, whatever else is set.
pub proof fn law_first_error_is_reported<B>(
    request: RequestView<B>,
    error: ErrorView,
    next: ErrorView,
    name: Option<Seq<char>>,
    value: Option<Seq<u8>>,
    encoded: std::result::Result<Seq<u8>, Seq<char>>,
)
    requires
        request.deferred_error == Some(error),
    ensures
        request.sent() == Err::<SendingView<B>, ErrorView>(error),
        request.with_header(name, value).deferred_error == Some(error),
        request.with_json(encoded).deferred_error == Some(error),
        request.refused(next).deferred_error == Some(error),
{
}

/// A header that is not valid, or a body that cannot be written, makes sending
/// fail, and the request is sent with nothing of it.
pub proof fn law_invalid_parts_are_reported<B>(
    request: RequestView<B>,
    name: Option<Seq<char>>,
    value: Option<Seq<u8>>,
    detail: Seq<char>,
)
    requires
        request.deferred_error is None,
    ensures
        name is None || value is None ==> request.with_header(name, value).sent() is Err,
        name is Some && value is Some ==> request.with_header(name, value).deferred_error is None,
        request.with_json(Err(detail)).sent() == Err::<SendingView<B>, ErrorView>(
            ErrorView::SerializeJson(detail),
        ),
{
}

/// A header can have several values: they are sent in the order in which they
/// were added.
pub proof fn law_header_values_keep_their_order<B>(
    request: RequestView<B>,
    name: Seq<char>,
    first: Seq<u8>,
    second: Seq<u8>,
)
    ensures
        headers::values_of(
            request.with_header(Some(name), Some(first)).with_header(
                Some(name),
                Some(second),
            ).headers,
            name,
        ) == headers::values_of(request.headers, name).push(first).push(second),
{
}

/// HTTP/3 is tried only where the client has it enabled, the scheme is `https`
/// and the body can be sent again.
pub proof fn law_http3_needs_https_and_replayable_body<B>(request: RequestView<B>)
    requires
        request.sent() is Ok,
    ensures
        request.sent()->Ok_0.http3 is Some <==> {
            &&& request.client.http3_enabled
            &&& !(request.body is Streaming)
            &&& request.uri->Ok_0.parts.scheme == Some("https"@)
            &&& request.uri->Ok_0.parts.host is Some
        },
        request.sent()->Ok_0.http3 matches Some((origin, body)) ==> Some(body)
            == request.body.replayable() && Some(origin.0) == request.uri->Ok_0.parts.host,
{
}

/// The timeout of a request goes before that of the client, which is for
/// requests without one.
pub proof fn law_own_timeout_goes_first<B>(request: RequestView<B>)
    requires
        request.sent() is Ok,
    ensures
        request.timeout is Some ==> request.sent()->Ok_0.timeout == request.timeout,
        request.timeout is None ==> request.sent()->Ok_0.timeout
            == request.client.default_timeout,
{
}

/// A JSON body is sent as `application/json`, unless the request says otherwise;
/// then what it says stays.
pub proof fn law_json_content_type<B>(request: RequestView<B>, bytes: Seq<u8>)
    ensures
        !request.headers.contains_key("content-type"@) ==> headers::values_of(
            request.with_json(Ok(bytes)).headers,
            "content-type"@,
        ) == seq![vstd::utf8::encode_utf8("application/json"@)],
        request.headers.contains_key("content-type"@) ==> request.with_json(Ok(bytes)).headers
            == request.headers,
        request.with_json(Ok(bytes)).body == PayloadView::<B>::Replayable(bytes),
{
}

/// The `User-Agent` of the client is sent unless the request has its own.
pub proof fn law_user_agent_is_a_default<B>(
    builder: BuilderView,
    agent: Seq<u8>,
    request: RequestView<B>,
)
    requires
        builder.user_agent == Some(agent),
        request.client == builder.client(),
        request.sent() is Ok,
    ensures
        headers::values_of(request.sent()->Ok_0.head.headers, "user-agent"@) == (
        if request.headers.contains_key("user-agent"@) {
            headers::values_of(request.headers, "user-agent"@)
        } else {
            seq![agent]
        }),
{
}

/// What is sent is what was set: the method, the URL and the body of the
/// request, and for each name the values of the request, or else those of the
/// client.
pub proof fn law_sent_request_is_what_was_set<B>(request: RequestView<B>, name: Seq<char>)
    requires
        request.sent() is Ok,
    ensures
        ({
            let sending = request.sent()->Ok_0;
            let sent = sending.head.headers;
            &&& sending.head.method == request.method
            &&& Ok::<UriView, ErrorView>(sending.head.uri) == request.uri
            &&& sending.body == request.body
            &&& sending.negative_for == request.client.http3_negative_cache_duration
            &&& request.headers.contains_key(name) ==> sent.contains_key(name) && sent[name]
                == request.headers[name]
            &&& !request.headers.contains_key(name) && request.client.default_headers.contains_key(
                name,
            ) ==> sent.contains_key(name) && sent[name] == request.client.default_headers[name]
            &&& !request.headers.contains_key(name)
                && !request.client.default_headers.contains_key(name) ==> !sent.contains_key(name)
        }),
{
}

/// A request can be sent if and only if its URL was accepted and nothing else is
/// wrong with it.
pub proof fn law_sending_succeeds_without_errors<B>(request: RequestView<B>)
    ensures
        request.sent() is Ok <==> request.uri is Ok && request.deferred_error is None,
        request.deferred_error is None && request.uri is Err ==> request.sent()->Err_0
            == request.uri->Err_0,
{
}

/// A request starts with its client, its method and its URL, and nothing else.
pub proof fn law_request_starts_empty<B>(
    client: ClientView,
    method: Seq<char>,
    uri: std::result::Result<UriView, ErrorView>,
    name: Seq<char>,
)
    ensures
        ({
            let request = RequestView::<B>::new(client, method, uri);
            &&& request.client == client && request.method == method && request.uri == uri
            &&& request.body is Empty && request.timeout is None
            &&& request.deferred_error is None && !request.headers.contains_key(name)
        }),
{
}

/// Adding a header adds its value behind those of its name, and changes no other
/// header and nothing else. A header that is refused adds nothing.
pub proof fn law_header_is_added<B>(
    request: RequestView<B>,
    name: Seq<char>,
    value: Seq<u8>,
    other: Seq<char>,
)
    ensures
        ({
            let added = request.with_header(Some(name), Some(value));
            &&& added.headers.contains_key(name) && added.headers[name].last() == value
            &&& !request.headers.contains_key(name) ==> added.headers[name] == seq![value]
            &&& request.headers.contains_key(name) ==> added.headers[name].drop_last()
                == request.headers[name]
            &&& other != name ==> added.headers.contains_key(other)
                == request.headers.contains_key(other)
            &&& other != name && request.headers.contains_key(other) ==> added.headers[other]
                == request.headers[other]
            &&& added.client == request.client && added.method == request.method
            &&& added.uri == request.uri && added.body == request.body
            &&& added.timeout == request.timeout
            &&& added.deferred_error == request.deferred_error
        }),
        request.with_header(None, Some(value)).headers == request.headers,
        request.with_header(Some(name), None).headers == request.headers,
{
    let added = request.with_header(Some(name), Some(value));
    if request.headers.contains_key(name) {
        assert(added.headers[name].drop_last() =~= request.headers[name]);
    }
}

/// A JSON body changes the body and the `Content-Type` and nothing else, and one
/// that cannot be written changes neither.
pub proof fn law_json_changes_body_and_type_alone<B>(
    request: RequestView<B>,
    bytes: Seq<u8>,
    detail: Seq<char>,
    other: Seq<char>,
)
    ensures
        ({
            let set = request.with_json(Ok(bytes));
            &&& other != "content-type"@ ==> set.headers.contains_key(other)
                == request.headers.contains_key(other)
            &&& other != "content-type"@ && request.headers.contains_key(other)
                ==> set.headers[other] == request.headers[other]
            &&& set.client == request.client && set.method == request.method
            &&& set.uri == request.uri && set.timeout == request.timeout
            &&& set.deferred_error == request.deferred_error
        }),
        request.with_json(Err(detail)).headers == request.headers,
        request.with_json(Err(detail)).body == request.body,
{
}

/// Where HTTP/3 is tried, it is at the host of the URL and the port that is
/// written out, or else 443, and with the bytes of the body, if there is one.
pub proof fn law_http3_goes_to_the_origin<B>(request: RequestView<B>)
    requires
        request.sent() is Ok,
        request.sent()->Ok_0.http3 is Some,
    ensures
        ({
            let (origin, body) = request.sent()->Ok_0.http3->0;
            let parts = request.uri->Ok_0.parts;
            &&& parts.host == Some(origin.0)
            &&& parts.port matches Some(port) ==> origin.1 == port
            &&& parts.port is None ==> origin.1 == 443
            &&& request.body is Empty ==> body is None
            &&& request.body matches PayloadView::Replayable(bytes) ==> body == Some(bytes)
        }),
{
}

/// A header or a body that is refused changes nothing of the request but its
/// error, and that only if it has none yet. The error names the header.
pub proof fn law_refusal_changes_the_error_alone<B>(
    request: RequestView<B>,
    error: ErrorView,
    name: Seq<char>,
    value: Option<Seq<u8>>,
)
    ensures
        ({
            let refused = request.refused(error);
            &&& refused.client == request.client && refused.method == request.method
            &&& refused.uri == request.uri && refused.headers == request.headers
            &&& refused.body == request.body && refused.timeout == request.timeout
            &&& request.deferred_error is None ==> refused.deferred_error == Some(error)
            &&& request.deferred_error is Some ==> refused == request
        }),
        request.deferred_error is None ==> (request.with_header(
            Some(name),
            None,
        ).deferred_error matches Some(ErrorView::InvalidHeader(message)) && text::occurs_in(
            message,
            name,
        )),
        request.deferred_error is None ==> request.with_header(None, value).deferred_error
            matches Some(ErrorView::InvalidHeader(_)),
{
    text::law_occurring_is_standing_between("header `"@, name, "` value rejected"@);
}

/// What is said of a head, of what is sent and of a JSON text is what they hold.
pub proof fn law_views_of_sending<B>(sending: Sending<B>, encoded: Vec<u8>, detail: String)
    ensures
        sending@.head.method == sending.head.method.name(),
        sending@.head.uri == sending.head.uri@,
        sending@.head.headers == headers::map_fields(sending.head.headers),
        sending@.body == sending.body@,
        sending@.timeout == time::optional_span(sending.timeout),
        sending@.negative_for == sending.negative_for@,
        sending.http3 is None ==> sending@.http3 is None,
        sending.http3 matches Some((origin, bytes)) ==> sending@.http3 == Some(
            (origin@, body::optional_contents(bytes)),
        ),
        encoded_view(Ok(encoded)) == Ok::<Seq<u8>, Seq<char>>(encoded@),
        encoded_view(Err(detail)) == Err::<Seq<u8>, Seq<char>>(detail@),
{
}

} // verus!
