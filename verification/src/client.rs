//! [`Client`] and [`ClientBuilder`]: the settings that requests share.

use std::sync::Arc;

use vstd::prelude::*;

use crate::error;
use crate::error::{Error, ErrorView, Result};
use crate::headers;
use crate::text;
use crate::time;
use crate::time::Duration;

verus! {

/// For how many seconds HTTP/3 is not tried at an origin where it failed,
/// unless a client sets another span.
pub const DEFAULT_NEGATIVE_CACHE_SECS: u64 = 300;

/// A client: the settings that its requests share. Cheap to clone.
#[derive(Debug)]
pub struct Client {
    inner: Arc<ClientInner>,
}

/// The settings of a client.
#[derive(Debug)]
struct ClientInner {
    /// Timeout of requests that set none of their own.
    default_timeout: Option<Duration>,
    /// Headers of every request.
    default_headers: http::HeaderMap,
    /// Maximum number of idle connections per host.
    pool_max_idle_per_host: Option<usize>,
    /// For how long an idle connection is kept.
    pool_idle_timeout: Option<Duration>,
    /// Whether HTTP/3 is tried.
    http3_enabled: bool,
    /// For how long HTTP/3 is not tried at an origin where it failed.
    http3_negative_cache_duration: Duration,
}

/// What a [`Client`] is set to.
pub struct ClientView {
    /// Timeout of requests that set none of their own, in nanoseconds.
    pub default_timeout: Option<nat>,
    /// Headers of every request.
    pub default_headers: headers::Fields,
    /// Maximum number of idle connections per host.
    pub pool_max_idle_per_host: Option<usize>,
    /// For how long an idle connection is kept, in nanoseconds.
    pub pool_idle_timeout: Option<nat>,
    /// Whether HTTP/3 is tried.
    pub http3_enabled: bool,
    /// For how long HTTP/3 is not tried after a failure, in nanoseconds.
    pub http3_negative_cache_duration: nat,
}

impl View for Client {
    type V = ClientView;

    closed spec fn view(&self) -> ClientView {
        ClientView {
            default_timeout: time::optional_span(self.inner.default_timeout),
            default_headers: headers::map_fields(self.inner.default_headers),
            pool_max_idle_per_host: self.inner.pool_max_idle_per_host,
            pool_idle_timeout: time::optional_span(self.inner.pool_idle_timeout),
            http3_enabled: self.inner.http3_enabled,
            http3_negative_cache_duration: self.inner.http3_negative_cache_duration@,
        }
    }
}

impl Clone for Client {
    /// A client with the same settings, shared with this one.
    fn clone(&self) -> (r: Self)
        ensures
            r@ == self@,
    {
        Client { inner: Arc::clone(&self.inner) }
    }
}

impl Client {
    /// A client with default settings.
    pub fn new() -> (r: Result<Client>)
        ensures
            r is Ok,
            r->Ok_0@ == BuilderView::new().client(),
    {
        ClientBuilder::new().build()
    }

    /// Starts building a client.
    pub fn builder() -> (r: ClientBuilder)
        ensures
            r@ == BuilderView::new(),
    {
        ClientBuilder::new()
    }

    /// Timeout of requests that set none of their own.
    pub fn default_timeout(&self) -> (r: Option<Duration>)
        ensures
            time::optional_span(r) == self@.default_timeout,
    {
        self.inner.default_timeout
    }

    /// Headers of every request.
    pub fn default_headers(&self) -> (r: &http::HeaderMap)
        ensures
            headers::map_fields(*r) == self@.default_headers,
    {
        &self.inner.default_headers
    }

    /// Maximum number of idle connections per host.
    pub fn pool_max_idle_per_host(&self) -> (r: Option<usize>)
        ensures
            r == self@.pool_max_idle_per_host,
    {
        self.inner.pool_max_idle_per_host
    }

    /// For how long an idle connection is kept.
    pub fn pool_idle_timeout(&self) -> (r: Option<Duration>)
        ensures
            time::optional_span(r) == self@.pool_idle_timeout,
    {
        self.inner.pool_idle_timeout
    }

    /// Whether HTTP/3 is tried.
    pub fn http3_enabled(&self) -> (r: bool)
        ensures
            r == self@.http3_enabled,
    {
        self.inner.http3_enabled
    }

    /// For how long HTTP/3 is not tried at an origin where it failed.
    pub fn http3_negative_cache_duration(&self) -> (r: Duration)
        ensures
            r@ == self@.http3_negative_cache_duration,
    {
        self.inner.http3_negative_cache_duration
    }
}

/// Builder for [`Client`]. A header that is not valid is reported by
/// [`ClientBuilder::build`].
#[derive(Debug)]
pub struct ClientBuilder {
    timeout: Option<Duration>,
    pool_max_idle_per_host: Option<usize>,
    pool_idle_timeout: Option<Duration>,
    default_headers: http::HeaderMap,
    user_agent: Option<http::HeaderValue>,
    invalid_default_header: Option<Error>,
    http3_enabled: bool,
    http3_negative_cache_duration: Option<Duration>,
}

/// What a [`ClientBuilder`] is set to.
pub struct BuilderView {
    /// Default timeout in nanoseconds.
    pub timeout: Option<nat>,
    /// Maximum number of idle connections per host.
    pub pool_max_idle_per_host: Option<usize>,
    /// For how long an idle connection is kept, in nanoseconds.
    pub pool_idle_timeout: Option<nat>,
    /// Default headers.
    pub default_headers: headers::Fields,
    /// Value of the `User-Agent` header.
    pub user_agent: Option<Seq<u8>>,
    /// The first header that was not valid.
    pub invalid_default_header: Option<ErrorView>,
    /// Whether HTTP/3 is tried.
    pub http3_enabled: bool,
    /// For how long HTTP/3 is not tried after a failure, in nanoseconds.
    pub http3_negative_cache_duration: Option<nat>,
}

impl View for ClientBuilder {
    type V = BuilderView;

    closed spec fn view(&self) -> BuilderView {
        BuilderView {
            timeout: time::optional_span(self.timeout),
            pool_max_idle_per_host: self.pool_max_idle_per_host,
            pool_idle_timeout: time::optional_span(self.pool_idle_timeout),
            default_headers: headers::map_fields(self.default_headers),
            user_agent: headers::optional_value(self.user_agent),
            invalid_default_header: error::optional_error(self.invalid_default_header),
            http3_enabled: self.http3_enabled,
            http3_negative_cache_duration: time::optional_span(self.http3_negative_cache_duration),
        }
    }
}

impl BuilderView {
    /// The default settings.
    pub open spec fn new() -> BuilderView {
        BuilderView {
            timeout: None,
            pool_max_idle_per_host: None,
            pool_idle_timeout: None,
            default_headers: headers::no_fields(),
            user_agent: None,
            invalid_default_header: None,
            http3_enabled: true,
            http3_negative_cache_duration: None,
        }
    }

    /// With `error` reported, unless one is already.
    pub open spec fn refused(self, error: ErrorView) -> BuilderView {
        match self.invalid_default_header {
            Some(_) => self,
            None => BuilderView { invalid_default_header: Some(error), ..self },
        }
    }

    /// With a `User-Agent`; `None` is a value that is not valid.
    pub open spec fn with_user_agent(self, value: Option<Seq<u8>>) -> BuilderView {
        match value {
            Some(value) => BuilderView { user_agent: Some(value), ..self },
            None => self.refused(ErrorView::InvalidHeader("User-Agent value rejected"@)),
        }
    }

    /// With a default header; `None` is a name or a value that is not valid.
    pub open spec fn with_default_header(
        self,
        name: Option<Seq<char>>,
        value: Option<Seq<u8>>,
    ) -> BuilderView {
        match (name, value) {
            (None, _) => self.refused(ErrorView::InvalidHeader("default header name rejected"@)),
            (Some(name), None) => self.refused(
                ErrorView::InvalidHeader("default header `"@ + name + "` value rejected"@),
            ),
            (Some(name), Some(value)) => BuilderView {
                default_headers: headers::replaced(self.default_headers, name, value),
                ..self
            },
        }
    }

    /// The client with these settings.
    pub open spec fn client(self) -> ClientView {
        ClientView {
            default_timeout: self.timeout,
            default_headers: match self.user_agent {
                Some(value) => headers::replaced(self.default_headers, "user-agent"@, value),
                None => self.default_headers,
            },
            pool_max_idle_per_host: self.pool_max_idle_per_host,
            pool_idle_timeout: self.pool_idle_timeout,
            http3_enabled: self.http3_enabled,
            http3_negative_cache_duration: match self.http3_negative_cache_duration {
                Some(span) => span,
                None => (DEFAULT_NEGATIVE_CACHE_SECS * time::NANOS_PER_SEC) as nat,
            },
        }
    }

    /// What building gives.
    pub open spec fn built(self) -> std::result::Result<ClientView, ErrorView> {
        match self.invalid_default_header {
            Some(error) => Err(error),
            None => Ok(self.client()),
        }
    }

    /// Whether one more default header fits, whatever its name is.
    pub open spec fn has_room(self) -> bool {
        headers::names_within(self.default_headers, headers::MAX_HEADER_NAMES as int)
    }
}

impl Default for ClientBuilder {
    fn default() -> (r: Self)
        ensures
            r@ == BuilderView::new(),
    {
        ClientBuilder {
            timeout: None,
            pool_max_idle_per_host: None,
            pool_idle_timeout: None,
            default_headers: headers::new_map(),
            user_agent: None,
            invalid_default_header: None,
            http3_enabled: true,
            http3_negative_cache_duration: None,
        }
    }
}

impl ClientBuilder {
    /// A builder with default settings.
    pub fn new() -> (r: ClientBuilder)
        ensures
            r@ == BuilderView::new(),
    {
        ClientBuilder::default()
    }

    /// Whether one more default header fits, whatever its name is.
    pub fn has_room(&self) -> (r: bool)
        ensures
            r == self@.has_room(),
    {
        headers::name_count(&self.default_headers) <= headers::MAX_HEADER_NAMES
    }

    /// Sets the timeout of requests that set none of their own.
    pub fn timeout(self, timeout: Duration) -> (r: ClientBuilder)
        ensures
            r@ == (BuilderView { timeout: Some(timeout@), ..self@ }),
    {
        ClientBuilder { timeout: Some(timeout), ..self }
    }

    /// Sets the maximum number of idle connections kept open per host; `0`
    /// disables reuse.
    pub fn pool_max_idle_per_host(self, max: usize) -> (r: ClientBuilder)
        ensures
            r@ == (BuilderView { pool_max_idle_per_host: Some(max), ..self@ }),
    {
        ClientBuilder { pool_max_idle_per_host: Some(max), ..self }
    }

    /// Sets for how long an idle connection is kept.
    pub fn pool_idle_timeout(self, timeout: Duration) -> (r: ClientBuilder)
        ensures
            r@ == (BuilderView { pool_idle_timeout: Some(timeout@), ..self@ }),
    {
        ClientBuilder { pool_idle_timeout: Some(timeout), ..self }
    }

    /// Remembers an error, unless there is one already.
    fn refuse(self, error: Error) -> (r: ClientBuilder)
        ensures
            r@ == self@.refused(error@),
    {
        match self.invalid_default_header {
            Some(_) => self,
            None => ClientBuilder { invalid_default_header: Some(error), ..self },
        }
    }

    /// Sets the `User-Agent` header of every request.
    pub fn user_agent(self, ua: &str) -> (r: ClientBuilder)
        ensures
            r@ == self@.with_user_agent(headers::parsed_value(ua@)),
    {
        self.user_agent_value(headers::parse_value(ua))
    }

    /// Sets the `User-Agent` header of every request to a value that was
    /// parsed; `None` is one that is not valid.
    pub fn user_agent_value(self, value: Option<http::HeaderValue>) -> (r: ClientBuilder)
        ensures
            r@ == self@.with_user_agent(headers::optional_value(value)),
    {
        match value {
            Some(value) => ClientBuilder { user_agent: Some(value), ..self },
            None => self.refuse(Error::InvalidHeader("User-Agent value rejected".to_owned())),
        }
    }

    /// Sets the default headers, in place of all that were set. The headers of
    /// a request override them name by name.
    pub fn default_headers(self, headers: http::HeaderMap) -> (r: ClientBuilder)
        ensures
            r@ == (BuilderView { default_headers: headers::map_fields(headers), ..self@ }),
    {
        ClientBuilder { default_headers: headers, ..self }
    }

    /// Sets a single default header.
    pub fn default_header(self, name: &str, value: &str) -> (r: ClientBuilder)
        requires
            headers::is_header_name(name@) && headers::is_header_value(value@)
                ==> self@.has_room(),
        ensures
            r@ == self@.with_default_header(
                headers::parsed_name(name@),
                headers::parsed_value(value@),
            ),
    {
        self.default_header_value(headers::parse_name(name), headers::parse_value(value))
    }

    /// Sets a single default header. A builder whose headers take no more is
    /// given back as it is; one that has room never is.
    pub fn try_default_header(self, name: &str, value: &str) -> (r: std::result::Result<
        ClientBuilder,
        ClientBuilder,
    >)
        ensures
            match r {
                Ok(builder) => builder@ == self@.with_default_header(
                    headers::parsed_name(name@),
                    headers::parsed_value(value@),
                ),
                Err(builder) => builder@ == self@ && !self@.has_room() && headers::is_header_name(
                    name@,
                ) && headers::is_header_value(value@),
            },
    {
        self.try_default_header_value(headers::parse_name(name), headers::parse_value(value))
    }

    /// Sets a single default header whose name and value were parsed; `None`
    /// is one that is not valid.
    pub fn default_header_value(
        self,
        name: Option<http::HeaderName>,
        value: Option<http::HeaderValue>,
    ) -> (r: ClientBuilder)
        requires
            name is Some && value is Some ==> self@.has_room(),
        ensures
            r@ == self@.with_default_header(
                headers::optional_name(name),
                headers::optional_value(value),
            ),
    {
        match self.try_default_header_value(name, value) {
            Ok(builder) => builder,
            Err(_) => vstd::pervasive::unreached(),
        }
    }

    /// Sets a single default header whose name and value were parsed; `None`
    /// is one that is not valid. A builder whose headers take no more is given
    /// back as it is; one that has room never is.
    pub fn try_default_header_value(
        self,
        name: Option<http::HeaderName>,
        value: Option<http::HeaderValue>,
    ) -> (r: std::result::Result<ClientBuilder, ClientBuilder>)
        ensures
            match r {
                Ok(builder) => builder@ == self@.with_default_header(
                    headers::optional_name(name),
                    headers::optional_value(value),
                ),
                Err(builder) => builder@ == self@ && !self@.has_room() && name is Some
                    && value is Some,
            },
    {
        let name = match name {
            Some(name) => name,
            None => return Ok(
                self.refuse(Error::InvalidHeader("default header name rejected".to_owned())),
            ),
        };
        match value {
            Some(value) => {
                let mut builder = self;
                if headers::try_insert(&mut builder.default_headers, name, value) {
                    Ok(builder)
                } else {
                    Err(builder)
                }
            },
            None => {
                let message = text::join3(
                    "default header `",
                    headers::name_str(&name),
                    "` value rejected",
                );
                Ok(self.refuse(Error::InvalidHeader(message)))
            },
        }
    }

    /// Enables or disables HTTP/3.
    pub fn http3(self, enabled: bool) -> (r: ClientBuilder)
        ensures
            r@ == (BuilderView { http3_enabled: enabled, ..self@ }),
    {
        ClientBuilder { http3_enabled: enabled, ..self }
    }

    /// Sets for how long HTTP/3 is not tried at an origin where it failed.
    pub fn http3_negative_cache_duration(self, duration: Duration) -> (r: ClientBuilder)
        ensures
            r@ == (BuilderView { http3_negative_cache_duration: Some(duration@), ..self@ }),
    {
        ClientBuilder { http3_negative_cache_duration: Some(duration), ..self }
    }

    /// The client, or the first header that was not valid. `None` is that all
    /// are valid, but that the headers do not take the `User-Agent`. Headers that
    /// have room always take it.
    pub fn try_build(self) -> (r: Option<Result<Client>>)
        ensures
            match r {
                Some(client) => error::outcome(client) == self@.built(),
                None => self@.built() is Ok && self@.user_agent is Some && !self@.has_room(),
            },
    {
        if let Some(error) = self.invalid_default_header {
            return Some(Err(error));
        }
        let mut default_headers = self.default_headers;
        if let Some(value) = self.user_agent {
            if !headers::try_insert(&mut default_headers, headers::user_agent_name(), value) {
                return None;
            }
        }
        let http3_negative_cache_duration = match self.http3_negative_cache_duration {
            Some(duration) => duration,
            None => Duration::from_secs(DEFAULT_NEGATIVE_CACHE_SECS),
        };
        let inner = ClientInner {
            default_timeout: self.timeout,
            default_headers,
            pool_max_idle_per_host: self.pool_max_idle_per_host,
            pool_idle_timeout: self.pool_idle_timeout,
            http3_enabled: self.http3_enabled,
            http3_negative_cache_duration,
        };
        Some(Ok(Client { inner: Arc::new(inner) }))
    }

    /// The client, or the first header that was not valid.
    pub fn build(self) -> (r: Result<Client>)
        requires
            self@.invalid_default_header is None && self@.user_agent is Some ==> self@.has_room(),
        ensures
            error::outcome(r) == self@.built(),
    {
        match self.try_build() {
            Some(client) => client,
            None => vstd::pervasive::unreached(),
        }
    }
}

/// The first header that is not valid is what building reports, whatever else
/// is set.
pub proof fn law_first_invalid_header_is_reported(
    builder: BuilderView,
    error: ErrorView,
    name: Option<Seq<char>>,
    value: Option<Seq<u8>>,
)
    requires
        builder.invalid_default_header == Some(error),
    ensures
        builder.built() == Err::<ClientView, ErrorView>(error),
        builder.with_user_agent(value).invalid_default_header == Some(error),
        builder.with_default_header(name, value).invalid_default_header == Some(error),
{
}

/// Without a header that is not valid, building succeeds. A header that is not
/// valid makes it fail.
pub proof fn law_invalid_headers_are_reported(
    builder: BuilderView,
    name: Option<Seq<char>>,
    value: Option<Seq<u8>>,
)
    requires
        builder.invalid_default_header is None,
    ensures
        builder.built() is Ok,
        builder.with_user_agent(value).built() is Ok <==> value is Some,
        builder.with_default_header(name, value).built() is Ok <==> name is Some && value is Some,
{
}

/// A client that is built is set to what its builder was: what was not set is
/// the default, and the `User-Agent` is one more default header.
pub proof fn law_client_is_set_as_built(builder: BuilderView, name: Seq<char>)
    requires
        builder.built() is Ok,
    ensures
        ({
            let client = builder.built()->Ok_0;
            &&& client.default_timeout == builder.timeout
            &&& client.pool_max_idle_per_host == builder.pool_max_idle_per_host
            &&& client.pool_idle_timeout == builder.pool_idle_timeout
            &&& client.http3_enabled == builder.http3_enabled
            &&& builder.http3_negative_cache_duration matches Some(span)
                ==> client.http3_negative_cache_duration == span
            &&& builder.http3_negative_cache_duration is None
                ==> client.http3_negative_cache_duration == 300_000_000_000
            &&& builder.user_agent is None ==> client.default_headers == builder.default_headers
            &&& builder.user_agent matches Some(agent) ==> client.default_headers.contains_key(
                "user-agent"@,
            ) && client.default_headers["user-agent"@] == seq![agent]
            &&& name != "user-agent"@ ==> client.default_headers.contains_key(name)
                == builder.default_headers.contains_key(name)
            &&& name != "user-agent"@ && builder.default_headers.contains_key(name)
                ==> client.default_headers[name] == builder.default_headers[name]
        }),
{
}

/// A builder starts with HTTP/3 enabled and nothing else set.
pub proof fn law_builder_starts_empty(name: Seq<char>)
    ensures
        ({
            let builder = BuilderView::new();
            &&& builder.http3_enabled
            &&& builder.timeout is None && builder.pool_max_idle_per_host is None
            &&& builder.pool_idle_timeout is None && builder.http3_negative_cache_duration is None
            &&& builder.user_agent is None && builder.invalid_default_header is None
            &&& !builder.default_headers.contains_key(name)
        }),
{
}

/// A default header has the one value that was set last for it, and setting it
/// changes no other header and nothing else.
pub proof fn law_default_header_is_set(
    builder: BuilderView,
    name: Seq<char>,
    value: Seq<u8>,
    other: Seq<char>,
)
    ensures
        ({
            let set = builder.with_default_header(Some(name), Some(value));
            &&& set.default_headers.contains_key(name) && set.default_headers[name] == seq![value]
            &&& other != name ==> set.default_headers.contains_key(other)
                == builder.default_headers.contains_key(other)
            &&& other != name && builder.default_headers.contains_key(other)
                ==> set.default_headers[other] == builder.default_headers[other]
            &&& set.timeout == builder.timeout
            &&& set.pool_max_idle_per_host == builder.pool_max_idle_per_host
            &&& set.pool_idle_timeout == builder.pool_idle_timeout
            &&& set.user_agent == builder.user_agent
            &&& set.invalid_default_header == builder.invalid_default_header
            &&& set.http3_enabled == builder.http3_enabled
            &&& set.http3_negative_cache_duration == builder.http3_negative_cache_duration
        }),
        builder.with_user_agent(Some(value)).user_agent == Some(value),
        builder.with_user_agent(Some(value)).default_headers == builder.default_headers,
        builder.with_user_agent(None).default_headers == builder.default_headers,
        builder.with_default_header(None, Some(value)).default_headers == builder.default_headers,
        builder.with_default_header(Some(name), None).default_headers == builder.default_headers,
{
}

/// A header that is refused changes nothing of the builder but its error, and
/// that only if it has none yet. The error names the header.
pub proof fn law_refusal_changes_the_error_alone(
    builder: BuilderView,
    error: ErrorView,
    name: Seq<char>,
    value: Option<Seq<u8>>,
)
    ensures
        ({
            let refused = builder.refused(error);
            &&& builder.invalid_default_header is None ==> refused == (BuilderView {
                invalid_default_header: Some(error),
                ..builder
            })
            &&& builder.invalid_default_header is Some ==> refused == builder
        }),
        builder.invalid_default_header is None ==> (builder.with_default_header(
            Some(name),
            None,
        ).invalid_default_header matches Some(ErrorView::InvalidHeader(message))
            && text::occurs_in(message, name)),
        builder.invalid_default_header is None ==> builder.with_default_header(
            None,
            value,
        ).invalid_default_header matches Some(ErrorView::InvalidHeader(_)),
        builder.invalid_default_header is None ==> builder.with_user_agent(
            None,
        ).invalid_default_header matches Some(ErrorView::InvalidHeader(_)),
{
    text::law_occurring_is_standing_between("default header `"@, name, "` value rejected"@);
}

} // verus!
