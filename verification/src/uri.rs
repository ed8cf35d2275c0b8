//! Request URLs: which of them are accepted, and which origin they name.

use vstd::prelude::*;
use vstd::string::StringExecFns;

use crate::error;
use crate::error::{Error, ErrorView, Result};
use crate::origin::Origin;
use crate::text;

verus! {

/// The parts of a URL that decide how it is requested.
#[derive(Debug)]
pub struct UriParts {
    /// Scheme, such as `https`.
    pub scheme: Option<String>,
    /// Host, without user information and port.
    pub host: Option<String>,
    /// Port, if it is written out.
    pub port: Option<u16>,
}

/// What [`UriParts`] say.
pub struct UriPartsView {
    /// Scheme.
    pub scheme: Option<Seq<char>>,
    /// Host.
    pub host: Option<Seq<char>>,
    /// Port.
    pub port: Option<u16>,
}

impl View for UriParts {
    type V = UriPartsView;

    open spec fn view(&self) -> UriPartsView {
        UriPartsView {
            scheme: text::optional_text(self.scheme),
            host: text::optional_text(self.host),
            port: self.port,
        }
    }
}

/// A URL that a request can be sent to: its scheme is `http` or `https`.
#[derive(Debug)]
pub struct Uri {
    url: String,
    parts: UriParts,
}

/// What a [`Uri`] says.
pub struct UriView {
    /// The URL as it was given.
    pub url: Seq<char>,
    /// Its parts.
    pub parts: UriPartsView,
}

impl View for Uri {
    type V = UriView;

    closed spec fn view(&self) -> UriView {
        UriView { url: self.url@, parts: self.parts@ }
    }
}

/// What parsing a URL with `http::Uri` gives: its scheme, host and port, or the
/// text of the error.
pub uninterp spec fn parsed_parts(url: Seq<char>) -> std::result::Result<UriPartsView, Seq<char>>;

/// `<http::Uri as FromStr>::from_str`, together with `scheme_str`, `host` and
/// `port_u16` of what it gives, or the text of its error.
#[verifier::external_body]
fn parse_parts(url: &str) -> (r: std::result::Result<UriParts, String>)
    ensures
        match r {
            Ok(parts) => parsed_parts(url@) is Ok && parts@ == parsed_parts(url@)->Ok_0,
            Err(detail) => parsed_parts(url@) is Err && detail@ == parsed_parts(url@)->Err_0,
        },
{
    match url.parse::<http::Uri>() {
        Ok(uri) => Ok(
            UriParts {
                scheme: uri.scheme_str().map(str::to_owned),
                host: uri.host().map(str::to_owned),
                port: uri.port_u16(),
            },
        ),
        Err(error) => Err(error.to_string()),
    }
}

/// The scheme, where no scheme is an empty one.
pub open spec fn scheme_text(parts: UriPartsView) -> Seq<char> {
    match parts.scheme {
        Some(scheme) => scheme,
        None => ""@,
    }
}

/// Whether a request can be sent to a URL with these parts.
pub open spec fn is_supported(parts: UriPartsView) -> bool {
    scheme_text(parts) == "http"@ || scheme_text(parts) == "https"@
}

impl Uri {
    #[verifier::type_invariant]
    spec fn is_http(self) -> bool {
        is_supported(self.parts@)
    }

    /// The URL as it was given.
    pub fn url(&self) -> (r: &str)
        ensures
            r@ == self@.url,
            is_supported(self@.parts),
    {
        proof {
            use_type_invariant(self);
        }
        self.url.as_str()
    }

    /// Its parts.
    pub fn parts(&self) -> (r: &UriParts)
        ensures
            r@ == self@.parts,
            is_supported(self@.parts),
    {
        proof {
            use_type_invariant(self);
        }
        &self.parts
    }
}

/// What comes of a URL that was parsed with this result.
pub open spec fn accepted(
    url: Seq<char>,
    parsed: std::result::Result<UriPartsView, Seq<char>>,
) -> std::result::Result<UriView, ErrorView> {
    match parsed {
        Err(detail) => Err(ErrorView::InvalidUrl("could not parse `"@ + url + "`: "@ + detail)),
        Ok(parts) => if is_supported(parts) {
            Ok(UriView { url, parts })
        } else {
            Err(
                ErrorView::InvalidUrl(
                    "unsupported scheme `"@ + scheme_text(parts) + "` in `"@ + url + "`"@,
                ),
            )
        },
    }
}

/// The views of the parts or of the error text.
pub open spec fn parse_view(parsed: std::result::Result<UriParts, String>) -> std::result::Result<
    UriPartsView,
    Seq<char>,
> {
    match parsed {
        Ok(parts) => Ok(parts@),
        Err(detail) => Err(detail@),
    }
}

/// Accepts or refuses a URL by what parsing it gave: it has to parse, and its
/// scheme has to be `http` or `https`.
pub fn accept(url: &str, parsed: std::result::Result<UriParts, String>) -> (r: Result<Uri>)
    ensures
        error::outcome(r) == accepted(url@, parse_view(parsed)),
{
    let parts = match parsed {
        Ok(parts) => parts,
        Err(detail) => {
            let message = text::join3("could not parse `", url, "`: ");
            return Err(Error::InvalidUrl(message.concat(detail.as_str())));
        },
    };
    let scheme = match &parts.scheme {
        Some(scheme) => scheme.as_str(),
        None => "",
    };
    if text::same_text(scheme, "http") || text::same_text(scheme, "https") {
        Ok(Uri { url: url.to_owned(), parts })
    } else {
        let message = text::join3("unsupported scheme `", scheme, "` in `");
        Err(Error::InvalidUrl(message.concat(url).concat("`")))
    }
}

/// Parses a URL and accepts or refuses it.
pub fn parse(url: &str) -> (r: Result<Uri>)
    ensures
        error::outcome(r) == accepted(url@, parsed_parts(url@)),
{
    accept(url, parse_parts(url))
}

/// The origin that a URL with these parts names, if its per-origin transport
/// state is kept: only `https` URLs with a host have one, on port 443 unless
/// another is written out.
pub open spec fn origin_of(parts: UriPartsView) -> Option<(Seq<char>, u16)> {
    match (parts.scheme, parts.host) {
        (Some(scheme), Some(host)) => if scheme == "https"@ {
            match parts.port {
                Some(port) => Some((host, port)),
                None => Some((host, 443)),
            }
        } else {
            None
        },
        _ => None,
    }
}

impl Origin {
    /// The origin of `uri`, if its per-origin transport state is kept.
    pub fn from_uri(uri: &Uri) -> (r: Option<Origin>)
        ensures
            match r {
                Some(origin) => origin_of(uri@.parts) == Some(origin@),
                None => origin_of(uri@.parts) is None,
            },
    {
        let is_https = match &uri.parts.scheme {
            Some(scheme) => text::same_text(scheme.as_str(), "https"),
            None => false,
        };
        if !is_https {
            return None;
        }
        match &uri.parts.host {
            Some(host) => {
                let port: u16 = match uri.parts.port {
                    Some(port) => port,
                    None => 443,
                };
                Some(Origin { host: host.clone(), port })
            },
            None => None,
        }
    }
}

/// A URL is accepted if and only if it parses and its scheme is `http` or
/// `https`. One that is accepted is kept as it was given, character for
/// character, with the parts that parsing gave; one that is refused is named in
/// the error, with the reason that parsing gave or with its scheme.
pub proof fn law_accepted_url_is_kept(
    url: Seq<char>,
    parsed: std::result::Result<UriPartsView, Seq<char>>,
)
    ensures
        accepted(url, parsed) is Ok <==> (parsed matches Ok(parts) && (parts.scheme == Some(
            "http"@,
        ) || parts.scheme == Some("https"@))),
        accepted(url, parsed) matches Ok(uri) ==> uri.url == url && Ok::<UriPartsView, Seq<char>>(
            uri.parts,
        ) == parsed,
        accepted(url, parsed) matches Err(error) ==> (error matches ErrorView::InvalidUrl(message)
            && text::occurs_in(message, url)),
        parsed matches Err(detail) ==> error::ends_with(
            accepted(url, parsed)->Err_0->InvalidUrl_0,
            detail,
        ),
        parsed matches Ok(parts) ==> (parts.scheme matches Some(scheme) ==> accepted(
            url,
            parsed,
        ) is Ok || text::occurs_in(accepted(url, parsed)->Err_0->InvalidUrl_0, scheme)),
{
    reveal_strlit("");
    reveal_strlit("http");
    reveal_strlit("https");
    match parsed {
        Err(detail) => {
            text::law_occurring_is_standing_between("could not parse `"@, url, "`: "@ + detail);
            assert("could not parse `"@ + url + ("`: "@ + detail) == "could not parse `"@ + url
                + "`: "@ + detail);
            reveal_strlit("could not parse `");
            let message = "could not parse `"@ + url + "`: "@ + detail;
            assert(message.skip(message.len() - detail.len()) =~= detail);
        },
        Ok(parts) => {
            assert(parts.scheme == None::<Seq<char>> ==> scheme_text(parts).len() == 0);
            text::law_occurring_is_standing_between(
                "unsupported scheme `"@ + scheme_text(parts) + "` in `"@,
                url,
                "`"@,
            );
            let tail = "` in `"@ + url + "`"@;
            text::law_occurring_is_standing_between(
                "unsupported scheme `"@,
                scheme_text(parts),
                tail,
            );
            assert("unsupported scheme `"@ + scheme_text(parts) + tail == "unsupported scheme `"@
                + scheme_text(parts) + "` in `"@ + url + "`"@);
        },
    }
}

/// A URL has an origin if and only if its scheme is `https` and it names a host:
/// that host, and the port that is written out, or else 443.
pub proof fn law_origin_is_host_and_port(parts: UriPartsView, host: Seq<char>, port: u16)
    ensures
        origin_of(parts) == Some((host, port)) <==> parts.scheme == Some("https"@) && parts.host
            == Some(host) && (parts.port == Some(port) || (parts.port is None && port == 443)),
        origin_of(parts) is Some <==> parts.scheme == Some("https"@) && parts.host is Some,
{
}

/// What is said of the parts of a URL is what they hold.
pub proof fn law_view_of_parts(parts: UriParts, detail: String)
    ensures
        parts@.port == parts.port,
        parts.scheme matches Some(scheme) ==> parts@.scheme == Some(scheme@),
        parts.scheme is None ==> parts@.scheme is None,
        parts.host matches Some(host) ==> parts@.host == Some(host@),
        parts.host is None ==> parts@.host is None,
        parse_view(Ok(parts)) == Ok::<UriPartsView, Seq<char>>(parts@),
        parse_view(Err(detail)) == Err::<UriPartsView, Seq<char>>(detail@),
{
}

} // verus!
