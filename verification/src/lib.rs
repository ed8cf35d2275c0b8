//! The decisions of a small HTTP client, verified: which URLs and headers are
//! accepted, what a request consists of, when and where HTTP/3 is tried and when
//! TCP is used instead, what is remembered of an origin, and how a response body
//! is read with a cap and decoded.
//!
//! The library does no I/O. Where something has to be sent, received or looked
//! up, it says what is to be done and takes what came of it: see
//! [`RequestBuilder::send`], [`send::TryHttp3`], [`http3::H3Phase`] and
//! [`response::BodyReader`].
//!
//! # Overview
//!
//! - [`Client`] and [`ClientBuilder`]: the settings that requests share.
//! - [`RequestBuilder`]: the settings of a request, and sending it.
//! - [`Response`]: status, headers and version, and reading the body. The body
//!   is decoded if its `Content-Encoding` is `gzip`, `deflate` or `br`.
//! - [`Error`] and [`Result`]: a status other than success is not an error.
//!
//! [`Response::bytes_with_cap`] caps the bytes that arrive, before they are
//! decoded. What a small body decodes to may be larger than the cap.

pub mod alt_svc;
pub mod body;
pub mod caches;
pub mod client;
pub mod dns;
pub mod error;
pub mod headers;
pub mod http3;
pub mod https_rr;
pub mod method;
pub mod origin;
pub mod request;
pub mod response;
pub mod send;
pub mod text;
pub mod time;
pub mod tls;
pub mod uri;

pub use client::{Client, ClientBuilder};
pub use error::{Error, Result};
pub use method::Method;
pub use request::RequestBuilder;
pub use response::Response;
pub use uri::Uri;

pub use http::{HeaderMap, HeaderName, HeaderValue, StatusCode};
