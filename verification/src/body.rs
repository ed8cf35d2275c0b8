//! Byte buffers of the `bytes` crate, and the bodies of requests.

use vstd::prelude::*;

verus! {

/// An immutable, cheaply cloned byte buffer of the `bytes` crate.
#[verifier::external_type_specification]
#[verifier::external_body]
pub struct ExBytes(bytes::Bytes);

/// The bytes that a buffer holds.
pub uninterp spec fn contents(buffer: bytes::Bytes) -> Seq<u8>;

/// `<bytes::Bytes as AsRef<[u8]>>::as_ref`: the bytes of the buffer.
#[verifier::external_body]
pub(crate) fn as_slice(buffer: &bytes::Bytes) -> (r: &[u8])
    ensures
        r@ == contents(*buffer),
{
    buffer.as_ref()
}

/// `<bytes::Bytes as From<Vec<u8>>>::from`: a buffer with the bytes of a vector.
#[verifier::external_body]
pub(crate) fn from_vec(bytes: Vec<u8>) -> (r: bytes::Bytes)
    ensures
        contents(r) == bytes@,
{
    bytes::Bytes::from(bytes)
}

/// `<bytes::Bytes as Clone>::clone`: a buffer with the same bytes.
#[verifier::external_body]
pub(crate) fn clone_bytes(buffer: &bytes::Bytes) -> (r: bytes::Bytes)
    ensures
        contents(r) == contents(*buffer),
{
    buffer.clone()
}

/// The body of a request, where `B` is the type of bodies that are produced
/// while they are sent.
#[derive(Debug)]
pub enum RequestPayload<B> {
    /// No body.
    Empty,
    /// Bytes, which can be sent again if an attempt fails.
    Replayable(bytes::Bytes),
    /// A body that can be sent only once.
    Streaming(B),
}

/// What a [`RequestPayload`] holds.
pub enum PayloadView<B> {
    /// No body.
    Empty,
    /// Bytes.
    Replayable(Seq<u8>),
    /// A body that can be sent only once.
    Streaming(B),
}

impl<B> View for RequestPayload<B> {
    type V = PayloadView<B>;

    open spec fn view(&self) -> PayloadView<B> {
        match *self {
            RequestPayload::Empty => PayloadView::Empty,
            RequestPayload::Replayable(bytes) => PayloadView::Replayable(contents(bytes)),
            RequestPayload::Streaming(body) => PayloadView::Streaming(body),
        }
    }
}

/// The bytes of an optional buffer.
pub open spec fn optional_contents(buffer: Option<bytes::Bytes>) -> Option<Seq<u8>> {
    match buffer {
        Some(buffer) => Some(contents(buffer)),
        None => None,
    }
}

impl<B> PayloadView<B> {
    /// What can be sent over HTTP/3: `Some(None)` is an empty body, `None` a
    /// body that has to go over TCP.
    pub open spec fn replayable(self) -> Option<Option<Seq<u8>>> {
        match self {
            PayloadView::Empty => Some(None),
            PayloadView::Replayable(bytes) => Some(Some(bytes)),
            PayloadView::Streaming(_) => None,
        }
    }
}

impl<B> RequestPayload<B> {
    /// What can be sent over HTTP/3, where an attempt may have to be repeated:
    /// `Some(None)` is an empty body, `None` a body that has to go over TCP.
    pub fn replayable_for_h3(&self) -> (r: Option<Option<bytes::Bytes>>)
        ensures
            match r {
                Some(body) => self@.replayable() == Some(optional_contents(body)),
                None => self@.replayable() is None,
            },
    {
        match self {
            RequestPayload::Empty => Some(None),
            RequestPayload::Replayable(bytes) => Some(Some(clone_bytes(bytes))),
            RequestPayload::Streaming(_) => None,
        }
    }
}

/// A body can be sent over HTTP/3 if and only if it can be sent again, and then
/// with all of its bytes. What is said of a body is what it holds.
pub proof fn law_only_repeatable_bodies_are_replayed<B>(bytes: bytes::Bytes, stream: B)
    ensures
        RequestPayload::<B>::Empty@.replayable() == Some(None::<Seq<u8>>),
        RequestPayload::<B>::Replayable(bytes)@.replayable() == Some(Some(contents(bytes))),
        RequestPayload::Streaming(stream)@.replayable() is None,
        RequestPayload::Streaming(stream)@ == PayloadView::Streaming(stream),
        optional_contents(Some(bytes)) == Some(contents(bytes)),
        optional_contents(None) is None,
{
}

} // verus!
