//! What HTTPS resource records of the DNS say about HTTP/3 at an origin.

use vstd::prelude::*;

use crate::error::{Error, Result};
use crate::time::Instant;

verus! {

/// An IP address.
#[derive(Clone, Copy, Debug, PartialEq, Eq, Structural)]
pub enum IpAddr {
    /// An IPv4 address as a number.
    V4(u32),
    /// An IPv6 address as a number.
    V6(u128),
}

/// An IP address and a port.
#[derive(Clone, Copy, Debug, PartialEq, Eq, Structural)]
pub struct SocketAddr {
    /// The address.
    pub ip: IpAddr,
    /// The port.
    pub port: u16,
}

/// An HTTPS record as the resolver gives it.
#[derive(Debug)]
pub struct HttpsRecord {
    /// The port that the record gives, if any.
    pub port: Option<u16>,
    /// The addresses of `ipv4hint` and `ipv6hint`.
    pub address_hints: Vec<IpAddr>,
    /// Whether `alpn` lists `h3`.
    pub alpn_h3: bool,
    /// The moment at which the record expires.
    pub expires_at: Instant,
}

/// What an HTTPS record says about HTTP/3 at an origin.
#[derive(Debug, PartialEq, Eq)]
pub struct HttpsRrEntry {
    /// UDP port to use for the QUIC attempt.
    pub port: u16,
    /// Address hints.
    pub addresses: Vec<IpAddr>,
    /// Whether the record advertises `h3`.
    pub has_h3: bool,
    /// The moment at which the record expires.
    pub expires_at: Instant,
}

/// What an [`HttpsRrEntry`] says.
pub struct HttpsRrEntryView {
    /// UDP port.
    pub port: u16,
    /// Address hints.
    pub addresses: Seq<IpAddr>,
    /// Whether `h3` is advertised.
    pub has_h3: bool,
    /// Expiry, in nanoseconds after the start of the clock.
    pub expires_at: nat,
}

impl View for HttpsRrEntry {
    type V = HttpsRrEntryView;

    open spec fn view(&self) -> HttpsRrEntryView {
        HttpsRrEntryView {
            port: self.port,
            addresses: self.addresses@,
            has_h3: self.has_h3,
            expires_at: self.expires_at@,
        }
    }
}

impl Clone for HttpsRrEntry {
    fn clone(&self) -> (r: Self)
        ensures
            r@ == self@,
    {
        let addresses = self.addresses.clone();
        assert(addresses@ =~= self.addresses@);
        HttpsRrEntry {
            port: self.port,
            addresses,
            has_h3: self.has_h3,
            expires_at: self.expires_at,
        }
    }
}

/// Whether `entry` still holds at `now`.
pub fn fresh(entry: &HttpsRrEntry, now: Instant) -> (r: bool)
    ensures
        r == (entry.expires_at@ > now@),
{
    entry.expires_at.is_after(now)
}

/// What `record` says about an origin with the port `origin_port`.
pub open spec fn entry_of(record: HttpsRecord, origin_port: u16) -> HttpsRrEntryView {
    HttpsRrEntryView {
        port: match record.port {
            Some(port) => port,
            None => origin_port,
        },
        addresses: record.address_hints@,
        has_h3: record.alpn_h3,
        expires_at: record.expires_at@,
    }
}

/// Reads a record. A record without a port stands for that of the origin.
pub fn parse_https_record(record: HttpsRecord, origin_port: u16) -> (r: HttpsRrEntry)
    ensures
        r@ == entry_of(record, origin_port),
{
    let port: u16 = match record.port {
        Some(port) => port,
        None => origin_port,
    };
    HttpsRrEntry {
        port,
        addresses: record.address_hints,
        has_h3: record.alpn_h3,
        expires_at: record.expires_at,
    }
}

/// What `records` say about an origin with the port `origin_port`: the first
/// record that advertises `h3` speaks, or else the first one.
pub open spec fn chosen_entry(records: Seq<HttpsRecord>, origin_port: u16) -> Option<
    HttpsRrEntryView,
> {
    if exists|i: int| 0 <= i < records.len() && (#[trigger] records[i]).alpn_h3 {
        Some(entry_of(records[first_h3(records, 0)], origin_port))
    } else if records.len() > 0 {
        Some(entry_of(records[0], origin_port))
    } else {
        None
    }
}

/// The first index from `i` on of a record that advertises `h3`, or the number
/// of records.
pub open spec fn first_h3(records: Seq<HttpsRecord>, i: int) -> int
    decreases records.len() - i,
{
    if i >= records.len() {
        records.len() as int
    } else if records[i].alpn_h3 {
        i
    } else {
        first_h3(records, i + 1)
    }
}

/// What a lookup of HTTPS records says about an origin with the port
/// `origin_port`. A lookup that failed leaves the upstream unreachable.
pub fn lookup(
    records: std::result::Result<Vec<HttpsRecord>, String>,
    origin_port: u16,
) -> (r: Result<Option<HttpsRrEntry>>)
    ensures
        match (records, r) {
            (Ok(records), Ok(Some(entry))) => chosen_entry(records@, origin_port) == Some(entry@),
            (Ok(records), Ok(None)) => chosen_entry(records@, origin_port) is None,
            (Err(detail), Err(error)) => error == Error::Unreachable(detail),
            _ => false,
        },
{
    let list = match records {
        Ok(list) => list,
        Err(detail) => return Err(Error::Unreachable(detail)),
    };
    let ghost all = list@;
    let mut best: Option<HttpsRrEntry> = None;
    for record in it: list
        invariant
            records is Ok,
            records->Ok_0@ == all,
            it.seq() == all,
            forall|i: int| 0 <= i < it.index() ==> !(#[trigger] all[i]).alpn_h3,
            first_h3(all, 0) == first_h3(all, it.index() as int),
            it.index() == 0 ==> best is None,
            it.index() > 0 ==> best is Some && best->0@ == entry_of(all[0], origin_port),
    {
        let entry = parse_https_record(record, origin_port);
        if entry.has_h3 {
            assert(all[it.index() as int].alpn_h3);
            return Ok(Some(entry));
        }
        if best.is_none() {
            best = Some(entry);
        }
    }
    Ok(best)
}

/// The first record that advertises HTTP/3 speaks for an origin, or else the
/// first record: with the port that it gives or else that of the origin, and
/// with its addresses and its expiry. No record says nothing.
pub proof fn law_first_h3_record_speaks(records: Seq<HttpsRecord>, origin_port: u16, k: int)
    requires
        0 <= k < records.len(),
        records[k].alpn_h3 || k == 0,
        forall|i: int| 0 <= i < k ==> !(#[trigger] records[i]).alpn_h3,
        !records[k].alpn_h3 ==> forall|i: int|
            0 <= i < records.len() ==> !(#[trigger] records[i]).alpn_h3,
    ensures
        chosen_entry(records, origin_port) matches Some(entry) && entry.has_h3
            == records[k].alpn_h3 && entry.addresses == records[k].address_hints@
            && entry.expires_at == records[k].expires_at@ && (records[k].port matches Some(port)
            ==> entry.port == port) && (records[k].port is None ==> entry.port == origin_port),
        chosen_entry(Seq::empty(), origin_port) is None,
{
    lemma_first_h3(records, 0, k);
}

/// The first record that advertises HTTP/3 from `i` on is `k`.
proof fn lemma_first_h3(records: Seq<HttpsRecord>, i: int, k: int)
    requires
        0 <= i <= k < records.len(),
        forall|j: int| 0 <= j < k ==> !(#[trigger] records[j]).alpn_h3,
    ensures
        records[k].alpn_h3 ==> first_h3(records, i) == k,
    decreases k - i,
{
    if i < k {
        lemma_first_h3(records, i + 1, k);
    }
}

/// What is said of an entry is what it holds.
pub proof fn law_view_of_an_entry(entry: HttpsRrEntry)
    ensures
        entry@.port == entry.port,
        entry@.addresses == entry.addresses@,
        entry@.has_h3 == entry.has_h3,
        entry@.expires_at == entry.expires_at@,
{
}

} // verus!
