//! What a client remembers about HTTP/3 at the origins that it talks to.

use vstd::prelude::*;

use crate::alt_svc;
use crate::alt_svc::{AltSvcEntry, AltSvcEntryView, AltSvcUpdate, AltSvcUpdateView};
use crate::error::Result;
use crate::headers;
use crate::https_rr;
use crate::https_rr::{HttpsRrEntry, HttpsRrEntryView};
use crate::origin::{Origin, OriginMap};
use crate::time::{Duration, Instant};

verus! {

/// The alternatives that servers offered, per origin.
pub type AltSvcCache = OriginMap<AltSvcEntry>;

/// The HTTPS records that were looked up, per origin.
pub type HttpsRrCache = OriginMap<HttpsRrEntry>;

/// The origins at which HTTP/3 failed, each with the moment until which it is
/// not tried again.
pub type NegativeCache = OriginMap<Instant>;

/// All that is remembered about HTTP/3.
#[derive(Debug)]
pub struct Http3Caches {
    /// HTTPS records.
    pub https_rr: HttpsRrCache,
    /// Alternatives.
    pub alt_svc: AltSvcCache,
    /// Failures.
    pub negative: NegativeCache,
}

/// What [`Http3Caches`] hold.
pub struct CachesView {
    /// HTTPS records.
    pub https_rr: Map<(Seq<char>, u16), HttpsRrEntryView>,
    /// Alternatives.
    pub alt_svc: Map<(Seq<char>, u16), AltSvcEntryView>,
    /// Failures.
    pub negative: Map<(Seq<char>, u16), nat>,
}

impl View for Http3Caches {
    type V = CachesView;

    open spec fn view(&self) -> CachesView {
        CachesView {
            https_rr: self.https_rr@,
            alt_svc: self.alt_svc@,
            negative: self.negative@,
        }
    }
}

impl CachesView {
    /// The alternative for `origin` that holds at `now`.
    pub open spec fn fresh_alt_svc(self, origin: (Seq<char>, u16), now: nat) -> Option<
        AltSvcEntryView,
    > {
        if self.alt_svc.contains_key(origin) && self.alt_svc[origin].expires_at > now {
            Some(self.alt_svc[origin])
        } else {
            None
        }
    }

    /// The record for `origin` that holds at `now`.
    pub open spec fn fresh_https_rr(self, origin: (Seq<char>, u16), now: nat) -> Option<
        HttpsRrEntryView,
    > {
        if self.https_rr.contains_key(origin) && self.https_rr[origin].expires_at > now {
            Some(self.https_rr[origin])
        } else {
            None
        }
    }

    /// Whether HTTP/3 is not to be tried at `origin` at `now`.
    pub open spec fn blocks(self, origin: (Seq<char>, u16), now: nat) -> bool {
        self.negative.contains_key(origin) && self.negative[origin] > now
    }

    /// What is left once the alternative for `origin` was asked for at `now`:
    /// one that no longer holds is forgotten.
    pub open spec fn alt_svc_asked(self, origin: (Seq<char>, u16), now: nat) -> CachesView {
        if self.fresh_alt_svc(origin, now) is Some {
            self
        } else {
            CachesView { alt_svc: self.alt_svc.remove(origin), ..self }
        }
    }

    /// What is left once the record for `origin` was asked for at `now`.
    pub open spec fn https_rr_asked(self, origin: (Seq<char>, u16), now: nat) -> CachesView {
        if self.fresh_https_rr(origin, now) is Some {
            self
        } else {
            CachesView { https_rr: self.https_rr.remove(origin), ..self }
        }
    }

    /// What is left once it was asked whether `origin` is blocked at `now`.
    pub open spec fn negative_asked(self, origin: (Seq<char>, u16), now: nat) -> CachesView {
        if self.blocks(origin, now) {
            self
        } else {
            CachesView { negative: self.negative.remove(origin), ..self }
        }
    }

    /// What is remembered once HTTP/3 failed at `origin`, to be left alone
    /// until `until`: that it failed, and no alternative.
    pub open spec fn failed(self, origin: (Seq<char>, u16), until: nat) -> CachesView {
        CachesView {
            negative: self.negative.insert(origin, until),
            alt_svc: self.alt_svc.remove(origin),
            ..self
        }
    }

    /// What is remembered once a record for `origin` was looked up.
    pub open spec fn looked_up(
        self,
        origin: (Seq<char>, u16),
        entry: HttpsRrEntryView,
    ) -> CachesView {
        CachesView { https_rr: self.https_rr.insert(origin, entry), ..self }
    }

    /// What is remembered once `origin` sent an `Alt-Svc` header.
    pub open spec fn updated(
        self,
        origin: (Seq<char>, u16),
        update: AltSvcUpdateView,
    ) -> CachesView {
        match update {
            AltSvcUpdateView::Clear => CachesView { alt_svc: self.alt_svc.remove(origin), ..self },
            AltSvcUpdateView::Entry(entry) => CachesView {
                alt_svc: self.alt_svc.insert(origin, entry),
                ..self
            },
            AltSvcUpdateView::Absent => self,
        }
    }

    /// What is remembered once a response with the headers `fields` arrived
    /// from `origin` at `now`.
    pub open spec fn answered(
        self,
        origin: Option<(Seq<char>, u16)>,
        fields: headers::Fields,
        now: nat,
    ) -> CachesView {
        match (origin, headers::first_text(fields, "alt-svc"@)) {
            (Some(origin), Some(value)) => self.updated(
                origin,
                alt_svc::update_of(value, now, origin.1),
            ),
            _ => self,
        }
    }
}

/// `alt-svc` is a header name in lower case.
proof fn lemma_alt_svc_name()
    ensures
        headers::is_field_name("alt-svc"@),
{
    reveal_strlit("alt-svc");
    assert(crate::text::ascii_lowercased("alt-svc"@) =~= "alt-svc"@);
}

impl Http3Caches {
    /// Caches that hold nothing.
    pub fn new() -> (r: Http3Caches)
        ensures
            r@.https_rr == Map::<(Seq<char>, u16), HttpsRrEntryView>::empty(),
            r@.alt_svc == Map::<(Seq<char>, u16), AltSvcEntryView>::empty(),
            r@.negative == Map::<(Seq<char>, u16), nat>::empty(),
    {
        Http3Caches {
            https_rr: OriginMap::new(),
            alt_svc: OriginMap::new(),
            negative: OriginMap::new(),
        }
    }

    /// The alternative for `origin` that holds at `now`. One that no longer
    /// holds is forgotten.
    pub fn alt_svc_entry(&mut self, origin: &Origin, now: Instant) -> (r: Option<AltSvcEntry>)
        ensures
            match r {
                Some(entry) => old(self)@.fresh_alt_svc(origin@, now@) == Some(entry@),
                None => old(self)@.fresh_alt_svc(origin@, now@) is None,
            },
            final(self)@ == old(self)@.alt_svc_asked(origin@, now@),
    {
        if let Some(entry) = self.alt_svc.get(origin) {
            if alt_svc::fresh(entry, now) {
                return Some(entry.clone());
            }
        }
        self.alt_svc.remove(origin);
        None
    }

    /// The record for `origin` that holds at `now`. One that no longer holds is
    /// forgotten.
    pub fn cached_https_rr(&mut self, origin: &Origin, now: Instant) -> (r: Option<HttpsRrEntry>)
        ensures
            match r {
                Some(entry) => old(self)@.fresh_https_rr(origin@, now@) == Some(entry@),
                None => old(self)@.fresh_https_rr(origin@, now@) is None,
            },
            final(self)@ == old(self)@.https_rr_asked(origin@, now@),
    {
        if let Some(entry) = self.https_rr.get(origin) {
            if https_rr::fresh(entry, now) {
                return Some(entry.clone());
            }
        }
        self.https_rr.remove(origin);
        None
    }

    /// Remembers what a lookup of HTTPS records for `origin` gave, and hands it
    /// on. `None` is a lookup that took too long; like one that failed or found
    /// nothing, it changes nothing.
    pub fn https_rr_entry(
        &mut self,
        origin: &Origin,
        lookup: Option<Result<Option<HttpsRrEntry>>>,
    ) -> (r: Option<HttpsRrEntry>)
        ensures
            match lookup {
                Some(Ok(Some(entry))) => r is Some && r->0@ == entry@ && final(self)@ == old(
                    self,
                )@.looked_up(origin@, entry@),
                _ => r is None && final(self)@ == old(self)@,
            },
    {
        match lookup {
            Some(Ok(Some(entry))) => {
                self.https_rr.insert(origin.clone(), entry.clone());
                Some(entry)
            },
            _ => None,
        }
    }

    /// Whether HTTP/3 is not to be tried at `origin` at `now`. A failure that
    /// lies far enough back is forgotten.
    pub fn negative_cache_hit(&mut self, origin: &Origin, now: Instant) -> (r: bool)
        ensures
            r == old(self)@.blocks(origin@, now@),
            final(self)@ == old(self)@.negative_asked(origin@, now@),
    {
        if let Some(expires_at) = self.negative.get(origin) {
            if expires_at.is_after(now) {
                return true;
            }
        }
        self.negative.remove(origin);
        false
    }

    /// Remembers that HTTP/3 failed at `origin` at `now`: it is not tried for
    /// `duration`, and the alternative is forgotten.
    pub fn insert_negative(&mut self, origin: Origin, now: Instant, duration: Duration)
        requires
            now.is_clock_reading(),
        ensures
            final(self)@ == old(self)@.failed(origin@, now@ + duration@),
    {
        self.alt_svc.remove(&origin);
        self.negative.insert(origin, now.plus(duration));
    }

    /// Does what an `Alt-Svc` header of `origin` asks for.
    pub fn apply_alt_svc(&mut self, origin: Origin, update: AltSvcUpdate)
        ensures
            final(self)@ == old(self)@.updated(origin@, update@),
    {
        match update {
            AltSvcUpdate::Clear => self.alt_svc.remove(&origin),
            AltSvcUpdate::Entry(entry) => self.alt_svc.insert(origin, entry),
            AltSvcUpdate::Absent => {},
        }
    }

    /// Does what the `Alt-Svc` header of a response asks for, if the request
    /// went to an origin whose state is kept and the response has such a
    /// header.
    pub fn maybe_update_alt_svc(
        &mut self,
        origin: Option<Origin>,
        headers: &http::HeaderMap,
        now: Instant,
    )
        requires
            now.is_clock_reading(),
        ensures
            final(self)@ == old(self)@.answered(
                (match origin {
                    Some(origin) => Some(origin@),
                    None => None,
                }),
                headers::map_fields(*headers),
                now@,
            ),
    {
        let origin = match origin {
            Some(origin) => origin,
            None => return,
        };
        proof {
            lemma_alt_svc_name();
        }
        if let Some(value) = headers::get(headers, "alt-svc") {
            let update = alt_svc::parse_header(value, now, origin.port);
            self.apply_alt_svc(origin, update);
        }
    }
}

/// A failure of HTTP/3 at an origin blocks it exactly until the moment given,
/// and no alternative is left there. Other origins are not concerned.
pub proof fn law_failure_blocks_until_expiry(
    caches: CachesView,
    origin: (Seq<char>, u16),
    other: (Seq<char>, u16),
    until: nat,
    now: nat,
)
    ensures
        caches.failed(origin, until).blocks(origin, now) <==> now < until,
        caches.failed(origin, until).fresh_alt_svc(origin, now) is None,
        other != origin ==> caches.failed(origin, until).blocks(other, now) == caches.blocks(
            other,
            now,
        ),
        other != origin ==> caches.failed(origin, until).fresh_alt_svc(other, now)
            == caches.fresh_alt_svc(other, now),
        caches.failed(origin, until).fresh_https_rr(other, now) == caches.fresh_https_rr(
            other,
            now,
        ),
{
}

/// An alternative that an origin offered is found there until it expires, and
/// no longer; `clear` takes it back, and a header without a supported
/// alternative changes nothing. Other origins are not concerned.
pub proof fn law_alternative_is_found_until_expiry(
    caches: CachesView,
    origin: (Seq<char>, u16),
    other: (Seq<char>, u16),
    entry: AltSvcEntryView,
    now: nat,
)
    ensures
        caches.updated(origin, AltSvcUpdateView::Entry(entry)).fresh_alt_svc(origin, now) == (if now
            < entry.expires_at {
            Some(entry)
        } else {
            None
        }),
        caches.updated(origin, AltSvcUpdateView::Clear).fresh_alt_svc(origin, now) is None,
        caches.updated(origin, AltSvcUpdateView::Absent) == caches,
        other != origin ==> caches.updated(
            origin,
            AltSvcUpdateView::Entry(entry),
        ).fresh_alt_svc(other, now) == caches.fresh_alt_svc(other, now),
        other != origin ==> caches.updated(origin, AltSvcUpdateView::Clear).fresh_alt_svc(
            other,
            now,
        ) == caches.fresh_alt_svc(other, now),
{
}

/// A record that was looked up is found until it expires, and no longer. Other
/// origins are not concerned.
pub proof fn law_record_is_found_until_expiry(
    caches: CachesView,
    origin: (Seq<char>, u16),
    other: (Seq<char>, u16),
    entry: HttpsRrEntryView,
    now: nat,
)
    ensures
        caches.looked_up(origin, entry).fresh_https_rr(origin, now) == (if now < entry.expires_at {
            Some(entry)
        } else {
            None
        }),
        other != origin ==> caches.looked_up(origin, entry).fresh_https_rr(other, now)
            == caches.fresh_https_rr(other, now),
{
}

/// What the caches answer at `now` about `origin`.
pub open spec fn answers(caches: CachesView, origin: (Seq<char>, u16), now: nat) -> (
    bool,
    Option<AltSvcEntryView>,
    Option<HttpsRrEntryView>,
) {
    (
        caches.blocks(origin, now),
        caches.fresh_alt_svc(origin, now),
        caches.fresh_https_rr(origin, now),
    )
}

/// Asking the caches forgets only what no longer holds: from that moment on
/// they answer every question as before.
pub proof fn law_asking_changes_no_later_answer(
    caches: CachesView,
    asked: (Seq<char>, u16),
    now: nat,
    origin: (Seq<char>, u16),
    later: nat,
)
    requires
        now <= later,
    ensures
        answers(caches.negative_asked(asked, now), origin, later) == answers(caches, origin, later),
        answers(caches.alt_svc_asked(asked, now), origin, later) == answers(caches, origin, later),
        answers(caches.https_rr_asked(asked, now), origin, later) == answers(caches, origin, later),
{
}

/// The caches answer what they hold, until it expires, and nothing else.
pub proof fn law_caches_answer_what_they_hold(
    caches: CachesView,
    origin: (Seq<char>, u16),
    now: nat,
)
    ensures
        caches.alt_svc.contains_key(origin) && now < caches.alt_svc[origin].expires_at
            ==> caches.fresh_alt_svc(origin, now) == Some(caches.alt_svc[origin]),
        !caches.alt_svc.contains_key(origin) || now >= caches.alt_svc[origin].expires_at
            ==> caches.fresh_alt_svc(origin, now) is None,
        caches.https_rr.contains_key(origin) && now < caches.https_rr[origin].expires_at
            ==> caches.fresh_https_rr(origin, now) == Some(caches.https_rr[origin]),
        !caches.https_rr.contains_key(origin) || now >= caches.https_rr[origin].expires_at
            ==> caches.fresh_https_rr(origin, now) is None,
        caches.blocks(origin, now) <==> caches.negative.contains_key(origin) && now
            < caches.negative[origin],
{
}

/// A failure, an offer and a record change what is held of their origin in their
/// own cache, a failure also the alternative, and nothing else.
pub proof fn law_changes_are_confined(
    caches: CachesView,
    origin: (Seq<char>, u16),
    until: nat,
    entry: AltSvcEntryView,
    record: HttpsRrEntryView,
)
    ensures
        caches.failed(origin, until).negative == caches.negative.insert(origin, until),
        caches.failed(origin, until).alt_svc == caches.alt_svc.remove(origin),
        caches.failed(origin, until).https_rr == caches.https_rr,
        ({
            let offered = caches.updated(origin, AltSvcUpdateView::Entry(entry));
            &&& offered.alt_svc == caches.alt_svc.insert(origin, entry)
            &&& offered.negative == caches.negative && offered.https_rr == caches.https_rr
        }),
        ({
            let cleared = caches.updated(origin, AltSvcUpdateView::Clear);
            &&& cleared.alt_svc == caches.alt_svc.remove(origin)
            &&& cleared.negative == caches.negative && cleared.https_rr == caches.https_rr
        }),
        ({
            let known = caches.looked_up(origin, record);
            &&& known.https_rr == caches.https_rr.insert(origin, record)
            &&& known.negative == caches.negative && known.alt_svc == caches.alt_svc
        }),
{
}

/// A response changes the caches as the first value of its `Alt-Svc` header
/// asks, if it comes from an origin and has such a header that can be read as
/// text; else it changes nothing.
pub proof fn law_response_updates_its_origin(
    caches: CachesView,
    origin: (Seq<char>, u16),
    fields: headers::Fields,
    raw: Seq<char>,
    now: nat,
)
    requires
        forall|i: int| 0 <= i < raw.len() ==> (raw[i] == '\t' || ' ' <= #[trigger] raw[i] <= '~'),
    ensures
        fields.contains_key("alt-svc"@) && fields["alt-svc"@].len() > 0
            && fields["alt-svc"@][0] == vstd::utf8::encode_utf8(raw) ==> caches.answered(
            Some(origin),
            fields,
            now,
        ) == caches.updated(origin, alt_svc::update_of(raw, now, origin.1)),
        !fields.contains_key("alt-svc"@) ==> caches.answered(Some(origin), fields, now) == caches,
        fields.contains_key("alt-svc"@) && (exists|i: int|
            0 <= i < fields["alt-svc"@][0].len() && {
                let b = #[trigger] fields["alt-svc"@][0][i];
                b != 9 && !(32 <= b < 127)
            }) ==> caches.answered(Some(origin), fields, now) == caches,
        caches.answered(None, fields, now) == caches,
{
    headers::lemma_visible_text(raw);
    headers::law_header_text_is_that_of_its_first_value(fields, "alt-svc"@);
}

/// What is said of the caches is what they hold.
pub proof fn law_view_of_caches(caches: Http3Caches)
    ensures
        caches@.https_rr == caches.https_rr@,
        caches@.alt_svc == caches.alt_svc@,
        caches@.negative == caches.negative@,
{
}

/// Asking forgets what is asked for if it no longer holds, and changes nothing
/// else.
pub proof fn law_asking_forgets_what_expired(
    caches: CachesView,
    origin: (Seq<char>, u16),
    now: nat,
)
    ensures
        ({
            let left = caches.alt_svc_asked(origin, now);
            &&& left.alt_svc == if caches.alt_svc.contains_key(origin) && now
                < caches.alt_svc[origin].expires_at {
                caches.alt_svc
            } else {
                caches.alt_svc.remove(origin)
            }
            &&& left.https_rr == caches.https_rr && left.negative == caches.negative
        }),
        ({
            let left = caches.https_rr_asked(origin, now);
            &&& left.https_rr == if caches.https_rr.contains_key(origin) && now
                < caches.https_rr[origin].expires_at {
                caches.https_rr
            } else {
                caches.https_rr.remove(origin)
            }
            &&& left.alt_svc == caches.alt_svc && left.negative == caches.negative
        }),
        ({
            let left = caches.negative_asked(origin, now);
            &&& left.negative == if caches.negative.contains_key(origin) && now
                < caches.negative[origin] {
                caches.negative
            } else {
                caches.negative.remove(origin)
            }
            &&& left.alt_svc == caches.alt_svc && left.https_rr == caches.https_rr
        }),
{
}

} // verus!
