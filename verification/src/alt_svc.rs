//! Parsing of `Alt-Svc` response headers: which HTTP/3 alternative a server
//! offers for an origin, and for how long.

use vstd::prelude::*;
use vstd::string::StrSliceExecFns;

use crate::headers;
use crate::text;
use crate::text::CharClass;
use crate::time::{Duration, Instant};

verus! {

/// How long an alternative holds that does not say so itself: one day.
pub const DEFAULT_MAX_AGE_SECS: u64 = 86_400;

/// An HTTP/3 alternative for an origin.
#[derive(Debug, PartialEq, Eq)]
pub struct AltSvcEntry {
    /// Alternative host. `None` means the host of the origin.
    pub host: Option<String>,
    /// Alternative UDP port.
    pub port: u16,
    /// The moment from which on the alternative no longer holds.
    pub expires_at: Instant,
}

/// What an [`AltSvcEntry`] says.
pub struct AltSvcEntryView {
    /// Alternative host, if it is not that of the origin.
    pub host: Option<Seq<char>>,
    /// Alternative UDP port.
    pub port: u16,
    /// Expiry, in nanoseconds after the start of the clock.
    pub expires_at: nat,
}

impl View for AltSvcEntry {
    type V = AltSvcEntryView;

    open spec fn view(&self) -> AltSvcEntryView {
        AltSvcEntryView {
            host: text::optional_text(self.host),
            port: self.port,
            expires_at: self.expires_at@,
        }
    }
}

impl Clone for AltSvcEntry {
    fn clone(&self) -> (r: Self)
        ensures
            r == *self,
    {
        let host = match &self.host {
            Some(host) => Some(host.clone()),
            None => None,
        };
        AltSvcEntry { host, port: self.port, expires_at: self.expires_at }
    }
}

/// What an `Alt-Svc` header asks of the cache of alternatives.
#[derive(Debug, PartialEq, Eq)]
pub enum AltSvcUpdate {
    /// Forget the alternatives of the origin.
    Clear,
    /// Remember this HTTP/3 alternative.
    Entry(AltSvcEntry),
    /// No HTTP/3 alternative is offered: leave the cache as it is.
    Absent,
}

/// What an [`AltSvcUpdate`] says.
pub enum AltSvcUpdateView {
    /// Forget the alternatives of the origin.
    Clear,
    /// Remember this alternative.
    Entry(AltSvcEntryView),
    /// Leave the cache as it is.
    Absent,
}

impl View for AltSvcUpdate {
    type V = AltSvcUpdateView;

    open spec fn view(&self) -> AltSvcUpdateView {
        match *self {
            AltSvcUpdate::Clear => AltSvcUpdateView::Clear,
            AltSvcUpdate::Entry(entry) => AltSvcUpdateView::Entry(entry@),
            AltSvcUpdate::Absent => AltSvcUpdateView::Absent,
        }
    }
}

/// Whether `entry` still holds at `now`.
pub fn fresh(entry: &AltSvcEntry, now: Instant) -> (r: bool)
    ensures
        r == (entry.expires_at@ > now@),
{
    entry.expires_at.is_after(now)
}

/// The index from `i` on of the first `separator` in `s` that stands outside
/// of double quotes, where `quoted` says whether `i` stands inside of them; the
/// length of `s` if there is none.
pub open spec fn unquoted_index(s: Seq<char>, separator: char, i: int, quoted: bool) -> int
    decreases s.len() - i,
{
    if i >= s.len() {
        s.len() as int
    } else if s[i] == '"' {
        unquoted_index(s, separator, i + 1, !quoted)
    } else if s[i] == separator && !quoted {
        i
    } else {
        unquoted_index(s, separator, i + 1, quoted)
    }
}

/// The parts of `s` between those of its `separator`s that stand outside of
/// double quotes. Each part starts outside of quotes.
pub open spec fn quoted_parts(s: Seq<char>, separator: char) -> Seq<Seq<char>>
    decreases s.len(),
{
    let k = unquoted_index(s, separator, 0, false);
    if 0 <= k < s.len() {
        seq![s.take(k)] + quoted_parts(s.skip(k + 1), separator)
    } else {
        seq![s]
    }
}

/// The texts that the slices of `parts` hold.
pub open spec fn texts(parts: Seq<&str>) -> Seq<Seq<char>> {
    parts.map_values(|p: &str| p@)
}

/// Splits `raw` at each `separator` that stands outside of double quotes.
pub fn split_quoted(raw: &str, separator: char) -> (r: Vec<&str>)
    ensures
        texts(r@) == quoted_parts(raw@, separator),
{
    let chars = text::chars_of(raw);
    let n: usize = chars.len();
    let mut parts: Vec<&str> = Vec::new();
    let mut start: usize = 0;
    assert(raw@.skip(0) == raw@);
    assert(texts(parts@) == Seq::<Seq<char>>::empty());
    loop
        invariant
            start <= n,
            n == chars.len(),
            chars@ == raw@,
            texts(parts@) + quoted_parts(raw@.skip(start as int), separator) == quoted_parts(
                raw@,
                separator,
            ),
        decreases n - start,
    {
        let ghost rest = raw@.skip(start as int);
        let mut i: usize = start;
        let mut quoted: bool = false;
        let mut found: bool = false;
        while i < n && !found
            invariant
                start <= i <= n,
                n == chars.len(),
                chars@ == raw@,
                rest == raw@.skip(start as int),
                !found ==> unquoted_index(rest, separator, 0, false) == unquoted_index(
                    rest,
                    separator,
                    i - start,
                    quoted,
                ),
                found ==> i < n && unquoted_index(rest, separator, 0, false) == i - start,
            decreases (if found { 0 } else { n - i + 1 }),
        {
            let c = chars[i];
            assert(rest[i - start] == c);
            if c == '"' {
                quoted = !quoted;
                i = i + 1;
            } else if c == separator && !quoted {
                found = true;
            } else {
                i = i + 1;
            }
        }
        let part = raw.substring_char(start, i);
        let ghost before = texts(parts@);
        parts.push(part);
        assert(texts(parts@) == before.push(part@));
        assert(rest.take(i - start) == part@);
        if !found {
            assert(rest == part@);
            assert(texts(parts@) == before + seq![rest]);
            return parts;
        }
        assert(rest.skip(i - start + 1) == raw@.skip(i + 1));
        assert(texts(parts@) + quoted_parts(raw@.skip(i + 1), separator) == before + quoted_parts(
            rest,
            separator,
        ));
        start = i + 1;
    }
}

/// The host and port that a quoted authority such as `":443"` or
/// `"alt.example:8443"` names. Without a host the port has to be a number;
/// with one, a port that is no number stands for that of the origin.
pub open spec fn authority_of(raw: Seq<char>, origin_port: u16) -> Option<
    (Option<Seq<char>>, u16),
> {
    match text::without_prefix(raw, '"') {
        None => None,
        Some(open) => match text::without_suffix(open, '"') {
            None => None,
            Some(authority) => match text::without_prefix(authority, ':') {
                Some(port) => match text::parsed_unsigned(port, u16::MAX as nat) {
                    Some(port) => Some((None, port as u16)),
                    None => None,
                },
                None => match text::split_at_last(authority, ':') {
                    None => None,
                    Some((host, port)) => {
                        let host = text::trimmed(host, CharClass::Bracket);
                        if host.len() == 0 {
                            None
                        } else {
                            match text::parsed_unsigned(port, u16::MAX as nat) {
                                Some(port) => Some((Some(host), port as u16)),
                                None => Some((Some(host), origin_port)),
                            }
                        }
                    },
                },
            },
        },
    }
}

/// Reads a quoted authority.
pub fn parse_authority(raw: &str, origin_port: u16) -> (r: Option<(Option<String>, u16)>)
    ensures
        match r {
            Some((host, port)) => authority_of(raw@, origin_port) == Some(
                (text::optional_text(host), port),
            ),
            None => authority_of(raw@, origin_port) is None,
        },
{
    let open = match text::strip_prefix(raw, '"') {
        Some(open) => open,
        None => return None,
    };
    let authority = match text::strip_suffix(open, '"') {
        Some(authority) => authority,
        None => return None,
    };
    if let Some(port) = text::strip_prefix(authority, ':') {
        return match text::parse_unsigned(port, u16::MAX as u64) {
            Some(port) => Some((None, port as u16)),
            None => None,
        };
    }
    let (host, port) = match text::rsplit_once(authority, ':') {
        Some(parts) => parts,
        None => return None,
    };
    let host = text::trim(host, CharClass::Bracket);
    if host.is_empty() {
        return None;
    }
    match text::parse_unsigned(port, u16::MAX as u64) {
        Some(port) => Some((Some(host.to_owned()), port as u16)),
        None => Some((Some(host.to_owned()), origin_port)),
    }
}

/// The seconds that the parameter `part` gives as the maximum age, if it is an
/// `ma` parameter with a number, in quotes or not.
pub open spec fn max_age_param(part: Seq<char>) -> Option<nat> {
    match text::split_at_first(text::trimmed_ws(part), '=') {
        None => None,
        Some((name, value)) => if text::ascii_lowercased(text::trimmed_ws(name))
            == text::ascii_lowercased("ma"@) {
            text::parsed_unsigned(
                text::trimmed(text::trimmed_ws(value), CharClass::Quote),
                u64::MAX as nat,
            )
        } else {
            None
        },
    }
}

/// The maximum age in seconds that the parameters `params` give: the last one
/// that is given, or the default.
pub open spec fn max_age_of(params: Seq<Seq<char>>) -> nat
    decreases params.len(),
{
    if params.len() == 0 {
        DEFAULT_MAX_AGE_SECS as nat
    } else {
        match max_age_param(params.last()) {
            Some(seconds) => seconds,
            None => max_age_of(params.drop_last()),
        }
    }
}

/// What one alternative, such as `h3=":443"; ma=3600`, asks of the cache. Only
/// the protocol `h3` itself is supported.
pub open spec fn alternative_of(raw: Seq<char>, now: nat, origin_port: u16) -> AltSvcUpdateView {
    match text::split_at_first(raw, '=') {
        None => AltSvcUpdateView::Absent,
        Some((protocol, rest)) => if text::trimmed_ws(protocol) != "h3"@ {
            AltSvcUpdateView::Absent
        } else {
            let parts = quoted_parts(rest, ';');
            match authority_of(text::trimmed_ws(parts.first()), origin_port) {
                None => AltSvcUpdateView::Absent,
                Some((host, port)) => AltSvcUpdateView::Entry(
                    AltSvcEntryView {
                        host,
                        port,
                        expires_at: (now + max_age_of(parts.drop_first())
                            * crate::time::NANOS_PER_SEC) as nat,
                    },
                ),
            }
        },
    }
}

/// A text has at least one part.
proof fn lemma_quoted_parts_nonempty(s: Seq<char>, separator: char)
    ensures
        quoted_parts(s, separator).len() > 0,
{
}

/// Reads the seconds of an `ma` parameter.
fn parse_max_age(part: &str) -> (r: Option<u64>)
    ensures
        match r {
            Some(seconds) => max_age_param(part@) == Some(seconds as nat),
            None => max_age_param(part@) is None,
        },
{
    let (name, value) = match text::split_once(text::trim(part, CharClass::Whitespace), '=') {
        Some(parts) => parts,
        None => return None,
    };
    if !text::eq_ignore_ascii_case(text::trim(name, CharClass::Whitespace), "ma") {
        return None;
    }
    let number = text::trim(text::trim(value, CharClass::Whitespace), CharClass::Quote);
    text::parse_unsigned(number, u64::MAX)
}

/// Reads one alternative.
pub fn parse_alternative(raw: &str, now: Instant, origin_port: u16) -> (r: AltSvcUpdate)
    requires
        now.is_clock_reading(),
    ensures
        r@ == alternative_of(raw@, now@, origin_port),
{
    let (protocol, rest) = match text::split_once(raw, '=') {
        Some(parts) => parts,
        None => return AltSvcUpdate::Absent,
    };
    if !text::same_text(text::trim(protocol, CharClass::Whitespace), "h3") {
        return AltSvcUpdate::Absent;
    }
    let parts = split_quoted(rest, ';');
    let ghost views = quoted_parts(rest@, ';');
    proof {
        lemma_quoted_parts_nonempty(rest@, ';');
        assert(texts(parts@)[0] == parts@[0]@);
    }
    let (host, port) = match parse_authority(
        text::trim(parts[0], CharClass::Whitespace),
        origin_port,
    ) {
        Some(authority) => authority,
        None => return AltSvcUpdate::Absent,
    };
    let mut max_age: u64 = DEFAULT_MAX_AGE_SECS;
    let mut i: usize = 1;
    let ghost params = views.drop_first();
    assert(params.take(0) == Seq::<Seq<char>>::empty());
    while i < parts.len()
        invariant
            1 <= i <= parts.len(),
            views == texts(parts@),
            params == views.drop_first(),
            max_age == max_age_of(params.take(i - 1)),
        decreases parts.len() - i,
    {
        assert(texts(parts@)[i as int] == parts@[i as int]@);
        assert(params.take(i as int).last() == parts@[i as int]@);
        assert(params.take(i as int).drop_last() == params.take(i - 1));
        if let Some(seconds) = parse_max_age(parts[i]) {
            max_age = seconds;
        }
        i = i + 1;
    }
    assert(params.take(params.len() as int) == params);
    let expires_at = now.plus(Duration::from_secs(max_age));
    AltSvcUpdate::Entry(AltSvcEntry { host, port, expires_at })
}

/// What the first of `alternatives` that is supported asks of the cache.
pub open spec fn first_supported(
    alternatives: Seq<Seq<char>>,
    now: nat,
    origin_port: u16,
) -> AltSvcUpdateView
    decreases alternatives.len(),
{
    if alternatives.len() == 0 {
        AltSvcUpdateView::Absent
    } else {
        let first = alternative_of(text::trimmed_ws(alternatives.first()), now, origin_port);
        if first is Absent {
            first_supported(alternatives.drop_first(), now, origin_port)
        } else {
            first
        }
    }
}

/// What an `Alt-Svc` header with the value `raw` asks of the cache.
pub open spec fn update_of(raw: Seq<char>, now: nat, origin_port: u16) -> AltSvcUpdateView {
    if text::ascii_lowercased(text::trimmed_ws(raw)) == text::ascii_lowercased("clear"@) {
        AltSvcUpdateView::Clear
    } else {
        first_supported(quoted_parts(raw, ','), now, origin_port)
    }
}

/// Reads the value of an `Alt-Svc` header that arrived at `now` from an origin
/// with the port `origin_port`.
pub fn parse_str(raw: &str, now: Instant, origin_port: u16) -> (r: AltSvcUpdate)
    requires
        now.is_clock_reading(),
    ensures
        r@ == update_of(raw@, now@, origin_port),
{
    if text::eq_ignore_ascii_case(text::trim(raw, CharClass::Whitespace), "clear") {
        return AltSvcUpdate::Clear;
    }
    let alternatives = split_quoted(raw, ',');
    let ghost views = quoted_parts(raw@, ',');
    let mut i: usize = 0;
    assert(views.skip(0) == views);
    while i < alternatives.len()
        invariant
            i <= alternatives.len(),
            views == texts(alternatives@),
            now.is_clock_reading(),
            update_of(raw@, now@, origin_port) == first_supported(
                views.skip(i as int),
                now@,
                origin_port,
            ),
        decreases alternatives.len() - i,
    {
        assert(views.skip(i as int).first() == alternatives@[i as int]@);
        assert(views.skip(i as int).drop_first() == views.skip(i + 1));
        let candidate = parse_alternative(
            text::trim(alternatives[i], CharClass::Whitespace),
            now,
            origin_port,
        );
        match candidate {
            AltSvcUpdate::Absent => {},
            _ => return candidate,
        }
        i = i + 1;
    }
    AltSvcUpdate::Absent
}

/// What an `Alt-Svc` header whose value has these bytes asks of the cache. One
/// that cannot be read as text asks for nothing.
pub open spec fn header_update_of(value: Seq<u8>, now: nat, origin_port: u16) -> AltSvcUpdateView {
    match headers::visible_text(value) {
        Some(raw) => update_of(raw, now, origin_port),
        None => AltSvcUpdateView::Absent,
    }
}

/// Reads an `Alt-Svc` header.
pub fn parse_header(value: &http::HeaderValue, now: Instant, origin_port: u16) -> (r: AltSvcUpdate)
    requires
        now.is_clock_reading(),
    ensures
        r@ == header_update_of(headers::value_bytes(*value), now@, origin_port),
{
    match headers::value_str(value) {
        Some(raw) => parse_str(raw, now, origin_port),
        None => AltSvcUpdate::Absent,
    }
}

/// `parts` with `separator` between each two of them.
pub open spec fn joined(parts: Seq<Seq<char>>, separator: char) -> Seq<char>
    decreases parts.len(),
{
    if parts.len() == 0 {
        Seq::empty()
    } else if parts.len() == 1 {
        parts[0]
    } else {
        parts[0].push(separator) + joined(parts.drop_first(), separator)
    }
}

/// Splitting loses nothing: the parts with the separator between them are the
/// text that was split.
pub proof fn law_parts_rejoin(s: Seq<char>, separator: char)
    ensures
        joined(quoted_parts(s, separator), separator) == s,
    decreases s.len(),
{
    let k = unquoted_index(s, separator, 0, false);
    lemma_unquoted_index(s, separator, 0, false);
    if k < s.len() {
        let rest = quoted_parts(s.skip(k + 1), separator);
        law_parts_rejoin(s.skip(k + 1), separator);
        lemma_quoted_parts_nonempty(s.skip(k + 1), separator);
        assert(quoted_parts(s, separator).drop_first() == rest);
        assert(s == s.take(k).push(separator) + s.skip(k + 1));
    }
}

/// No part has a separator outside of quotes, so splitting a part again gives
/// that part alone.
pub proof fn law_parts_are_whole(s: Seq<char>, separator: char, i: int)
    requires
        0 <= i < quoted_parts(s, separator).len(),
    ensures
        quoted_parts(quoted_parts(s, separator)[i], separator) == seq![
            quoted_parts(s, separator)[i],
        ],
    decreases s.len(),
{
    let k = unquoted_index(s, separator, 0, false);
    lemma_unquoted_index(s, separator, 0, false);
    if k < s.len() {
        if i == 0 {
            lemma_prefix_unquoted(s, separator, 0, false);
        } else {
            law_parts_are_whole(s.skip(k + 1), separator, i - 1);
        }
    }
}

/// Where a separator is found, it stands there.
proof fn lemma_unquoted_index(s: Seq<char>, separator: char, i: int, quoted: bool)
    requires
        0 <= i <= s.len(),
    ensures
        i <= unquoted_index(s, separator, i, quoted) <= s.len(),
        unquoted_index(s, separator, i, quoted) < s.len() ==> s[unquoted_index(
            s,
            separator,
            i,
            quoted,
        )] == separator,
    decreases s.len() - i,
{
    if i < s.len() {
        if s[i] == '"' {
            lemma_unquoted_index(s, separator, i + 1, !quoted);
        } else if !(s[i] == separator && !quoted) {
            lemma_unquoted_index(s, separator, i + 1, quoted);
        }
    }
}

/// Before the first separator there is none.
proof fn lemma_prefix_unquoted(s: Seq<char>, separator: char, i: int, quoted: bool)
    requires
        0 <= i <= s.len(),
    ensures
        ({
            let k = unquoted_index(s, separator, i, quoted);
            unquoted_index(s.take(k), separator, i, quoted) == k
        }),
    decreases s.len() - i,
{
    lemma_unquoted_index(s, separator, i, quoted);
    let k = unquoted_index(s, separator, i, quoted);
    if i < s.len() {
        if s[i] == '"' {
            lemma_unquoted_index(s, separator, i + 1, !quoted);
            lemma_prefix_unquoted(s, separator, i + 1, !quoted);
            assert(s.take(k)[i] == s[i]);
        } else if !(s[i] == separator && !quoted) {
            lemma_unquoted_index(s, separator, i + 1, quoted);
            lemma_prefix_unquoted(s, separator, i + 1, quoted);
            assert(s.take(k)[i] == s[i]);
        }
    }
}

/// How many double quotes stand in `s` from index `i` on.
pub open spec fn quotes_from(s: Seq<char>, i: int) -> nat
    decreases s.len() - i,
{
    if i >= s.len() {
        0
    } else if s[i] == '"' {
        1 + quotes_from(s, i + 1)
    } else {
        quotes_from(s, i + 1)
    }
}

/// A separator outside of quotes splits: where the quotes before it are closed,
/// the parts of the whole are those before it and those after it.
pub proof fn law_separator_splits(before: Seq<char>, after: Seq<char>, separator: char)
    requires
        separator != '"',
        quotes_from(before, 0) % 2 == 0,
    ensures
        quoted_parts(before.push(separator) + after, separator) == quoted_parts(before, separator)
            + quoted_parts(after, separator),
    decreases before.len(),
{
    let s = before.push(separator) + after;
    let k = unquoted_index(before, separator, 0, false);
    lemma_unquoted_index(before, separator, 0, false);
    lemma_scan(before, after, separator, 0, false);
    if k < before.len() {
        let rest = before.skip(k + 1);
        assert(s.take(k) == before.take(k));
        assert(s.skip(k + 1) == rest.push(separator) + after);
        lemma_quotes_skip(before, k + 1, 0);
        law_separator_splits(rest, after, separator);
        assert(quoted_parts(s, separator) == seq![before.take(k)] + (quoted_parts(rest, separator)
            + quoted_parts(after, separator)));
        assert(quoted_parts(s, separator) =~= quoted_parts(before, separator) + quoted_parts(
            after,
            separator,
        ));
    } else {
        assert(s.take(k) == before);
        assert(s.skip(k + 1) == after);
    }
}

/// Looking for a separator in a text and in one that goes on: it is found at
/// the same place, or else at the one that was put behind, if the quotes are
/// closed there.
proof fn lemma_scan(before: Seq<char>, after: Seq<char>, separator: char, i: int, quoted: bool)
    requires
        separator != '"',
        0 <= i <= before.len(),
    ensures
        ({
            let s = before.push(separator) + after;
            let k = unquoted_index(before, separator, i, quoted);
            let odd = quotes_from(before, i) % 2 == 1;
            &&& k < before.len() ==> unquoted_index(s, separator, i, quoted) == k
            &&& k < before.len() ==> (odd == quoted) == (quotes_from(before, k + 1) % 2 == 0)
            &&& k == before.len() && odd == quoted ==> unquoted_index(s, separator, i, quoted) == k
        }),
    decreases before.len() - i,
{
    let s = before.push(separator) + after;
    if i < before.len() {
        assert(s[i] == before[i]);
        if before[i] == '"' {
            lemma_scan(before, after, separator, i + 1, !quoted);
        } else if !(before[i] == separator && !quoted) {
            lemma_scan(before, after, separator, i + 1, quoted);
        }
        lemma_unquoted_index(before, separator, i, quoted);
    } else {
        assert(s[i] == separator);
    }
}

/// The quotes of a rest are those of the whole from there on.
proof fn lemma_quotes_skip(s: Seq<char>, n: int, i: int)
    requires
        0 <= n <= s.len(),
        0 <= i <= s.len() - n,
    ensures
        quotes_from(s.skip(n), i) == quotes_from(s, n + i),
    decreases s.len() - n - i,
{
    if i < s.len() - n {
        lemma_quotes_skip(s, n, i + 1);
    }
}

/// A text without the separator is one part, and so is one that stands in
/// quotes as a whole.
pub proof fn law_quoted_text_is_one_part(s: Seq<char>, separator: char)
    requires
        separator != '"',
    ensures
        !s.contains(separator) ==> quoted_parts(s, separator) == seq![s],
        !s.contains('"') ==> quoted_parts(seq!['"'] + s + seq!['"'], separator) == seq![
            seq!['"'] + s + seq!['"'],
        ],
{
    if !s.contains(separator) {
        lemma_unquoted_index(s, separator, 0, false);
    }
    if !s.contains('"') {
        let whole = seq!['"'] + s + seq!['"'];
        assert forall|j: int| 1 <= j < whole.len() - 1 implies whole[j] != '"' by {
            assert(whole[j] == s[j - 1]);
        }
        lemma_inside_quotes(whole, separator, 1);
    }
}

/// Up to the closing quote nothing splits.
proof fn lemma_inside_quotes(s: Seq<char>, separator: char, i: int)
    requires
        separator != '"',
        1 <= i < s.len(),
        s.last() == '"',
        forall|j: int| 1 <= j < s.len() - 1 ==> s[j] != '"',
    ensures
        unquoted_index(s, separator, i, true) == s.len(),
    decreases s.len() - i,
{
    if i < s.len() - 1 {
        lemma_inside_quotes(s, separator, i + 1);
    } else {
        assert(unquoted_index(s, separator, i + 1, false) == s.len());
    }
}

/// The text of an authority: a quoted port, after a host if there is one.
pub open spec fn authority_text(host: Seq<char>, port: u16) -> Seq<char> {
    "\""@ + host + ":"@ + text::decimal(port as nat) + "\""@
}

/// Whether `host` can stand in an authority as it is: a host name, or an address
/// without its brackets.
pub open spec fn is_plain_host(host: Seq<char>) -> bool {
    &&& host.len() > 0
    &&& host.first() != ':'
    &&& text::has_firm_ends(host, CharClass::Bracket)
    &&& is_quotable(host)
}

/// Whether `s` holds none of the characters that a header is split at.
pub open spec fn is_quotable(s: Seq<char>) -> bool {
    !s.contains('"') && !s.contains(',') && !s.contains(';')
}

/// Reading an authority gives back what was written: its port and no host, its
/// port and its host, or its port and the address in brackets.
pub proof fn law_authority_reads_back(host: Seq<char>, port: u16, origin_port: u16)
    ensures
        authority_of(authority_text(Seq::empty(), port), origin_port) == Some(
            (None::<Seq<char>>, port),
        ),
        is_plain_host(host) ==> authority_of(authority_text(host, port), origin_port) == Some(
            (Some(host), port),
        ),
        host.len() > 0 && text::has_firm_ends(host, CharClass::Bracket) ==> authority_of(
            authority_text("["@ + host + "]"@, port),
            origin_port,
        ) == Some((Some(host), port)),
{
    reveal_strlit("[");
    reveal_strlit("]");
    let none = Seq::<char>::empty();
    lemma_authority(none, port, origin_port);
    if is_plain_host(host) {
        lemma_authority(host, port, origin_port);
        text::law_trim_takes_what_stands_around(none, host, none, CharClass::Bracket);
        assert(none + host + none == host);
    }
    if host.len() > 0 && text::has_firm_ends(host, CharClass::Bracket) {
        let written = "["@ + host + "]"@;
        lemma_authority(written, port, origin_port);
        text::law_trim_takes_what_stands_around("["@, host, "]"@, CharClass::Bracket);
    }
}

/// What an authority with this text in front of the port says.
proof fn lemma_authority(written: Seq<char>, port: u16, origin_port: u16)
    ensures
        written.len() == 0 ==> authority_of(authority_text(written, port), origin_port) == Some(
            (None::<Seq<char>>, port),
        ),
        written.len() > 0 && written.first() != ':' && text::trimmed(
            written,
            CharClass::Bracket,
        ).len() > 0 ==> authority_of(authority_text(written, port), origin_port) == Some(
            (Some(text::trimmed(written, CharClass::Bracket)), port),
        ),
{
    reveal_strlit("\"");
    reveal_strlit(":");
    let digits = text::decimal(port as nat);
    let authority = written + ":"@ + digits;
    let raw = authority_text(written, port);
    text::lemma_decimal_is_digits(port as nat);
    text::law_decimal_round_trip(port as nat, u16::MAX as nat);
    assert(raw.drop_first() == authority + "\""@);
    assert((authority + "\""@).drop_last() == authority);
    assert(!digits.contains(':'));
    assert(authority == written.push(':') + digits);
    if written.len() == 0 {
        assert(authority.drop_first() == digits);
    } else {
        assert(authority.first() == written.first());
        text::law_rsplit_once_undoes_joining(written, digits, ':');
    }
}

/// The text of a header that offers HTTP/3 at an authority.
pub open spec fn offer_text(authority: Seq<char>) -> Seq<char> {
    "h3="@ + authority
}

/// The text of a header that offers HTTP/3 at an authority for a number of
/// seconds.
pub open spec fn timed_offer_text(authority: Seq<char>, seconds: nat) -> Seq<char> {
    "h3="@ + authority + "; ma="@ + text::decimal(seconds)
}

/// Reading a header gives back the port that was written, no host, and exactly
/// the number of seconds that was written; without seconds it is a day.
pub proof fn law_offered_port_reads_back(port: u16, seconds: u64, now: nat, origin_port: u16)
    ensures
        ({
            let authority = authority_text(Seq::empty(), port);
            let nanos = now + seconds * 1_000_000_000;
            &&& update_of(timed_offer_text(authority, seconds as nat), now, origin_port)
                == AltSvcUpdateView::Entry(
                AltSvcEntryView { host: None, port, expires_at: nanos as nat },
            )
            &&& update_of(offer_text(authority), now, origin_port) == AltSvcUpdateView::Entry(
                AltSvcEntryView { host: None, port, expires_at: now + 86_400_000_000_000 },
            )
        }),
{
    let authority = authority_text(Seq::empty(), port);
    law_authority_reads_back(Seq::empty(), port, origin_port);
    lemma_authority_text(Seq::empty(), port);
    lemma_offer(authority, seconds as nat, now, origin_port);
}

/// Reading a header gives back the host and the port that were written, and
/// exactly the number of seconds that was written; without seconds it is a day.
pub proof fn law_offered_host_reads_back(
    host: Seq<char>,
    port: u16,
    seconds: u64,
    now: nat,
    origin_port: u16,
)
    requires
        is_plain_host(host),
    ensures
        ({
            let authority = authority_text(host, port);
            let nanos = now + seconds * 1_000_000_000;
            &&& update_of(timed_offer_text(authority, seconds as nat), now, origin_port)
                == AltSvcUpdateView::Entry(
                AltSvcEntryView { host: Some(host), port, expires_at: nanos as nat },
            )
            &&& update_of(offer_text(authority), now, origin_port) == AltSvcUpdateView::Entry(
                AltSvcEntryView { host: Some(host), port, expires_at: now + 86_400_000_000_000 },
            )
        }),
{
    let authority = authority_text(host, port);
    law_authority_reads_back(host, port, origin_port);
    lemma_authority_text(host, port);
    lemma_offer(authority, seconds as nat, now, origin_port);
}

/// An authority is quoted, and only its ends are quotes.
proof fn lemma_authority_text(host: Seq<char>, port: u16)
    requires
        is_quotable(host),
    ensures
        ({
            let authority = authority_text(host, port);
            &&& authority.len() > 2
            &&& authority.first() == '"'
            &&& authority.last() == '"'
            &&& forall|i: int| 0 < i < authority.len() - 1 ==> authority[i] != '"'
            &&& !authority.contains(',')
            &&& !authority.contains(';')
        }),
{
    reveal_strlit("\"");
    reveal_strlit(":");
    let digits = text::decimal(port as nat);
    text::lemma_decimal_is_digits(port as nat);
    let authority = authority_text(host, port);
    assert forall|i: int| 0 < i < authority.len() - 1 implies authority[i] != '"' && authority[i]
        != ',' && authority[i] != ';' by {
        if i <= host.len() {
            assert(authority[i] == host[i - 1]);
        } else if i > host.len() + 1 {
            assert(authority[i] == digits[i - host.len() - 2]);
        }
    }
}

/// A header with one alternative offers what its authority says, for as long as
/// its parameter says.
proof fn lemma_offer(authority: Seq<char>, seconds: nat, now: nat, origin_port: u16)
    requires
        seconds <= u64::MAX,
        authority.len() > 2,
        authority.first() == '"',
        authority.last() == '"',
        forall|i: int| 0 < i < authority.len() - 1 ==> authority[i] != '"',
        !authority.contains(','),
        !authority.contains(';'),
        authority_of(authority, origin_port) is Some,
    ensures
        ({
            let (host, port) = authority_of(authority, origin_port)->0;
            &&& update_of(timed_offer_text(authority, seconds), now, origin_port)
                == AltSvcUpdateView::Entry(
                AltSvcEntryView { host, port, expires_at: now + seconds * 1_000_000_000 },
            )
            &&& update_of(offer_text(authority), now, origin_port) == AltSvcUpdateView::Entry(
                AltSvcEntryView { host, port, expires_at: now + 86_400_000_000_000 },
            )
        }),
{
    reveal_strlit("h3");
    reveal_strlit("h3=");
    reveal_strlit("; ma=");
    reveal_strlit("ma");
    let none = Seq::<char>::empty();
    let digits = text::decimal(seconds);
    text::lemma_decimal_is_digits(seconds);
    text::law_decimal_round_trip(seconds, u64::MAX as nat);
    let param = seq![' ', 'm', 'a', '='] + digits;
    let timed = authority.push(';') + param;
    assert(timed_offer_text(authority, seconds) == "h3="@ + timed);
    // The parameter.
    assert(!param.contains(',') && !param.contains(';')) by {
        assert forall|i: int| 0 <= i < param.len() implies param[i] != ',' && param[i] != ';' by {
            if i >= 4 {
                assert(param[i] == digits[i - 4]);
            }
        }
    }
    let trimmed_param = seq!['m', 'a', '='] + digits;
    assert(param == seq![' '] + trimmed_param + none);
    assert(trimmed_param.last() == digits.last());
    assert(text::is_digit(digits[digits.len() - 1]));
    assert(text::is_digit(digits[0]));
    text::law_trim_takes_what_stands_around(
        seq![' '],
        trimmed_param,
        none,
        CharClass::Whitespace,
    );
    assert(trimmed_param == "ma"@.push('=') + digits);
    text::law_split_once_undoes_joining("ma"@, digits, '=');
    text::law_trim_takes_what_stands_around(none, "ma"@, none, CharClass::Whitespace);
    assert(none + "ma"@ + none == "ma"@);
    text::law_trim_takes_what_stands_around(none, digits, none, CharClass::Whitespace);
    text::law_trim_takes_what_stands_around(none, digits, none, CharClass::Quote);
    assert(none + digits + none == digits);
    assert(max_age_param(param) == Some(seconds));
    // The alternative.
    lemma_closed_quotes(authority);
    law_separator_splits(authority, param, ';');
    law_quoted_text_is_one_part(authority, ';');
    law_quoted_text_is_one_part(param, ';');
    text::law_trim_takes_what_stands_around(none, authority, none, CharClass::Whitespace);
    assert(none + authority + none == authority);
    assert(quoted_parts(timed, ';') == seq![authority, param]);
    assert(quoted_parts(timed, ';').drop_first() == seq![param]);
    assert(seq![param].drop_last() == Seq::<Seq<char>>::empty());
    assert(max_age_of(seq![param]) == seconds);
    assert(quoted_parts(authority, ';').drop_first() == Seq::<Seq<char>>::empty());
    assert(max_age_of(Seq::<Seq<char>>::empty()) == 86_400);
    lemma_h3_offer(timed, now, origin_port);
    lemma_h3_offer(authority, now, origin_port);
    assert(!timed.contains(',')) by {
        assert forall|i: int| 0 <= i < timed.len() implies timed[i] != ',' by {
            if i < authority.len() {
                assert(timed[i] == authority[i]);
            } else if i > authority.len() {
                assert(timed[i] == param[i - authority.len() - 1]);
            }
        }
    }
    assert(timed.last() == digits.last());
    lemma_single_offer(timed, now, origin_port);
    lemma_single_offer(authority, now, origin_port);
}

/// A text with a quote at each end and none between has an even number of them.
proof fn lemma_closed_quotes(s: Seq<char>)
    requires
        s.len() >= 2,
        s.first() == '"',
        s.last() == '"',
        forall|i: int| 0 < i < s.len() - 1 ==> s[i] != '"',
    ensures
        quotes_from(s, 0) == 2,
{
    lemma_last_quote(s, 1);
}

/// From behind the first quote on there is one more.
proof fn lemma_last_quote(s: Seq<char>, i: int)
    requires
        1 <= i < s.len(),
        s.last() == '"',
        forall|j: int| 0 < j < s.len() - 1 ==> s[j] != '"',
    ensures
        quotes_from(s, i) == 1,
    decreases s.len() - i,
{
    if i < s.len() - 1 {
        lemma_last_quote(s, i + 1);
    } else {
        assert(quotes_from(s, i + 1) == 0);
    }
}

/// What an alternative for `h3` offers.
proof fn lemma_h3_offer(rest: Seq<char>, now: nat, origin_port: u16)
    ensures
        ({
            let parts = quoted_parts(rest, ';');
            alternative_of("h3="@ + rest, now, origin_port) == match authority_of(
                text::trimmed_ws(parts.first()),
                origin_port,
            ) {
                None => AltSvcUpdateView::Absent,
                Some((host, port)) => AltSvcUpdateView::Entry(
                    AltSvcEntryView {
                        host,
                        port,
                        expires_at: now + max_age_of(parts.drop_first()) * 1_000_000_000,
                    },
                ),
            }
        }),
{
    reveal_strlit("h3");
    reveal_strlit("h3=");
    let none = Seq::<char>::empty();
    assert("h3="@ + rest == "h3"@.push('=') + rest);
    text::law_split_once_undoes_joining("h3"@, rest, '=');
    text::law_trim_takes_what_stands_around(none, "h3"@, none, CharClass::Whitespace);
    assert(none + "h3"@ + none == "h3"@);
}

/// A header with one alternative asks for what that alternative does.
proof fn lemma_single_offer(rest: Seq<char>, now: nat, origin_port: u16)
    requires
        rest.len() > 0,
        !rest.contains(','),
        !text::is_whitespace(rest.last()),
    ensures
        update_of("h3="@ + rest, now, origin_port) == alternative_of(
            "h3="@ + rest,
            now,
            origin_port,
        ),
{
    reveal_strlit("h3=");
    reveal_strlit("clear");
    let none = Seq::<char>::empty();
    let raw = "h3="@ + rest;
    assert(raw.last() == rest.last());
    text::law_trim_takes_what_stands_around(none, raw, none, CharClass::Whitespace);
    assert(none + raw + none == raw);
    assert(text::ascii_lowercased(raw)[0] == 'h');
    assert(text::ascii_lowercased("clear"@)[0] == 'c');
    assert(!raw.contains(',')) by {
        assert forall|i: int| 0 <= i < raw.len() implies raw[i] != ',' by {
            if i >= 3 {
                assert(raw[i] == rest[i - 3]);
            }
        }
    }
    law_quoted_text_is_one_part(raw, ',');
    assert(quoted_parts(raw, ',').first() == raw);
    assert(quoted_parts(raw, ',').drop_first() == Seq::<Seq<char>>::empty());
    assert(first_supported(Seq::<Seq<char>>::empty(), now, origin_port) is Absent);
}

/// A header clears the cache if and only if it is the word `clear`, in whatever
/// case and with whatever whitespace around it.
pub proof fn law_clear_is_a_word(
    before: Seq<char>,
    word: Seq<char>,
    after: Seq<char>,
    now: nat,
    origin_port: u16,
)
    requires
        text::all_in(before, CharClass::Whitespace),
        text::all_in(after, CharClass::Whitespace),
        text::has_firm_ends(word, CharClass::Whitespace),
    ensures
        update_of(before + word + after, now, origin_port) is Clear <==> text::ascii_lowercased(
            word,
        ) == "clear"@,
{
    reveal_strlit("clear");
    text::law_trim_takes_what_stands_around(before, word, after, CharClass::Whitespace);
    assert(text::ascii_lowercased("clear"@) == "clear"@);
    lemma_no_clear(quoted_parts(before + word + after, ','), now, origin_port);
}

/// No alternative clears the cache.
proof fn lemma_no_clear(alternatives: Seq<Seq<char>>, now: nat, origin_port: u16)
    ensures
        !(first_supported(alternatives, now, origin_port) is Clear),
    decreases alternatives.len(),
{
    if alternatives.len() > 0 {
        lemma_no_clear(alternatives.drop_first(), now, origin_port);
    }
}

/// Of two headers with a comma between them, the former counts if it offers a
/// supported alternative, and else the latter.
pub proof fn law_earlier_alternative_goes_first(
    a: Seq<char>,
    b: Seq<char>,
    now: nat,
    origin_port: u16,
)
    requires
        quotes_from(a, 0) % 2 == 0,
        !(update_of(a, now, origin_port) is Clear),
        !(update_of(b, now, origin_port) is Clear),
    ensures
        update_of(a.push(',') + b, now, origin_port) == (if update_of(a, now, origin_port)
            is Absent {
            update_of(b, now, origin_port)
        } else {
            update_of(a, now, origin_port)
        }),
{
    lemma_list_is_not_clear(a, b);
    law_separator_splits(a, b, ',');
    lemma_first_of_both(quoted_parts(a, ','), quoted_parts(b, ','), now, origin_port);
}

/// The first supported alternative of two lists is that of the former, or else
/// that of the latter.
proof fn lemma_first_of_both(
    a: Seq<Seq<char>>,
    b: Seq<Seq<char>>,
    now: nat,
    origin_port: u16,
)
    ensures
        first_supported(a + b, now, origin_port) == (if first_supported(a, now, origin_port)
            is Absent {
            first_supported(b, now, origin_port)
        } else {
            first_supported(a, now, origin_port)
        }),
    decreases a.len(),
{
    if a.len() > 0 {
        assert((a + b).first() == a.first());
        assert((a + b).drop_first() == a.drop_first() + b);
        lemma_first_of_both(a.drop_first(), b, now, origin_port);
    } else {
        assert(a + b == b);
    }
}

/// Only the protocol `h3` is supported: an alternative for any other, and one
/// that names none, is no offer.
pub proof fn law_other_protocols_are_no_offer(
    protocol: Seq<char>,
    rest: Seq<char>,
    now: nat,
    origin_port: u16,
)
    requires
        !protocol.contains('='),
        text::has_firm_ends(protocol, CharClass::Whitespace),
    ensures
        protocol != "h3"@ ==> alternative_of(protocol.push('=') + rest, now, origin_port)
            is Absent,
        alternative_of(protocol, now, origin_port) is Absent,
{
    let none = Seq::<char>::empty();
    text::law_split_once_undoes_joining(protocol, rest, '=');
    text::law_trim_takes_what_stands_around(none, protocol, none, CharClass::Whitespace);
    assert(none + protocol + none == protocol);
}

/// The text of a parameter of an alternative.
pub open spec fn param_text(name: Seq<char>, value: Seq<char>) -> Seq<char> {
    "; "@ + name + "="@ + value
}

/// The last maximum age of an alternative counts, whatever the case of its name,
/// and in quotes or not: it replaces what was offered before, and nothing else of
/// it.
pub proof fn law_last_age_counts(
    rest: Seq<char>,
    name: Seq<char>,
    open: Seq<char>,
    number: Seq<char>,
    close: Seq<char>,
    seconds: u64,
    now: nat,
    origin_port: u16,
)
    requires
        quotes_from(rest, 0) % 2 == 0,
        alternative_of("h3="@ + rest, now, origin_port) is Entry,
        text::ascii_lowercased(name) == "ma"@,
        text::all_in(open, CharClass::Quote),
        text::all_in(close, CharClass::Quote),
        text::parsed_unsigned(number, 0xffff_ffff_ffff_ffff) == Some(seconds as nat),
    ensures
        ({
            let offered = alternative_of("h3="@ + rest, now, origin_port)->Entry_0;
            let nanos = now + seconds * 1_000_000_000;
            alternative_of(
                "h3="@ + (rest + param_text(name, open + number + close)),
                now,
                origin_port,
            ) == AltSvcUpdateView::Entry(AltSvcEntryView { expires_at: nanos as nat, ..offered })
        }),
{
    reveal_strlit("ma");
    let value = open + number + close;
    text::law_numbers_are_digits(number, u64::MAX as nat);
    assert(text::ascii_lowercased("ma"@) == "ma"@);
    assert forall|i: int| 0 <= i < name.len() implies name[i] != '=' && name[i] != ';'
        && !text::is_whitespace(name[i]) by {
        text::law_lower_case_is_by_letter(name, i);
        assert(text::ascii_lowercased(name)[i] == "ma"@[i]);
    }
    assert(text::ascii_lowercased(name).len() == name.len());
    assert forall|i: int| 0 <= i < number.len() implies text::is_digit(#[trigger] number[i])
        || number[i] == '+' by {}
    assert forall|i: int| 0 <= i < value.len() implies value[i] != ';' && !text::is_whitespace(
        value[i],
    ) by {
        if i < open.len() {
            assert(value[i] == open[i]);
        } else if i < open.len() + number.len() {
            assert(value[i] == number[i - open.len()]);
        } else {
            assert(value[i] == close[i - open.len() - number.len()]);
        }
    }
    text::law_trim_takes_what_stands_around(open, number, close, CharClass::Quote);
    lemma_param(rest, name, value, now, origin_port);
}

/// A parameter of another name than `ma`, and a maximum age that is no number,
/// change nothing of what an alternative offers.
pub proof fn law_other_parameters_change_nothing(
    rest: Seq<char>,
    name: Seq<char>,
    value: Seq<char>,
    now: nat,
    origin_port: u16,
)
    requires
        quotes_from(rest, 0) % 2 == 0,
        alternative_of("h3="@ + rest, now, origin_port) is Entry,
        !name.contains('='),
        !name.contains(';'),
        !value.contains(';'),
        name.len() > 0 && value.len() > 0,
        text::has_firm_ends(name, CharClass::Whitespace),
        text::has_firm_ends(value, CharClass::Whitespace),
        text::has_firm_ends(value, CharClass::Quote),
        text::ascii_lowercased(name) != "ma"@ || text::parsed_unsigned(
            value,
            0xffff_ffff_ffff_ffff,
        ) is None,
    ensures
        alternative_of("h3="@ + (rest + param_text(name, value)), now, origin_port)
            == alternative_of("h3="@ + rest, now, origin_port),
{
    reveal_strlit("ma");
    let none = Seq::<char>::empty();
    assert(text::ascii_lowercased("ma"@) == "ma"@);
    text::law_trim_takes_what_stands_around(none, value, none, CharClass::Quote);
    assert(none + value + none == value);
    lemma_param(rest, name, value, now, origin_port);
}

/// What a parameter that is put behind an alternative does to its parts.
proof fn lemma_param(
    rest: Seq<char>,
    name: Seq<char>,
    value: Seq<char>,
    now: nat,
    origin_port: u16,
)
    requires
        quotes_from(rest, 0) % 2 == 0,
        !name.contains('='),
        !name.contains(';'),
        !value.contains(';'),
        name.len() > 0 && value.len() > 0,
        text::has_firm_ends(name, CharClass::Whitespace),
        text::has_firm_ends(value, CharClass::Whitespace),
    ensures
        ({
            let parts = quoted_parts(rest, ';');
            let written = rest + param_text(name, value);
            let age = if text::ascii_lowercased(name) == text::ascii_lowercased("ma"@) {
                text::parsed_unsigned(text::trimmed(value, CharClass::Quote), u64::MAX as nat)
            } else {
                None
            };
            alternative_of("h3="@ + written, now, origin_port) == match authority_of(
                text::trimmed_ws(parts.first()),
                origin_port,
            ) {
                None => AltSvcUpdateView::Absent,
                Some((host, port)) => AltSvcUpdateView::Entry(
                    AltSvcEntryView {
                        host,
                        port,
                        expires_at: now + (match age {
                            Some(seconds) => seconds,
                            None => max_age_of(parts.drop_first()),
                        }) * 1_000_000_000,
                    },
                ),
            }
        }),
        ({
            let parts = quoted_parts(rest, ';');
            alternative_of("h3="@ + rest, now, origin_port) == match authority_of(
                text::trimmed_ws(parts.first()),
                origin_port,
            ) {
                None => AltSvcUpdateView::Absent,
                Some((host, port)) => AltSvcUpdateView::Entry(
                    AltSvcEntryView {
                        host,
                        port,
                        expires_at: now + max_age_of(parts.drop_first()) * 1_000_000_000,
                    },
                ),
            }
        }),
{
    reveal_strlit("; ");
    reveal_strlit("=");
    let none = Seq::<char>::empty();
    let bare = name.push('=') + value;
    let param = seq![' '] + bare;
    let written = rest + param_text(name, value);
    let parts = quoted_parts(rest, ';');
    assert(written == rest.push(';') + param);
    assert(!param.contains(';')) by {
        assert forall|i: int| 0 <= i < param.len() implies param[i] != ';' by {
            if 1 <= i <= name.len() {
                assert(param[i] == name[i - 1]);
            } else if i > name.len() + 1 {
                assert(param[i] == value[i - name.len() - 2]);
            }
        }
    }
    law_separator_splits(rest, param, ';');
    law_quoted_text_is_one_part(param, ';');
    lemma_quoted_parts_nonempty(rest, ';');
    let all = quoted_parts(written, ';');
    assert(all == parts.push(param));
    assert(all.first() == parts.first());
    assert(all.drop_first() == parts.drop_first().push(param));
    assert(all.drop_first().drop_last() == parts.drop_first());
    assert(bare.first() == name.first());
    assert(bare.last() == value.last());
    text::law_trim_takes_what_stands_around(seq![' '], bare, none, CharClass::Whitespace);
    assert(seq![' '] + bare + none == param);
    text::law_split_once_undoes_joining(name, value, '=');
    text::law_trim_takes_what_stands_around(none, name, none, CharClass::Whitespace);
    assert(none + name + none == name);
    text::law_trim_takes_what_stands_around(none, value, none, CharClass::Whitespace);
    assert(none + value + none == value);
    lemma_h3_offer(written, now, origin_port);
    lemma_h3_offer(rest, now, origin_port);
}

/// A header of visible characters is read as the text that it holds; one that
/// holds another byte asks for nothing.
pub proof fn law_header_is_read_as_text(
    raw: Seq<char>,
    value: Seq<u8>,
    now: nat,
    origin_port: u16,
)
    requires
        forall|i: int| 0 <= i < raw.len() ==> (raw[i] == '\t' || ' ' <= #[trigger] raw[i] <= '~'),
    ensures
        header_update_of(vstd::utf8::encode_utf8(raw), now, origin_port) == update_of(
            raw,
            now,
            origin_port,
        ),
        (exists|i: int|
            0 <= i < value.len() && {
                let b = #[trigger] value[i];
                b != 9 && !(32 <= b < 127)
            }) ==> header_update_of(value, now, origin_port) is Absent,
{
    headers::lemma_visible_text(raw);
    if exists|i: int|
        0 <= i < value.len() && {
            let b = #[trigger] value[i];
            b != 9 && !(32 <= b < 127)
        } {
        let i = choose|i: int|
            0 <= i < value.len() && {
                let b = #[trigger] value[i];
                b != 9 && !(32 <= b < 127)
            };
        assert(!headers::is_visible_byte(value[i]));
    }
}

/// What is said of an alternative, and of what is asked of the cache, is what
/// they hold.
pub proof fn law_views_of_offers(entry: AltSvcEntry, parts: Seq<&str>)
    ensures
        entry@.port == entry.port,
        entry@.expires_at == entry.expires_at@,
        entry.host matches Some(host) ==> entry@.host == Some(host@),
        entry.host is None ==> entry@.host is None,
        AltSvcUpdate::Clear@ is Clear,
        AltSvcUpdate::Absent@ is Absent,
        AltSvcUpdate::Entry(entry)@ == AltSvcUpdateView::Entry(entry@),
        texts(parts).len() == parts.len(),
        forall|i: int| 0 <= i < parts.len() ==> #[trigger] texts(parts)[i] == parts[i]@,
{
}

/// An authority that is not quoted on both sides, and one without a colon, name
/// nothing.
pub proof fn law_malformed_authorities(s: Seq<char>, origin_port: u16)
    ensures
        s.len() > 0 && s.first() != '"' ==> authority_of(s, origin_port) is None,
        s.len() > 0 && s.last() != '"' ==> authority_of("\""@ + s, origin_port) is None,
        !s.contains(':') ==> authority_of("\""@ + s + "\""@, origin_port) is None,
        authority_of("\""@, origin_port) is None,
        authority_of(Seq::empty(), origin_port) is None,
{
    reveal_strlit("\"");
    let none = Seq::<char>::empty();
    let open = "\""@ + s;
    assert(open.drop_first() == s);
    if !s.contains(':') {
        let raw = "\""@ + s + "\""@;
        assert(raw.drop_first() == s + "\""@);
        assert((s + "\""@).drop_last() == s);
        if s.len() > 0 {
            assert(s.contains(s[0]));
        }
        text::law_rsplit_once_undoes_joining(none, s, ':');
    }
    assert("\""@.drop_first() == none);
}

/// The text of a header that offers HTTP/3 at an authority, with whitespace where
/// it may stand.
pub open spec fn spaced_offer_text(spaces: Seq<Seq<char>>, authority: Seq<char>) -> Seq<char> {
    spaces[0] + "h3"@ + spaces[1] + "="@ + spaces[2] + authority + spaces[3]
}

/// The text of the maximum age of an alternative, with whitespace where it may
/// stand.
pub open spec fn spaced_age_text(spaces: Seq<Seq<char>>, seconds: nat) -> Seq<char> {
    spaces[4] + "ma"@ + spaces[5] + "="@ + spaces[6] + text::decimal(seconds) + spaces[7]
}

/// Whitespace in a header changes nothing of what it offers, wherever it stands
/// between the words, the numbers and the signs.
pub proof fn law_spaces_change_no_offer(
    spaces: Seq<Seq<char>>,
    host: Seq<char>,
    port: u16,
    seconds: u64,
    now: nat,
    origin_port: u16,
)
    requires
        spaces.len() == 8,
        forall|i: int|
            0 <= i < 8 ==> text::all_in(#[trigger] spaces[i], CharClass::Whitespace),
        host.len() == 0 || is_plain_host(host),
    ensures
        ({
            let authority = authority_text(host, port);
            let spaced = spaced_offer_text(spaces, authority);
            let timed = spaced + ";"@ + spaced_age_text(spaces, seconds as nat);
            &&& update_of(spaced, now, origin_port) == update_of(
                offer_text(authority),
                now,
                origin_port,
            )
            &&& update_of(timed, now, origin_port) == update_of(
                timed_offer_text(authority, seconds as nat),
                now,
                origin_port,
            )
        }),
{
    let authority = authority_text(host, port);
    if host.len() == 0 {
        assert(host =~= Seq::<char>::empty());
        law_offered_port_reads_back(port, seconds, now, origin_port);
    } else {
        law_offered_host_reads_back(host, port, seconds, now, origin_port);
    }
    law_authority_reads_back(host, port, origin_port);
    lemma_authority_text(host, port);
    assert(text::all_in(spaces[0], CharClass::Whitespace));
    assert(text::all_in(spaces[1], CharClass::Whitespace));
    assert(text::all_in(spaces[2], CharClass::Whitespace));
    assert(text::all_in(spaces[3], CharClass::Whitespace));
    assert(text::all_in(spaces[4], CharClass::Whitespace));
    assert(text::all_in(spaces[5], CharClass::Whitespace));
    assert(text::all_in(spaces[6], CharClass::Whitespace));
    assert(text::all_in(spaces[7], CharClass::Whitespace));
    lemma_spaced_offer(spaces, authority, now, origin_port);
    lemma_spaced_age(spaces, authority, seconds as nat, now, origin_port);
}

/// An offer without an age and with whitespace offers what its authority says.
proof fn lemma_spaced_offer(
    spaces: Seq<Seq<char>>,
    authority: Seq<char>,
    now: nat,
    origin_port: u16,
)
    requires
        text::all_in(spaces[0], CharClass::Whitespace),
        text::all_in(spaces[1], CharClass::Whitespace),
        text::all_in(spaces[2], CharClass::Whitespace),
        text::all_in(spaces[3], CharClass::Whitespace),
        authority.len() > 2,
        authority.first() == '"',
        authority.last() == '"',
        !authority.contains(','),
        !authority.contains(';'),
        authority_of(authority, origin_port) is Some,
    ensures
        ({
            let (host, port) = authority_of(authority, origin_port)->0;
            update_of(spaced_offer_text(spaces, authority), now, origin_port)
                == AltSvcUpdateView::Entry(
                AltSvcEntryView { host, port, expires_at: now + 86_400_000_000_000 },
            )
        }),
{
    reveal_strlit("=");
    let none = Seq::<char>::empty();
    let rest = spaces[2] + authority;
    lemma_spaces_separate_nothing(spaces[2]);
    lemma_lacks(spaces[2], authority, ';');
    lemma_lacks(spaces[2], authority, ',');
    law_quoted_text_is_one_part(rest, ';');
    text::law_trim_takes_what_stands_around(spaces[2], authority, none, CharClass::Whitespace);
    assert(rest + none == rest);
    assert(quoted_parts(rest, ';').first() == rest);
    assert(quoted_parts(rest, ';').drop_first() == Seq::<Seq<char>>::empty());
    assert(max_age_of(Seq::<Seq<char>>::empty()) == 86_400);
    lemma_spaced(spaces[0], spaces[1], rest, spaces[3], now, origin_port);
    assert(spaced_offer_text(spaces, authority) == spaces[0] + ("h3"@ + spaces[1]).push('=') + rest
        + spaces[3]);
}

/// An offer with an age and with whitespace offers what its authority says, for
/// as long as the age says.
proof fn lemma_spaced_age(
    spaces: Seq<Seq<char>>,
    authority: Seq<char>,
    seconds: nat,
    now: nat,
    origin_port: u16,
)
    requires
        text::all_in(spaces[0], CharClass::Whitespace),
        text::all_in(spaces[1], CharClass::Whitespace),
        text::all_in(spaces[2], CharClass::Whitespace),
        text::all_in(spaces[3], CharClass::Whitespace),
        text::all_in(spaces[4], CharClass::Whitespace),
        text::all_in(spaces[5], CharClass::Whitespace),
        text::all_in(spaces[6], CharClass::Whitespace),
        text::all_in(spaces[7], CharClass::Whitespace),
        seconds <= u64::MAX,
        authority.len() > 2,
        authority.first() == '"',
        authority.last() == '"',
        forall|i: int| 0 < i < authority.len() - 1 ==> authority[i] != '"',
        !authority.contains(','),
        !authority.contains(';'),
        authority_of(authority, origin_port) is Some,
    ensures
        ({
            let (host, port) = authority_of(authority, origin_port)->0;
            let timed = spaced_offer_text(spaces, authority) + ";"@ + spaced_age_text(
                spaces,
                seconds,
            );
            update_of(timed, now, origin_port) == AltSvcUpdateView::Entry(
                AltSvcEntryView { host, port, expires_at: now + seconds * 1_000_000_000 },
            )
        }),
{
    let digits = text::decimal(seconds);
    let front = spaces[2] + authority + spaces[3];
    let shown = spaces[4] + ("ma"@ + spaces[5]).push('=') + spaces[6] + digits;
    let whole = front.push(';') + shown;
    lemma_front(spaces[2], authority, spaces[3]);
    lemma_age(spaces[4], spaces[5], spaces[6], seconds);
    law_separator_splits(front, shown, ';');
    law_quoted_text_is_one_part(front, ';');
    law_quoted_text_is_one_part(shown, ';');
    assert(quoted_parts(whole, ';') == seq![front, shown]);
    assert(quoted_parts(whole, ';').drop_first() == seq![shown]);
    assert(seq![shown].drop_last() == Seq::<Seq<char>>::empty());
    assert(max_age_of(seq![shown]) == seconds);
    text::law_trim_takes_what_stands_around(
        spaces[2],
        authority,
        spaces[3],
        CharClass::Whitespace,
    );
    lemma_lacks(front, seq![';'], ',');
    assert(front + seq![';'] == front.push(';'));
    lemma_lacks(front.push(';'), shown, ',');
    text::lemma_decimal_is_digits(seconds);
    assert(text::is_digit(digits[digits.len() - 1]));
    assert(whole.last() == digits.last());
    lemma_spaced(spaces[0], spaces[1], whole, spaces[7], now, origin_port);
    lemma_regrouped(spaces, authority, seconds);
}

/// Whitespace around an authority adds no sign to it.
proof fn lemma_front(before: Seq<char>, authority: Seq<char>, after: Seq<char>)
    requires
        text::all_in(before, CharClass::Whitespace),
        text::all_in(after, CharClass::Whitespace),
        authority.len() > 2,
        authority.first() == '"',
        authority.last() == '"',
        forall|i: int| 0 < i < authority.len() - 1 ==> authority[i] != '"',
        !authority.contains(','),
        !authority.contains(';'),
    ensures
        !(before + authority + after).contains(','),
        !(before + authority + after).contains(';'),
        quotes_from(before + authority + after, 0) == 2,
{
    lemma_spaces_separate_nothing(before);
    lemma_spaces_separate_nothing(after);
    lemma_lacks(before, authority, ';');
    lemma_lacks(before, authority, ',');
    lemma_lacks(before + authority, after, ';');
    lemma_lacks(before + authority, after, ',');
    lemma_closed_quotes(authority);
    lemma_quotes_add(before, authority);
    lemma_quotes_add(before + authority, after);
    lemma_no_quotes(before, 0);
    lemma_no_quotes(after, 0);
}

/// The pieces of a header, put together in another order.
proof fn lemma_regrouped(spaces: Seq<Seq<char>>, authority: Seq<char>, seconds: nat)
    ensures
        ({
            let front = spaces[2] + authority + spaces[3];
            let shown = spaces[4] + ("ma"@ + spaces[5]).push('=') + spaces[6] + text::decimal(
                seconds,
            );
            spaced_offer_text(spaces, authority) + ";"@ + spaced_age_text(spaces, seconds)
                == spaces[0] + ("h3"@ + spaces[1]).push('=') + (front.push(';') + shown)
                + spaces[7]
        }),
{
    reveal_strlit("=");
    reveal_strlit(";");
    let front = spaces[2] + authority + spaces[3];
    let digits = text::decimal(seconds);
    let shown = spaces[4] + ("ma"@ + spaces[5]).push('=') + spaces[6] + digits;
    let start = spaces[0] + ("h3"@ + spaces[1]).push('=');
    assert("="@ =~= seq!['=']);
    assert(";"@ =~= seq![';']);
    assert(spaced_offer_text(spaces, authority) =~= start + front);
    assert(spaced_age_text(spaces, seconds) =~= shown + spaces[7]);
    assert((start + front) + ";"@ + (shown + spaces[7]) =~= start + (front.push(';') + shown)
        + spaces[7]);
}

/// Whitespace holds none of the signs of a header.
proof fn lemma_spaces_separate_nothing(s: Seq<char>)
    requires
        text::all_in(s, CharClass::Whitespace),
    ensures
        is_quotable(s),
        !s.contains('='),
{
}

/// What two texts lack, both together lack.
proof fn lemma_lacks(a: Seq<char>, b: Seq<char>, c: char)
    requires
        !a.contains(c),
        !b.contains(c),
    ensures
        !(a + b).contains(c),
{
    assert forall|i: int| 0 <= i < (a + b).len() implies (a + b)[i] != c by {
        if i < a.len() {
            assert((a + b)[i] == a[i]);
        } else {
            assert((a + b)[i] == b[i - a.len()]);
        }
    }
}

/// A text without quotes has none from any index on.
proof fn lemma_no_quotes(s: Seq<char>, i: int)
    requires
        !s.contains('"'),
        0 <= i <= s.len(),
    ensures
        quotes_from(s, i) == 0,
    decreases s.len() - i,
{
    if i < s.len() {
        lemma_no_quotes(s, i + 1);
    }
}

/// The quotes of two texts are those of both together.
proof fn lemma_quotes_add(a: Seq<char>, b: Seq<char>)
    ensures
        quotes_from(a + b, 0) == quotes_from(a, 0) + quotes_from(b, 0),
    decreases a.len(),
{
    if a.len() > 0 {
        let tail = a.skip(1);
        lemma_quotes_add(tail, b);
        assert((a + b).skip(1) == tail + b);
        lemma_quotes_skip(a + b, 1, 0);
        lemma_quotes_skip(a, 1, 0);
        assert((a + b)[0] == a[0]);
    } else {
        assert(a + b == b);
    }
}

/// The maximum age is read whatever whitespace stands in it, and nothing in it
/// separates.
proof fn lemma_age(before: Seq<char>, behind: Seq<char>, between: Seq<char>, seconds: nat)
    requires
        seconds <= u64::MAX,
        text::all_in(before, CharClass::Whitespace),
        text::all_in(behind, CharClass::Whitespace),
        text::all_in(between, CharClass::Whitespace),
    ensures
        ({
            let shown = before + ("ma"@ + behind).push('=') + between + text::decimal(seconds);
            &&& max_age_param(shown) == Some(seconds)
            &&& !shown.contains(';')
            &&& !shown.contains(',')
        }),
{
    reveal_strlit("ma");
    let none = Seq::<char>::empty();
    let digits = text::decimal(seconds);
    text::lemma_decimal_is_digits(seconds);
    text::law_decimal_round_trip(seconds, u64::MAX as nat);
    assert(text::is_digit(digits[0]) && text::is_digit(digits[digits.len() - 1]));
    assert(text::ascii_lowercased("ma"@) =~= "ma"@);
    lemma_spaces_separate_nothing(before);
    lemma_spaces_separate_nothing(behind);
    lemma_spaces_separate_nothing(between);
    let name = "ma"@ + behind;
    let value = between + digits;
    let bare = name.push('=') + value;
    let shown = before + name.push('=') + between + digits;
    assert(shown == before + bare + none);
    assert(bare.first() == 'm' && bare.last() == digits.last());
    text::law_trim_takes_what_stands_around(before, bare, none, CharClass::Whitespace);
    lemma_lacks("ma"@, behind, '=');
    text::law_split_once_undoes_joining(name, value, '=');
    text::law_trim_takes_what_stands_around(none, "ma"@, behind, CharClass::Whitespace);
    assert(none + "ma"@ + behind == name);
    text::law_trim_takes_what_stands_around(between, digits, none, CharClass::Whitespace);
    assert(between + digits + none == value);
    text::law_trim_takes_what_stands_around(none, digits, none, CharClass::Quote);
    assert(none + digits + none == digits);
    assert forall|i: int| 0 <= i < shown.len() implies shown[i] != ';' && shown[i] != ',' by {
        let b = before.len() as int;
        let n = behind.len() as int;
        let w = between.len() as int;
        if i < b {
            assert(shown[i] == before[i]);
        } else if b + 2 <= i < b + 2 + n {
            assert(shown[i] == behind[i - b - 2]);
        } else if b + 3 + n <= i < b + 3 + n + w {
            assert(shown[i] == between[i - b - 3 - n]);
        } else if i >= b + 3 + n + w {
            assert(shown[i] == digits[i - b - 3 - n - w]);
        }
    }
}

/// A header with one alternative for `h3` asks for what its rest says, whatever
/// whitespace stands around it and behind the protocol.
proof fn lemma_spaced(
    before: Seq<char>,
    behind: Seq<char>,
    rest: Seq<char>,
    after: Seq<char>,
    now: nat,
    origin_port: u16,
)
    requires
        text::all_in(before, CharClass::Whitespace),
        text::all_in(behind, CharClass::Whitespace),
        text::all_in(after, CharClass::Whitespace),
        rest.len() > 0,
        !rest.contains(','),
        !text::is_whitespace(rest.last()),
    ensures
        ({
            let raw = before + ("h3"@ + behind).push('=') + rest + after;
            let parts = quoted_parts(rest, ';');
            update_of(raw, now, origin_port) == match authority_of(
                text::trimmed_ws(parts.first()),
                origin_port,
            ) {
                None => AltSvcUpdateView::Absent,
                Some((host, port)) => AltSvcUpdateView::Entry(
                    AltSvcEntryView {
                        host,
                        port,
                        expires_at: now + max_age_of(parts.drop_first()) * 1_000_000_000,
                    },
                ),
            }
        }),
{
    reveal_strlit("h3");
    reveal_strlit("clear");
    let none = Seq::<char>::empty();
    lemma_spaces_separate_nothing(before);
    lemma_spaces_separate_nothing(behind);
    lemma_spaces_separate_nothing(after);
    let protocol = "h3"@ + behind;
    let bare = protocol.push('=') + rest;
    let raw = before + protocol.push('=') + rest + after;
    assert(raw == before + bare + after);
    assert(bare.first() == 'h' && bare.last() == rest.last());
    text::law_trim_takes_what_stands_around(before, bare, after, CharClass::Whitespace);
    assert(text::ascii_lowercased(bare)[0] == 'h');
    assert(text::ascii_lowercased("clear"@)[0] == 'c');
    lemma_lacks("h3"@, behind, '=');
    lemma_lacks("h3"@, behind, ',');
    lemma_lacks(protocol, seq!['='], ',');
    assert(protocol + seq!['='] == protocol.push('='));
    lemma_lacks(protocol.push('='), rest, ',');
    lemma_lacks(before, bare, ',');
    lemma_lacks(before + bare, after, ',');
    law_quoted_text_is_one_part(raw, ',');
    assert(quoted_parts(raw, ',').first() == raw);
    assert(quoted_parts(raw, ',').drop_first() == Seq::<Seq<char>>::empty());
    assert(first_supported(Seq::<Seq<char>>::empty(), now, origin_port) is Absent);
    text::law_split_once_undoes_joining(protocol, rest, '=');
    text::law_trim_takes_what_stands_around(none, "h3"@, behind, CharClass::Whitespace);
    assert(none + "h3"@ + behind == protocol);
}

/// An authority is a host and a port, quoted together: the host without square
/// brackets around it, and the port that is written behind the last colon, or
/// that of the origin where it is no number. Without a host the port has to be a
/// number, and brackets around nothing are no host.
pub proof fn law_authority_is_host_and_port(
    open: Seq<char>,
    host: Seq<char>,
    close: Seq<char>,
    port: Seq<char>,
    origin_port: u16,
)
    requires
        text::all_in(open, CharClass::Bracket),
        text::all_in(close, CharClass::Bracket),
        text::has_firm_ends(host, CharClass::Bracket),
        !port.contains(':'),
        open.len() == 0 && host.len() > 0 ==> host.first() != ':',
    ensures
        ({
            let written = open + host + close;
            let named = authority_of("\""@ + written + ":"@ + port + "\""@, origin_port);
            let number = text::parsed_unsigned(port, 65_535);
            &&& host.len() > 0 ==> named == Some(
                (
                    Some(host),
                    (if number is Some {
                        number->0 as u16
                    } else {
                        origin_port
                    }),
                ),
            )
            &&& host.len() == 0 && written.len() > 0 ==> named is None
            &&& written.len() == 0 && number is Some ==> named == Some(
                (None::<Seq<char>>, number->0 as u16),
            )
            &&& written.len() == 0 && number is None ==> named is None
        }),
{
    reveal_strlit("\"");
    reveal_strlit(":");
    let written = open + host + close;
    let authority = written + ":"@ + port;
    let raw = "\""@ + written + ":"@ + port + "\""@;
    assert(raw.drop_first() == authority + "\""@);
    assert((authority + "\""@).drop_last() == authority);
    assert(authority == written.push(':') + port);
    if written.len() == 0 {
        assert(authority.drop_first() == port);
    } else {
        assert(authority.first() == written.first());
        if open.len() > 0 {
            assert(CharClass::Bracket.has(open[0]));
        } else if host.len() == 0 {
            assert(CharClass::Bracket.has(close[0]));
        }
        text::law_rsplit_once_undoes_joining(written, port, ':');
        text::law_trim_takes_what_stands_around(open, host, close, CharClass::Bracket);
    }
}

/// The word `clear` among other alternatives is no offer: the others count.
pub proof fn law_clear_among_others_is_no_offer(
    word: Seq<char>,
    other: Seq<char>,
    now: nat,
    origin_port: u16,
)
    requires
        text::ascii_lowercased(word) == "clear"@,
        !(update_of(other, now, origin_port) is Clear),
    ensures
        update_of(word.push(',') + other, now, origin_port) == update_of(other, now, origin_port),
        quotes_from(other, 0) % 2 == 0 ==> update_of(other.push(',') + word, now, origin_port)
            == update_of(other, now, origin_port),
{
    reveal_strlit("clear");
    let none = Seq::<char>::empty();
    let empty = Seq::<Seq<char>>::empty();
    assert(text::ascii_lowercased(word).len() == word.len());
    assert forall|i: int| 0 <= i < word.len() implies word[i] != ',' && word[i] != '"' && word[i]
        != '=' && !text::is_whitespace(word[i]) by {
        text::law_lower_case_is_by_letter(word, i);
        assert(text::ascii_lowercased(word)[i] == "clear"@[i]);
    }
    text::law_trim_takes_what_stands_around(none, word, none, CharClass::Whitespace);
    assert(none + word + none == word);
    text::law_split_once_undoes_joining(word, none, '=');
    law_quoted_text_is_one_part(word, ',');
    lemma_no_quotes(word, 0);
    assert(seq![word].drop_first() == empty);
    assert(first_supported(empty, now, origin_port) is Absent);
    assert(first_supported(seq![word], now, origin_port) is Absent);
    lemma_list_is_not_clear(word, other);
    lemma_list_is_not_clear(other, word);
    law_separator_splits(word, other, ',');
    lemma_first_of_both(seq![word], quoted_parts(other, ','), now, origin_port);
    if quotes_from(other, 0) % 2 == 0 {
        law_separator_splits(other, word, ',');
        lemma_first_of_both(quoted_parts(other, ','), seq![word], now, origin_port);
    }
}

/// Two texts with a comma between them are not the word `clear`.
proof fn lemma_list_is_not_clear(a: Seq<char>, b: Seq<char>)
    ensures
        text::ascii_lowercased(text::trimmed_ws(a.push(',') + b)) != text::ascii_lowercased(
            "clear"@,
        ),
{
    reveal_strlit("clear");
    let raw = a.push(',') + b;
    assert(raw[a.len() as int] == ',');
    text::law_trim_keeps_other_characters(raw, CharClass::Whitespace, ',');
    let kept = text::trimmed_ws(raw);
    let i = choose|i: int| 0 <= i < kept.len() && kept[i] == ',';
    assert(text::ascii_lowercased(kept)[i] == ',');
    assert(text::ascii_lowercased("clear"@) == "clear"@);
}

} // verus!
