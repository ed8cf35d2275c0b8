//! Header names, values and maps of the `http` crate, and what this library
//! takes from them.
//!
//! A header map is modelled as a map from each header name, in lower case, to
//! the values that it has, in the order in which they were added.

use vstd::prelude::*;
use vstd::utf8::encode_utf8;

use crate::text;

verus! {

/// A header name of the `http` crate.
#[verifier::external_type_specification]
#[verifier::external_body]
pub struct ExHeaderName(http::HeaderName);

/// A header value of the `http` crate.
#[verifier::external_type_specification]
#[verifier::external_body]
pub struct ExHeaderValue(http::HeaderValue);

/// A header map of the `http` crate.
#[verifier::external_type_specification]
#[verifier::external_body]
#[verifier::reject_recursive_types(T)]
pub struct ExHeaderMap<T>(http::HeaderMap<T>);

/// The names and values of a header map.
pub type Fields = Map<Seq<char>, Seq<Seq<u8>>>;

/// The characters that a header name holds.
pub uninterp spec fn name_text(name: http::HeaderName) -> Seq<char>;

/// The bytes that a header value holds.
pub uninterp spec fn value_bytes(value: http::HeaderValue) -> Seq<u8>;

/// The names and values that a header map holds.
pub uninterp spec fn map_fields(map: http::HeaderMap) -> Map<Seq<char>, Seq<Seq<u8>>>;

/// The number of distinct names that a header map takes whatever the names
/// are. With more of them, an unlucky distribution of their hashes can make
/// the map refuse to grow.
pub const MAX_HEADER_NAMES: usize = 6_553;

/// No headers.
pub open spec fn no_fields() -> Fields {
    Map::empty()
}

/// Whether `fields` has at most `n` distinct names.
pub open spec fn names_within(fields: Fields, n: int) -> bool {
    fields.dom().finite() && fields.dom().len() <= n
}

/// The values of `name` in `fields`; none if there is no such header.
pub open spec fn values_of(fields: Fields, name: Seq<char>) -> Seq<Seq<u8>> {
    if fields.contains_key(name) {
        fields[name]
    } else {
        Seq::empty()
    }
}

/// `fields` with one more value for `name`, behind those that it has.
pub open spec fn appended(fields: Fields, name: Seq<char>, value: Seq<u8>) -> Fields {
    fields.insert(name, values_of(fields, name).push(value))
}

/// `fields` with `value` as the only value for `name`.
pub open spec fn replaced(fields: Fields, name: Seq<char>, value: Seq<u8>) -> Fields {
    fields.insert(name, seq![value])
}

/// `fields` with each of `pairs` appended in turn.
pub open spec fn appended_all(fields: Fields, pairs: Seq<(Seq<char>, Seq<u8>)>) -> Fields
    decreases pairs.len(),
{
    if pairs.len() == 0 {
        fields
    } else {
        appended(appended_all(fields, pairs.drop_last()), pairs.last().0, pairs.last().1)
    }
}

/// The texts and bytes of names and values.
pub open spec fn pair_views(pairs: Seq<(http::HeaderName, http::HeaderValue)>) -> Seq<
    (Seq<char>, Seq<u8>),
> {
    pairs.map_values(
        |p: (http::HeaderName, http::HeaderValue)| (name_text(p.0), value_bytes(p.1)),
    )
}

/// The characters that a header name is made of.
pub open spec fn is_token_char(c: char) -> bool {
    ||| '0' <= c <= '9'
    ||| 'a' <= c <= 'z'
    ||| 'A' <= c <= 'Z'
    ||| c == '!' || c == '#' || c == '$' || c == '%' || c == '&' || c == '\''
    ||| c == '*' || c == '+' || c == '-' || c == '.'
    ||| c == '^' || c == '_' || c == '`' || c == '|' || c == '~'
}

/// Whether header names can hold `c`.
pub(crate) fn token_char(c: char) -> (r: bool)
    ensures
        r == is_token_char(c),
{
    ('0' <= c && c <= '9') || ('a' <= c && c <= 'z') || ('A' <= c && c <= 'Z') || c == '!'
        || c == '#' || c == '$' || c == '%' || c == '&' || c == '\'' || c == '*' || c == '+'
        || c == '-' || c == '.' || c == '^' || c == '_' || c == '`' || c == '|' || c == '~'
}

/// Whether `s` can be a header name, in whatever case.
pub open spec fn is_header_name(s: Seq<char>) -> bool {
    1 <= s.len() <= 65_535 && forall|i: int| 0 <= i < s.len() ==> is_token_char(#[trigger] s[i])
}

/// Whether `s` is a header name in lower case.
pub open spec fn is_field_name(s: Seq<char>) -> bool {
    is_header_name(s) && text::ascii_lowercased(s) == s
}

/// The bytes that a header value can hold.
pub open spec fn is_value_byte(b: u8) -> bool {
    b == 9 || (b >= 32 && b != 127)
}

/// Whether `s` can be a header value.
pub open spec fn is_header_value(s: Seq<char>) -> bool {
    forall|i: int| 0 <= i < encode_utf8(s).len() ==> is_value_byte(#[trigger] encode_utf8(s)[i])
}

/// The bytes of header values that can be read as text.
pub open spec fn is_visible_byte(b: u8) -> bool {
    b == 9 || 32 <= b < 127
}

/// The text that the bytes of a header value write, if all of them are visible
/// ASCII characters or tabs.
pub open spec fn visible_text(bytes: Seq<u8>) -> Option<Seq<char>> {
    if forall|i: int| 0 <= i < bytes.len() ==> is_visible_byte(#[trigger] bytes[i]) {
        Some(bytes.map_values(|b: u8| b as char))
    } else {
        None
    }
}

/// The bytes of an optional value.
pub open spec fn optional_value(value: Option<http::HeaderValue>) -> Option<Seq<u8>> {
    match value {
        Some(value) => Some(value_bytes(value)),
        None => None,
    }
}

/// The text of an optional name.
pub open spec fn optional_name(name: Option<http::HeaderName>) -> Option<Seq<char>> {
    match name {
        Some(name) => Some(name_text(name)),
        None => None,
    }
}

/// What parsing `s` as a header name gives.
pub open spec fn parsed_name(s: Seq<char>) -> Option<Seq<char>> {
    if is_header_name(s) {
        Some(text::ascii_lowercased(s))
    } else {
        None
    }
}

/// What parsing `s` as a header value gives.
pub open spec fn parsed_value(s: Seq<char>) -> Option<Seq<u8>> {
    if is_header_value(s) {
        Some(encode_utf8(s))
    } else {
        None
    }
}

/// The text of the first value of `name` in `fields`, if there is one and it
/// can be read as text.
pub open spec fn first_text(fields: Fields, name: Seq<char>) -> Option<Seq<char>> {
    if fields.contains_key(name) {
        visible_text(fields[name].first())
    } else {
        None
    }
}

/// `http::HeaderName::from_bytes`: accepts what [`is_header_name`] describes
/// and puts it in lower case.
#[verifier::external_body]
pub(crate) fn parse_name(name: &str) -> (r: Option<http::HeaderName>)
    ensures
        r is Some <==> is_header_name(name@),
        r matches Some(n) ==> name_text(n) == text::ascii_lowercased(name@),
{
    http::HeaderName::from_bytes(name.as_bytes()).ok()
}

/// `http::HeaderName::as_str`: the characters of the name.
#[verifier::external_body]
pub(crate) fn name_str(name: &http::HeaderName) -> (r: &str)
    ensures
        r@ == name_text(*name),
{
    name.as_str()
}

/// `http::HeaderValue::from_str`: accepts what [`is_header_value`] describes
/// and holds its UTF-8 bytes.
#[verifier::external_body]
pub(crate) fn parse_value(value: &str) -> (r: Option<http::HeaderValue>)
    ensures
        r is Some <==> is_header_value(value@),
        r matches Some(v) ==> value_bytes(v) == encode_utf8(value@),
{
    http::HeaderValue::from_str(value).ok()
}

/// `http::HeaderValue::to_str`: gives the text of a value whose bytes are all
/// visible ASCII characters or tabs, and of no other.
#[verifier::external_body]
pub(crate) fn value_str(value: &http::HeaderValue) -> (r: Option<&str>)
    ensures
        r is Some <==> visible_text(value_bytes(*value)) is Some,
        r matches Some(s) ==> visible_text(value_bytes(*value)) == Some(s@),
{
    value.to_str().ok()
}

/// `http::HeaderMap::new`: a map without headers.
#[verifier::external_body]
pub(crate) fn new_map() -> (r: http::HeaderMap)
    ensures
        map_fields(r) == no_fields(),
{
    http::HeaderMap::new()
}

/// `http::HeaderMap::try_append`: adds a value behind those that the name has,
/// and tells whether it did. A map with at most [`MAX_HEADER_NAMES`] names takes
/// every header; of one with more names it is left open whether it does. A map
/// that takes none stays as it is.
#[verifier::external_body]
pub(crate) fn try_append(
    map: &mut http::HeaderMap,
    name: http::HeaderName,
    value: http::HeaderValue,
) -> (r: bool)
    ensures
        names_within(map_fields(*old(map)), MAX_HEADER_NAMES as int) ==> r,
        r ==> map_fields(*final(map)) == appended(
            map_fields(*old(map)),
            name_text(name),
            value_bytes(value),
        ),
        !r ==> map_fields(*final(map)) == map_fields(*old(map)),
{
    map.try_append(name, value).is_ok()
}

/// `http::HeaderMap::try_insert`: makes a value the only one of its name, and
/// tells whether it did. A map with at most [`MAX_HEADER_NAMES`] names takes
/// every header; of one with more names it is left open whether it does. A map
/// that takes none stays as it is.
#[verifier::external_body]
pub(crate) fn try_insert(
    map: &mut http::HeaderMap,
    name: http::HeaderName,
    value: http::HeaderValue,
) -> (r: bool)
    ensures
        names_within(map_fields(*old(map)), MAX_HEADER_NAMES as int) ==> r,
        r ==> map_fields(*final(map)) == replaced(
            map_fields(*old(map)),
            name_text(name),
            value_bytes(value),
        ),
        !r ==> map_fields(*final(map)) == map_fields(*old(map)),
{
    map.try_insert(name, value).is_ok()
}

/// `http::HeaderMap::remove`: takes a name and all of its values out.
#[verifier::external_body]
pub(crate) fn remove(map: &mut http::HeaderMap, name: &http::HeaderName)
    ensures
        map_fields(*final(map)) == map_fields(*old(map)).remove(name_text(*name)),
{
    map.remove(name);
}

/// `http::HeaderMap::get`: the first value of a name.
#[verifier::external_body]
pub(crate) fn get<'a>(map: &'a http::HeaderMap, name: &str) -> (r: Option<&'a http::HeaderValue>)
    requires
        is_field_name(name@),
    ensures
        r is Some <==> map_fields(*map).contains_key(name@),
        r matches Some(v) ==> map_fields(*map)[name@].len() > 0 && value_bytes(*v) == map_fields(
            *map,
        )[name@].first(),
{
    map.get(name)
}

/// `http::HeaderMap::keys_len`: the number of distinct names.
#[verifier::external_body]
fn keys_len(map: &http::HeaderMap) -> (r: usize)
    ensures
        names_within(map_fields(*map), r as int),
        r == map_fields(*map).dom().len(),
{
    map.keys_len()
}

/// `http::HeaderMap::clone`: a map with the same headers.
#[verifier::external_body]
pub(crate) fn clone_map(map: &http::HeaderMap) -> (r: http::HeaderMap)
    ensures
        map_fields(r) == map_fields(*map),
{
    map.clone()
}

/// `http::HeaderMap::iter`: each value once, together with its name, where the
/// values of one name come in the order that they have in the map. In which
/// order the names come is left open: appended to an empty map, the pairs give
/// the same headers again.
#[verifier::external_body]
fn pairs(map: &http::HeaderMap) -> (r: Vec<(http::HeaderName, http::HeaderValue)>)
    ensures
        appended_all(no_fields(), pair_views(r@)) == map_fields(*map),
{
    map.iter().map(|(name, value)| (name.clone(), value.clone())).collect()
}

/// A name that is known to be valid.
fn known_name(name: &'static str) -> (r: http::HeaderName)
    requires
        is_field_name(name@),
    ensures
        name_text(r) == name@,
{
    match parse_name(name) {
        Some(name) => name,
        None => vstd::pervasive::unreached(),
    }
}

/// The name `user-agent`.
pub(crate) fn user_agent_name() -> (r: http::HeaderName)
    ensures
        name_text(r) == "user-agent"@,
{
    proof {
        reveal_strlit("user-agent");
        assert(text::ascii_lowercased("user-agent"@) =~= "user-agent"@);
    }
    known_name("user-agent")
}

/// The name `authorization`.
pub(crate) fn authorization_name() -> (r: http::HeaderName)
    ensures
        name_text(r) == "authorization"@,
{
    proof {
        reveal_strlit("authorization");
        assert(text::ascii_lowercased("authorization"@) =~= "authorization"@);
    }
    known_name("authorization")
}

/// The name `content-type`.
pub(crate) fn content_type_name() -> (r: http::HeaderName)
    ensures
        name_text(r) == "content-type"@,
{
    proof {
        reveal_strlit("content-type");
        assert(text::ascii_lowercased("content-type"@) =~= "content-type"@);
    }
    known_name("content-type")
}

/// The value `application/json`.
pub(crate) fn json_value() -> (r: http::HeaderValue)
    ensures
        value_bytes(r) == encode_utf8("application/json"@),
{
    proof {
        reveal_strlit("application/json");
        vstd::utf8::is_ascii_chars_encode_utf8("application/json"@);
    }
    match parse_value("application/json") {
        Some(value) => value,
        None => vstd::pervasive::unreached(),
    }
}

/// Whether there is a `content-type` header.
pub(crate) fn has_content_type(map: &http::HeaderMap) -> (r: bool)
    ensures
        r == map_fields(*map).contains_key("content-type"@),
{
    proof {
        reveal_strlit("content-type");
        assert(text::ascii_lowercased("content-type"@) =~= "content-type"@);
    }
    get(map, "content-type").is_some()
}

/// How many distinct names the map has.
pub fn name_count(map: &http::HeaderMap) -> (r: usize)
    ensures
        map_fields(*map).dom().finite(),
        r == map_fields(*map).dom().len(),
{
    keys_len(map)
}

/// The text of the first value of `name`.
pub(crate) fn get_text<'a>(map: &'a http::HeaderMap, name: &str) -> (r: Option<&'a str>)
    requires
        is_field_name(name@),
    ensures
        r is Some <==> first_text(map_fields(*map), name@) is Some,
        r matches Some(s) ==> first_text(map_fields(*map), name@) == Some(s@),
{
    match get(map, name) {
        Some(value) => value_str(value),
        None => None,
    }
}

/// `defaults` with the headers of `own` in place of those of the same names.
pub open spec fn overridden(defaults: Fields, own: Fields) -> Fields {
    defaults.union_prefer_right(own)
}

/// `fields` without the names of `pairs`.
spec fn without_names(fields: Fields, pairs: Seq<(Seq<char>, Seq<u8>)>) -> Fields
    decreases pairs.len(),
{
    if pairs.len() == 0 {
        fields
    } else {
        without_names(fields, pairs.drop_last()).remove(pairs.last().0)
    }
}

/// Whether `name` is the name of one of `pairs`.
spec fn names(pairs: Seq<(Seq<char>, Seq<u8>)>, name: Seq<char>) -> bool {
    exists|i: int| 0 <= i < pairs.len() && (#[trigger] pairs[i]).0 == name
}

/// The names of `pairs` are that of the last one and those of the others.
proof fn lemma_names_last(pairs: Seq<(Seq<char>, Seq<u8>)>, name: Seq<char>)
    requires
        pairs.len() > 0,
    ensures
        names(pairs, name) <==> (names(pairs.drop_last(), name) || pairs.last().0 == name),
{
    let init = pairs.drop_last();
    if names(pairs, name) {
        let i = choose|i: int| 0 <= i < pairs.len() && (#[trigger] pairs[i]).0 == name;
        if i < pairs.len() - 1 {
            assert(init[i].0 == name);
        }
    }
    if names(init, name) {
        let i = choose|i: int| 0 <= i < init.len() && (#[trigger] init[i]).0 == name;
        assert(pairs[i].0 == name);
    }
    if pairs.last().0 == name {
        assert(pairs[pairs.len() - 1].0 == name);
    }
}

/// Taking names out leaves the other headers as they are.
proof fn lemma_without_names(fields: Fields, pairs: Seq<(Seq<char>, Seq<u8>)>, name: Seq<char>)
    ensures
        without_names(fields, pairs).contains_key(name) <==> fields.contains_key(name) && !names(
            pairs,
            name,
        ),
        without_names(fields, pairs).contains_key(name) ==> without_names(fields, pairs)[name]
            == fields[name],
    decreases pairs.len(),
{
    if pairs.len() > 0 {
        lemma_without_names(fields, pairs.drop_last(), name);
        lemma_names_last(pairs, name);
    }
}

/// Appending pairs to a map that has none of their names adds what appending
/// them to an empty map gives.
proof fn lemma_appended_all(fields: Fields, pairs: Seq<(Seq<char>, Seq<u8>)>)
    requires
        forall|i: int| 0 <= i < pairs.len() ==> !fields.contains_key((#[trigger] pairs[i]).0),
    ensures
        appended_all(fields, pairs) == fields.union_prefer_right(appended_all(no_fields(), pairs)),
        forall|name: Seq<char>|
            appended_all(no_fields(), pairs).contains_key(name) <==> #[trigger] names(pairs, name),
    decreases pairs.len(),
{
    let added = appended_all(no_fields(), pairs);
    if pairs.len() > 0 {
        let init = pairs.drop_last();
        assert forall|i: int| 0 <= i < init.len() implies !fields.contains_key(
            (#[trigger] init[i]).0,
        ) by {
            assert(init[i] == pairs[i]);
        }
        lemma_appended_all(fields, init);
        assert(!fields.contains_key(pairs[pairs.len() - 1].0));
        assert forall|name: Seq<char>|
            added.contains_key(name) <==> #[trigger] names(pairs, name) by {
            lemma_names_last(pairs, name);
        }
        assert(appended_all(fields, pairs) =~= fields.union_prefer_right(added));
    } else {
        assert(fields =~= fields.union_prefer_right(added));
    }
}

/// The headers of a request: those of `own`, and those of `defaults` whose
/// names are not in `own`. `None` is that one map does not take them all, which
/// happens only where they have more than [`MAX_HEADER_NAMES`] names.
pub fn merge(defaults: &http::HeaderMap, own: &http::HeaderMap) -> (r: Option<http::HeaderMap>)
    ensures
        match r {
            Some(merged) => map_fields(merged) == overridden(
                map_fields(*defaults),
                map_fields(*own),
            ),
            None => !names_within(
                overridden(map_fields(*defaults), map_fields(*own)),
                MAX_HEADER_NAMES as int,
            ),
        },
{
    let all = pairs(own);
    let ghost views = pair_views(all@);
    let ghost base = map_fields(*defaults);
    let ghost added = map_fields(*own);
    let mut merged = clone_map(defaults);
    let mut i: usize = 0;
    assert(views.take(0) == Seq::<(Seq<char>, Seq<u8>)>::empty());
    while i < all.len()
        invariant
            i <= all.len(),
            views == pair_views(all@),
            base == map_fields(*defaults),
            map_fields(merged) == without_names(base, views.take(i as int)),
        decreases all.len() - i,
    {
        assert(views.take(i + 1).drop_last() == views.take(i as int));
        remove(&mut merged, &all[i].0);
        i = i + 1;
    }
    assert(views.take(all.len() as int) == views);
    let ghost rest = without_names(base, views);
    proof {
        assert forall|j: int| 0 <= j < views.len() implies !rest.contains_key(
            (#[trigger] views[j]).0,
        ) by {
            lemma_without_names(base, views, views[j].0);
        }
        lemma_appended_all(no_fields(), views);
    }
    let ghost items = all@;
    for pair in it: all
        invariant
            it.seq() == items,
            views == pair_views(items),
            base == map_fields(*defaults),
            added == map_fields(*own),
            added == appended_all(no_fields(), views),
            forall|name: Seq<char>| added.contains_key(name) <==> #[trigger] names(views, name),
            rest == without_names(base, views),
            forall|j: int| 0 <= j < views.len() ==> !rest.contains_key((#[trigger] views[j]).0),
            map_fields(merged) == appended_all(rest, views.take(it.index() as int)),
    {
        proof {
            let sofar = views.take(it.index() as int);
            assert forall|j: int| 0 <= j < sofar.len() implies !rest.contains_key(
                (#[trigger] sofar[j]).0,
            ) by {
                assert(sofar[j] == views[j]);
            }
            lemma_appended_all(rest, sofar);
            assert forall|name: Seq<char>| #[trigger]
                map_fields(merged).dom().contains(name) implies overridden(
                base,
                added,
            ).dom().contains(name) by {
                lemma_without_names(base, views, name);
                if names(sofar, name) {
                    let j = choose|j: int| 0 <= j < sofar.len() && (#[trigger] sofar[j]).0 == name;
                    assert(views[j].0 == name);
                    assert(names(views, name));
                }
            }
            if names_within(overridden(base, added), MAX_HEADER_NAMES as int) {
                vstd::set_lib::lemma_len_subset(
                    map_fields(merged).dom(),
                    overridden(base, added).dom(),
                );
            }
            assert(views.take(it.index() + 1).drop_last() == sofar);
        }
        if !try_append(&mut merged, pair.0, pair.1) {
            return None;
        }
    }
    proof {
        assert(views.take(items.len() as int) == views);
        lemma_appended_all(rest, views);
        assert forall|name: Seq<char>| #![auto] rest.union_prefer_right(added).contains_key(name)
            <==> overridden(base, added).contains_key(name) by {
            lemma_without_names(base, views, name);
        }
        assert forall|name: Seq<char>| #![auto]
            overridden(base, added).contains_key(name) implies rest.union_prefer_right(added)[name]
            == overridden(base, added)[name] by {
            lemma_without_names(base, views, name);
        }
        assert(rest.union_prefer_right(added) =~= overridden(base, added));
    }
    Some(merged)
}

/// The headers of a request override the default ones name by name: a name that
/// the request has gives its own values and no others, any other name gives the
/// default ones.
pub proof fn law_override_by_name(defaults: Fields, own: Fields, name: Seq<char>)
    ensures
        own.contains_key(name) ==> values_of(overridden(defaults, own), name) == values_of(
            own,
            name,
        ),
        !own.contains_key(name) ==> values_of(overridden(defaults, own), name) == values_of(
            defaults,
            name,
        ),
        overridden(defaults, own).contains_key(name) <==> defaults.contains_key(name)
            || own.contains_key(name),
{
}

/// A text of visible ASCII characters and tabs can be the value of a header,
/// and reading the header gives it back.
pub proof fn law_visible_text_reads_back(fields: Fields, name: Seq<char>, s: Seq<char>)
    requires
        forall|i: int| 0 <= i < s.len() ==> (s[i] == '\t' || ' ' <= #[trigger] s[i] <= '~'),
    ensures
        is_header_value(s),
        first_text(replaced(fields, name, encode_utf8(s)), name) == Some(s),
        !fields.contains_key(name) ==> first_text(appended(fields, name, encode_utf8(s)), name)
            == Some(s),
{
    lemma_visible_text(s);
}

/// A text of visible ASCII characters and tabs can be a value and is read as
/// itself.
pub(crate) proof fn lemma_visible_text(s: Seq<char>)
    requires
        forall|i: int| 0 <= i < s.len() ==> (s[i] == '\t' || ' ' <= #[trigger] s[i] <= '~'),
    ensures
        is_header_value(s),
        visible_text(encode_utf8(s)) == Some(s),
{
    let bytes = encode_utf8(s);
    assert(vstd::utf8::is_ascii_chars(s));
    vstd::utf8::is_ascii_chars_encode_utf8(s);
    assert forall|i: int| 0 <= i < bytes.len() implies is_value_byte(#[trigger] bytes[i])
        && is_visible_byte(bytes[i]) && bytes[i] as char == s[i] by {
        assert(s[i] == '\t' || ' ' <= s[i] <= '~');
    }
    assert(bytes.map_values(|b: u8| b as char) =~= s);
}

/// The text of a header is that of its first value, each byte a character; a
/// header that is not there, or that holds a byte that is not visible, has none.
pub proof fn law_header_text_is_that_of_its_first_value(fields: Fields, name: Seq<char>)
    ensures
        first_text(fields, name) is Some ==> fields.contains_key(name),
        first_text(fields, name) matches Some(s) ==> s.len() == fields[name].first().len()
            && forall|i: int|
            0 <= i < s.len() ==> #[trigger] s[i] as u32 == fields[name].first()[i] as u32 && (
            fields[name].first()[i] == 9 || 32 <= fields[name].first()[i] < 127),
        fields.contains_key(name) && (forall|i: int|
            0 <= i < fields[name].first().len() ==> {
                let b = #[trigger] fields[name].first()[i];
                b == 9 || 32 <= b < 127
            }) ==> first_text(fields, name) is Some,
{
    if first_text(fields, name) is Some {
        let bytes = fields[name].first();
        assert(forall|i: int| 0 <= i < bytes.len() ==> is_visible_byte(#[trigger] bytes[i]));
    }
}

/// A header name is put in lower case, letter by letter, and a name that is
/// refused gives none; a value is kept byte for byte.
pub proof fn law_parsed_headers_are_kept(name: Seq<char>, value: Seq<char>)
    ensures
        parsed_name(name) is Some <==> is_header_name(name),
        parsed_name(name) matches Some(kept) ==> kept == text::ascii_lowercased(name),
        parsed_value(value) is Some <==> is_header_value(value),
        parsed_value(value) matches Some(kept) ==> kept == encode_utf8(value),
{
}

/// Header names are made of the visible ASCII characters but for quotes, commas,
/// brackets and the other delimiters, and have up to 65,535 of them.
pub proof fn law_names_are_tokens(s: Seq<char>, c: char)
    ensures
        is_token_char(c) <==> '!' <= c <= '~' && c != '"' && c != '(' && c != ')' && c != ',' && c
            != '/' && c != ':' && c != ';' && c != '<' && c != '=' && c != '>' && c != '?' && c
            != '@' && c != '[' && c != '\\' && c != ']' && c != '{' && c != '}',
        is_header_name(s) <==> 0 < s.len() < 65_536 && forall|i: int|
            0 <= i < s.len() ==> is_token_char(#[trigger] s[i]),
{
}

/// A text of ASCII characters can be the value of a header if and only if it
/// holds no control character but tabs. The bytes of other characters are
/// accepted.
pub proof fn law_values_hold_no_controls(s: Seq<char>, b: u8)
    requires
        vstd::utf8::is_ascii_chars(s),
    ensures
        is_header_value(s) <==> forall|i: int|
            0 <= i < s.len() ==> (s[i] == '\t' || ' ' <= #[trigger] s[i] <= '~'),
        is_value_byte(b) <==> b == 9 || 32 <= b <= 126 || b >= 128,
{
    let bytes = encode_utf8(s);
    vstd::utf8::is_ascii_chars_encode_utf8(s);
    if is_header_value(s) {
        assert forall|i: int| 0 <= i < s.len() implies (s[i] == '\t' || ' ' <= #[trigger] s[i]
            <= '~') by {
            assert(is_value_byte(bytes[i]));
        }
    } else {
        let i = choose|i: int| 0 <= i < bytes.len() && !is_value_byte(#[trigger] bytes[i]);
        assert(!(s[i] == '\t' || ' ' <= s[i] <= '~'));
    }
}

/// Room is counted in distinct names: a value for a name that is there takes
/// none, and one for another name takes one.
pub proof fn law_room_is_counted_in_names(
    fields: Fields,
    name: Seq<char>,
    value: Seq<u8>,
    n: int,
)
    requires
        fields.dom().finite(),
    ensures
        names_within(fields, n) <==> fields.dom().len() <= n,
        names_within(no_fields(), 0),
        fields.contains_key(name) ==> appended(fields, name, value).dom() == fields.dom(),
        !fields.contains_key(name) ==> (names_within(appended(fields, name, value), n + 1)
            <==> names_within(fields, n)),
{
    if fields.contains_key(name) {
        assert(appended(fields, name, value).dom() =~= fields.dom());
    } else {
        assert(appended(fields, name, value).dom() =~= fields.dom().insert(name));
    }
}

/// What is said of names and values is what they hold.
pub proof fn law_views_of_headers(
    name: http::HeaderName,
    value: http::HeaderValue,
    pairs: Seq<(http::HeaderName, http::HeaderValue)>,
)
    ensures
        optional_name(Some(name)) == Some(name_text(name)),
        optional_name(None) is None,
        optional_value(Some(value)) == Some(value_bytes(value)),
        optional_value(None) is None,
        pair_views(pairs).len() == pairs.len(),
        forall|i: int|
            0 <= i < pairs.len() ==> #[trigger] pair_views(pairs)[i] == (
                name_text(pairs[i].0),
                value_bytes(pairs[i].1),
            ),
{
}

} // verus!
