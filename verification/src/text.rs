//! Operations on text: trimming, case folding, searching, and reading and
//! writing decimal numbers. Text is modelled as its sequence of characters.

use vstd::prelude::*;
use vstd::string::StrSliceExecFns;
use vstd::string::StringExecFns;

verus! {

/// A class of characters that can be trimmed off the ends of a text.
#[derive(Clone, Copy, Debug, PartialEq, Eq, Structural)]
pub enum CharClass {
    /// Characters with the Unicode `White_Space` property.
    Whitespace,
    /// The double quote.
    Quote,
    /// The square brackets around an IPv6 address.
    Bracket,
}

/// The characters with the Unicode `White_Space` property.
pub open spec fn is_whitespace(c: char) -> bool {
    ||| '\u{9}' <= c <= '\u{d}'
    ||| c == '\u{20}'
    ||| c == '\u{85}'
    ||| c == '\u{a0}'
    ||| c == '\u{1680}'
    ||| '\u{2000}' <= c <= '\u{200a}'
    ||| c == '\u{2028}'
    ||| c == '\u{2029}'
    ||| c == '\u{202f}'
    ||| c == '\u{205f}'
    ||| c == '\u{3000}'
}

impl CharClass {
    /// Whether `c` belongs to the class.
    pub open spec fn has(self, c: char) -> bool {
        match self {
            CharClass::Whitespace => is_whitespace(c),
            CharClass::Quote => c == '"',
            CharClass::Bracket => c == '[' || c == ']',
        }
    }

    /// Whether `c` belongs to the class.
    pub fn contains(self, c: char) -> (r: bool)
        ensures
            r == self.has(c),
    {
        match self {
            CharClass::Whitespace => {
                ('\u{9}' <= c && c <= '\u{d}') || c == '\u{20}' || c == '\u{85}' || c == '\u{a0}'
                    || c == '\u{1680}' || ('\u{2000}' <= c && c <= '\u{200a}') || c == '\u{2028}'
                    || c == '\u{2029}' || c == '\u{202f}' || c == '\u{205f}' || c == '\u{3000}'
            },
            CharClass::Quote => c == '"',
            CharClass::Bracket => c == '[' || c == ']',
        }
    }
}

/// `s` without its leading characters of `class`.
pub open spec fn trimmed_start(s: Seq<char>, class: CharClass) -> Seq<char>
    decreases s.len(),
{
    if s.len() > 0 && class.has(s.first()) {
        trimmed_start(s.drop_first(), class)
    } else {
        s
    }
}

/// `s` without its trailing characters of `class`.
pub open spec fn trimmed_end(s: Seq<char>, class: CharClass) -> Seq<char>
    decreases s.len(),
{
    if s.len() > 0 && class.has(s.last()) {
        trimmed_end(s.drop_last(), class)
    } else {
        s
    }
}

/// `s` without its leading and trailing characters of `class`.
pub open spec fn trimmed(s: Seq<char>, class: CharClass) -> Seq<char> {
    trimmed_end(trimmed_start(s, class), class)
}

/// `s` without leading and trailing whitespace.
pub open spec fn trimmed_ws(s: Seq<char>) -> Seq<char> {
    trimmed(s, CharClass::Whitespace)
}

/// The characters of `s` in a vector, for access by index.
pub(crate) fn chars_of(s: &str) -> (r: Vec<char>)
    ensures
        r@ == s@,
{
    let mut out: Vec<char> = Vec::new();
    for c in it: s.chars()
        invariant
            it.seq() == s@,
            out@ == s@.take(it.index() as int),
    {
        out.push(c);
        assert(s@.take(it.index() as int + 1) == s@.take(it.index() as int).push(c));
    }
    assert(s@.take(s@.len() as int) == s@);
    out
}

/// Strips the characters of `class` from both ends of `s`.
pub fn trim(s: &str, class: CharClass) -> (r: &str)
    ensures
        r@ == trimmed(s@, class),
{
    let chars = chars_of(s);
    let n: usize = chars.len();
    let mut from: usize = 0;
    assert(s@.skip(0) == s@);
    while from < n && class.contains(chars[from])
        invariant
            from <= n,
            n == chars.len(),
            chars@ == s@,
            trimmed_start(s@, class) == trimmed_start(s@.skip(from as int), class),
        decreases n - from,
    {
        assert(s@.skip(from as int).drop_first() == s@.skip(from + 1));
        from = from + 1;
    }
    assert(trimmed_start(s@, class) == s@.skip(from as int));
    let mut to: usize = n;
    assert(s@.subrange(from as int, n as int) == s@.skip(from as int));
    while to > from && class.contains(chars[to - 1])
        invariant
            from <= to <= n,
            n == chars.len(),
            chars@ == s@,
            trimmed_end(s@.skip(from as int), class) == trimmed_end(
                s@.subrange(from as int, to as int),
                class,
            ),
        decreases to,
    {
        assert(s@.subrange(from as int, to as int).drop_last() == s@.subrange(
            from as int,
            to - 1,
        ));
        to = to - 1;
    }
    s.substring_char(from, to)
}

/// The text that `s` holds, if any.
pub open spec fn optional_text(s: Option<String>) -> Option<Seq<char>> {
    match s {
        Some(s) => Some(s@),
        None => None,
    }
}

/// Whether the two texts are equal.
pub fn same_text(a: &str, b: &str) -> (r: bool)
    ensures
        r == (a@ == b@),
{
    let x = chars_of(a);
    let y = chars_of(b);
    if x.len() != y.len() {
        return false;
    }
    let mut i: usize = 0;
    while i < x.len()
        invariant
            i <= x.len(),
            x.len() == y.len(),
            x@ == a@,
            y@ == b@,
            forall|j: int| 0 <= j < i ==> a@[j] == b@[j],
        decreases x.len() - i,
    {
        if x[i] != y[i] {
            return false;
        }
        i = i + 1;
    }
    assert(a@ == b@);
    true
}

/// `c` with `A` to `Z` mapped to `a` to `z`.
pub open spec fn ascii_lower(c: char) -> char {
    if 'A' <= c <= 'Z' {
        ((c as u8) + 32) as u8 as char
    } else {
        c
    }
}

/// `s` with `A` to `Z` mapped to `a` to `z`.
pub open spec fn ascii_lowercased(s: Seq<char>) -> Seq<char> {
    s.map_values(|c: char| ascii_lower(c))
}

/// Maps `A` to `Z` to `a` to `z` and leaves every other character alone.
fn to_ascii_lower(c: char) -> (r: char)
    ensures
        r == ascii_lower(c),
{
    if 'A' <= c && c <= 'Z' {
        ((c as u8) + 32) as char
    } else {
        c
    }
}

/// Whether the two texts are equal up to the case of ASCII letters.
pub fn eq_ignore_ascii_case(a: &str, b: &str) -> (r: bool)
    ensures
        r == (ascii_lowercased(a@) == ascii_lowercased(b@)),
{
    let x = chars_of(a);
    let y = chars_of(b);
    if x.len() != y.len() {
        assert(ascii_lowercased(a@).len() != ascii_lowercased(b@).len());
        return false;
    }
    let mut i: usize = 0;
    while i < x.len()
        invariant
            i <= x.len(),
            x.len() == y.len(),
            x@ == a@,
            y@ == b@,
            forall|j: int| 0 <= j < i ==> ascii_lower(a@[j]) == ascii_lower(b@[j]),
        decreases x.len() - i,
    {
        if to_ascii_lower(x[i]) != to_ascii_lower(y[i]) {
            assert(ascii_lowercased(a@)[i as int] != ascii_lowercased(b@)[i as int]);
            return false;
        }
        i = i + 1;
    }
    assert(ascii_lowercased(a@) == ascii_lowercased(b@));
    true
}

/// The first index from `i` on at which `c` stands in `s`, or the length of `s`.
pub open spec fn index_from(s: Seq<char>, c: char, i: int) -> int
    decreases s.len() - i,
{
    if i >= s.len() {
        s.len() as int
    } else if s[i] == c {
        i
    } else {
        index_from(s, c, i + 1)
    }
}

/// The last index below `i` at which `c` stands in `s`, or `-1`.
pub open spec fn index_before(s: Seq<char>, c: char, i: int) -> int
    decreases i,
{
    if i <= 0 {
        -1
    } else if s[i - 1] == c {
        i - 1
    } else {
        index_before(s, c, i - 1)
    }
}

/// The parts of `s` before and after the first `c`; nothing if there is no `c`.
pub open spec fn split_at_first(s: Seq<char>, c: char) -> Option<(Seq<char>, Seq<char>)> {
    let k = index_from(s, c, 0);
    if k < s.len() {
        Some((s.take(k), s.skip(k + 1)))
    } else {
        None
    }
}

/// The parts of `s` before and after the last `c`; nothing if there is no `c`.
pub open spec fn split_at_last(s: Seq<char>, c: char) -> Option<(Seq<char>, Seq<char>)> {
    let k = index_before(s, c, s.len() as int);
    if k >= 0 {
        Some((s.take(k), s.skip(k + 1)))
    } else {
        None
    }
}

/// Splits `s` at the first `c`.
pub fn split_once(s: &str, c: char) -> (r: Option<(&str, &str)>)
    ensures
        match r {
            Some((a, b)) => split_at_first(s@, c) == Some((a@, b@)),
            None => split_at_first(s@, c) is None,
        },
{
    let chars = chars_of(s);
    let n: usize = chars.len();
    let mut k: usize = 0;
    while k < n && chars[k] != c
        invariant
            k <= n,
            n == chars.len(),
            chars@ == s@,
            index_from(s@, c, 0) == index_from(s@, c, k as int),
        decreases n - k,
    {
        k = k + 1;
    }
    if k < n {
        assert(s@.subrange(0, k as int) == s@.take(k as int));
        assert(s@.subrange(k + 1, n as int) == s@.skip(k + 1));
        Some((s.substring_char(0, k), s.substring_char(k + 1, n)))
    } else {
        None
    }
}

/// Splits `s` at the last `c`.
pub fn rsplit_once(s: &str, c: char) -> (r: Option<(&str, &str)>)
    ensures
        match r {
            Some((a, b)) => split_at_last(s@, c) == Some((a@, b@)),
            None => split_at_last(s@, c) is None,
        },
{
    let chars = chars_of(s);
    let n: usize = chars.len();
    let mut k: usize = n;
    while k > 0 && chars[k - 1] != c
        invariant
            k <= n,
            n == chars.len(),
            chars@ == s@,
            index_before(s@, c, n as int) == index_before(s@, c, k as int),
        decreases k,
    {
        k = k - 1;
    }
    if k > 0 {
        assert(s@.subrange(0, k - 1) == s@.take(k - 1));
        assert(s@.subrange(k as int, n as int) == s@.skip(k as int));
        Some((s.substring_char(0, k - 1), s.substring_char(k, n)))
    } else {
        None
    }
}

/// `s` without its first character if that is `c`; nothing otherwise.
pub open spec fn without_prefix(s: Seq<char>, c: char) -> Option<Seq<char>> {
    if s.len() > 0 && s.first() == c {
        Some(s.drop_first())
    } else {
        None
    }
}

/// `s` without its last character if that is `c`; nothing otherwise.
pub open spec fn without_suffix(s: Seq<char>, c: char) -> Option<Seq<char>> {
    if s.len() > 0 && s.last() == c {
        Some(s.drop_last())
    } else {
        None
    }
}

/// Removes a leading `c`.
pub fn strip_prefix(s: &str, c: char) -> (r: Option<&str>)
    ensures
        match r {
            Some(t) => without_prefix(s@, c) == Some(t@),
            None => without_prefix(s@, c) is None,
        },
{
    let n: usize = s.unicode_len();
    if n > 0 && s.get_char(0) == c {
        assert(s@.subrange(1, n as int) == s@.drop_first());
        Some(s.substring_char(1, n))
    } else {
        None
    }
}

/// Removes a trailing `c`.
pub fn strip_suffix(s: &str, c: char) -> (r: Option<&str>)
    ensures
        match r {
            Some(t) => without_suffix(s@, c) == Some(t@),
            None => without_suffix(s@, c) is None,
        },
{
    let n: usize = s.unicode_len();
    if n > 0 && s.get_char(n - 1) == c {
        assert(s@.subrange(0, n - 1) == s@.drop_last());
        Some(s.substring_char(0, n - 1))
    } else {
        None
    }
}

/// Whether `part` stands in `s` at index `i`.
pub open spec fn occurs_at(s: Seq<char>, part: Seq<char>, i: int) -> bool {
    0 <= i && i + part.len() <= s.len() && s.subrange(i, i + part.len()) == part
}

/// Whether `part` stands somewhere in `s`.
pub open spec fn occurs_in(s: Seq<char>, part: Seq<char>) -> bool {
    exists|i: int| occurs_at(s, part, i)
}

/// Whether `part` stands in `s` at index `i`.
fn is_at(s: &Vec<char>, part: &Vec<char>, i: usize) -> (r: bool)
    requires
        i + part.len() <= s.len(),
    ensures
        r == occurs_at(s@, part@, i as int),
{
    let mut j: usize = 0;
    while j < part.len()
        invariant
            j <= part.len(),
            i + part.len() <= s.len(),
            forall|k: int| 0 <= k < j ==> s@[i + k] == part@[k],
        decreases part.len() - j,
    {
        if s[i + j] != part[j] {
            assert(s@.subrange(i as int, i + part.len())[j as int] != part@[j as int]);
            return false;
        }
        j = j + 1;
    }
    assert(s@.subrange(i as int, i + part.len()) == part@);
    true
}

/// Whether `part` stands somewhere in `s`.
pub fn contains(s: &str, part: &str) -> (r: bool)
    ensures
        r == occurs_in(s@, part@),
{
    let hay = chars_of(s);
    let needle = chars_of(part);
    if needle.len() > hay.len() {
        return false;
    }
    let mut i: usize = 0;
    while i <= hay.len() - needle.len()
        invariant
            i <= hay.len() - needle.len() + 1,
            needle.len() <= hay.len(),
            hay@ == s@,
            needle@ == part@,
            forall|k: int| 0 <= k < i ==> !occurs_at(s@, part@, k),
        decreases hay.len() - needle.len() + 1 - i,
    {
        if is_at(&hay, &needle, i) {
            return true;
        }
        if i == hay.len() - needle.len() {
            return false;
        }
        i = i + 1;
    }
    false
}

/// Whether `c` is an ASCII digit.
pub open spec fn is_digit(c: char) -> bool {
    '0' <= c <= '9'
}

/// The number that a digit stands for.
pub open spec fn digit_value(c: char) -> nat {
    (c as u32 - 48) as nat
}

/// The number that a sequence of digits stands for.
pub open spec fn decimal_value(s: Seq<char>) -> nat
    decreases s.len(),
{
    if s.len() == 0 {
        0
    } else {
        decimal_value(s.drop_last()) * 10 + digit_value(s.last())
    }
}

/// `s` without a leading plus sign.
pub open spec fn unsigned_digits(s: Seq<char>) -> Seq<char> {
    if s.len() > 0 && s.first() == '+' {
        s.drop_first()
    } else {
        s
    }
}

/// The unsigned number of at most `max` that `s` writes down: one or more
/// digits, after at most one plus sign.
pub open spec fn parsed_unsigned(s: Seq<char>, max: nat) -> Option<nat> {
    let digits = unsigned_digits(s);
    if digits.len() > 0 && (forall|i: int| 0 <= i < digits.len() ==> is_digit(#[trigger] digits[i]))
        && decimal_value(digits) <= max {
        Some(decimal_value(digits))
    } else {
        None
    }
}

/// A number is no smaller than any number its leading digits stand for.
proof fn lemma_decimal_value_prefix(s: Seq<char>, i: int)
    requires
        0 <= i <= s.len(),
        forall|j: int| 0 <= j < s.len() ==> is_digit(#[trigger] s[j]),
    ensures
        decimal_value(s.take(i)) <= decimal_value(s),
    decreases s.len(),
{
    if i == s.len() {
        assert(s.take(i) == s);
    } else {
        lemma_decimal_value_prefix(s.drop_last(), i);
        assert(s.drop_last().take(i) == s.take(i));
    }
}

/// Reads an unsigned number of at most `max`.
pub fn parse_unsigned(s: &str, max: u64) -> (r: Option<u64>)
    ensures
        match r {
            Some(v) => parsed_unsigned(s@, max as nat) == Some(v as nat),
            None => parsed_unsigned(s@, max as nat) is None,
        },
{
    let chars = chars_of(s);
    let n: usize = chars.len();
    let start: usize = if n > 0 && chars[0] == '+' {
        1
    } else {
        0
    };
    let ghost digits = unsigned_digits(s@);
    assert(digits == s@.skip(start as int));
    if start == n {
        return None;
    }
    let mut value: u64 = 0;
    let mut i: usize = start;
    assert(digits.take(0) == Seq::<char>::empty());
    while i < n
        invariant
            start <= i <= n,
            n == chars.len(),
            chars@ == s@,
            digits == s@.skip(start as int),
            digits == unsigned_digits(s@),
            forall|j: int| 0 <= j < i - start ==> is_digit(#[trigger] digits[j]),
            value == decimal_value(digits.take(i - start)),
            value <= max,
        decreases n - i,
    {
        let c = chars[i];
        assert(digits[i - start] == c);
        if !('0' <= c && c <= '9') {
            return None;
        }
        let d: u64 = (c as u32 - 48) as u64;
        let ghost k = i - start;
        assert(digits.take(k + 1).drop_last() == digits.take(k));
        assert(digits.take(k + 1).last() == c);
        if value > (u64::MAX - d) / 10 || value * 10 + d > max {
            proof {
                if forall|j: int| 0 <= j < digits.len() ==> is_digit(#[trigger] digits[j]) {
                    lemma_decimal_value_prefix(digits, k + 1);
                }
            }
            return None;
        }
        value = value * 10 + d;
        i = i + 1;
    }
    assert(digits.take(n - start) == digits);
    Some(value)
}

/// The decimal digits of `n`.
pub open spec fn decimal(n: nat) -> Seq<char>
    decreases n,
{
    if n < 10 {
        seq![(n + 48) as u8 as char]
    } else {
        decimal(n / 10) + decimal(n % 10)
    }
}

/// The digit `d` as text.
fn digit_text(d: u64) -> (r: &'static str)
    requires
        d < 10,
    ensures
        r@ == decimal(d as nat),
{
    proof {
        reveal_strlit("0");
        reveal_strlit("1");
        reveal_strlit("2");
        reveal_strlit("3");
        reveal_strlit("4");
        reveal_strlit("5");
        reveal_strlit("6");
        reveal_strlit("7");
        reveal_strlit("8");
        reveal_strlit("9");
    }
    match d {
        0 => "0",
        1 => "1",
        2 => "2",
        3 => "3",
        4 => "4",
        5 => "5",
        6 => "6",
        7 => "7",
        8 => "8",
        _ => "9",
    }
}

/// Writes `n` in decimal.
pub fn decimal_text(n: u64) -> (r: String)
    ensures
        r@ == decimal(n as nat),
    decreases n,
{
    if n < 10 {
        digit_text(n).to_owned()
    } else {
        decimal_text(n / 10).concat(digit_text(n % 10))
    }
}

/// `str::to_ascii_lowercase`: a copy with each ASCII letter in lower case.
#[verifier::external_body]
pub(crate) fn to_ascii_lowercase(s: &str) -> (r: String)
    ensures
        r@ == ascii_lowercased(s@),
{
    s.to_ascii_lowercase()
}

/// Whether `word` is made of the letters `a` to `z` alone.
pub open spec fn is_lower_word(word: Seq<char>) -> bool {
    forall|i: int| 0 <= i < word.len() ==> 'a' <= #[trigger] word[i] <= 'z'
}

/// Whether every word of the letters `a` to `z` that stands in `s`, whatever the
/// case of its letters there, stands in `lowered`.
pub open spec fn keeps_lower_words(s: Seq<char>, lowered: Seq<char>) -> bool {
    forall|word: Seq<char>|
        is_lower_word(word) && occurs_in(ascii_lowercased(s), word) ==> #[trigger] occurs_in(
            lowered,
            word,
        )
}

/// What `str::to_lowercase` gives.
pub uninterp spec fn lowercased(s: Seq<char>) -> Seq<char>;

/// `str::to_lowercase`: the text in lower case, which has the name
/// [`lowercased`]. Of a text of ASCII characters it is the copy with each ASCII
/// letter in lower case. In every text the ASCII letters that stand next to each
/// other stay so, in lower case. What becomes of other characters is left unsaid.
#[verifier::external_body]
pub(crate) fn to_lowercase(s: &str) -> (r: String)
    ensures
        r@ == lowercased(s@),
        vstd::utf8::is_ascii_chars(s@) ==> r@ == ascii_lowercased(s@),
        keeps_lower_words(s@, r@),
{
    s.to_lowercase()
}

/// Joins three texts.
pub fn join3(a: &str, b: &str, c: &str) -> (r: String)
    ensures
        r@ == a@ + b@ + c@,
{
    a.to_owned().concat(b).concat(c)
}

/// Reading back what was written in decimal gives the number that was written.
pub proof fn law_decimal_round_trip(n: nat, max: nat)
    requires
        n <= max,
    ensures
        parsed_unsigned(decimal(n), max) == Some(n),
{
    lemma_decimal_digits(n);
    assert(unsigned_digits(decimal(n)) == decimal(n));
}

/// What is written in decimal is one or more digits that stand for the number.
proof fn lemma_decimal_digits(n: nat)
    ensures
        decimal(n).len() > 0,
        forall|i: int| 0 <= i < decimal(n).len() ==> is_digit(#[trigger] decimal(n)[i]),
        decimal_value(decimal(n)) == n,
    decreases n,
{
    if n < 10 {
        assert(decimal(n).drop_last() == Seq::<char>::empty());
        assert(decimal_value(Seq::<char>::empty()) == 0);
    } else {
        lemma_decimal_digits(n / 10);
        lemma_decimal_digits(n % 10);
        assert(decimal(n % 10) == seq![((n % 10) + 48) as u8 as char]);
        assert(decimal(n).drop_last() == decimal(n / 10));
        assert(digit_value(decimal(n).last()) == n % 10);
    }
}

/// Whether all characters of `s` belong to `class`.
pub open spec fn all_in(s: Seq<char>, class: CharClass) -> bool {
    forall|i: int| 0 <= i < s.len() ==> class.has(#[trigger] s[i])
}

/// Whether `s` neither begins nor ends with a character of `class`.
pub open spec fn has_firm_ends(s: Seq<char>, class: CharClass) -> bool {
    s.len() > 0 ==> !class.has(s.first()) && !class.has(s.last())
}

/// Trimming takes what stands around a text and nothing of the text: of
/// characters of the class, a text without such ends, and characters of the
/// class again, the text is left.
pub proof fn law_trim_takes_what_stands_around(
    before: Seq<char>,
    s: Seq<char>,
    after: Seq<char>,
    class: CharClass,
)
    requires
        all_in(before, class),
        all_in(after, class),
        has_firm_ends(s, class),
    ensures
        trimmed(before + s + after, class) == s,
{
    assert(before + s + after == before + (s + after));
    if s.len() > 0 {
        lemma_trimmed_start(before, s + after, class);
        lemma_trimmed_end(s, after, class);
    } else {
        let all = before + after;
        assert(before + s + after == all);
        assert(all_in(all, class));
        lemma_trimmed_start(all, s, class);
        assert(all + s == all);
    }
}

/// Leading characters of the class are taken off.
proof fn lemma_trimmed_start(before: Seq<char>, s: Seq<char>, class: CharClass)
    requires
        all_in(before, class),
        s.len() > 0 ==> !class.has(s.first()),
    ensures
        trimmed_start(before + s, class) == s,
    decreases before.len(),
{
    if before.len() > 0 {
        assert((before + s).first() == before[0]);
        assert((before + s).drop_first() == before.drop_first() + s);
        lemma_trimmed_start(before.drop_first(), s, class);
    } else {
        assert(before + s == s);
    }
}

/// Trailing characters of the class are taken off.
proof fn lemma_trimmed_end(s: Seq<char>, after: Seq<char>, class: CharClass)
    requires
        all_in(after, class),
        s.len() > 0 ==> !class.has(s.last()),
    ensures
        trimmed_end(s + after, class) == s,
    decreases after.len(),
{
    if after.len() > 0 {
        assert((s + after).last() == after[after.len() - 1]);
        assert((s + after).drop_last() == s + after.drop_last());
        lemma_trimmed_end(s, after.drop_last(), class);
    } else {
        assert(s + after == s);
    }
}

/// What trimming leaves has no character of the class at its ends.
pub proof fn law_trim_leaves_firm_ends(s: Seq<char>, class: CharClass)
    ensures
        has_firm_ends(trimmed(s, class), class),
{
    lemma_start_is_firm(s, class);
    lemma_end_is_firm(trimmed_start(s, class), class);
}

/// What is left begins with no character of the class.
proof fn lemma_start_is_firm(s: Seq<char>, class: CharClass)
    ensures
        trimmed_start(s, class).len() > 0 ==> !class.has(trimmed_start(s, class).first()),
    decreases s.len(),
{
    if s.len() > 0 && class.has(s.first()) {
        lemma_start_is_firm(s.drop_first(), class);
    }
}

/// What is left ends with no character of the class, and begins as before.
proof fn lemma_end_is_firm(s: Seq<char>, class: CharClass)
    ensures
        trimmed_end(s, class).len() > 0 ==> !class.has(trimmed_end(s, class).last())
            && trimmed_end(s, class).first() == s.first(),
    decreases s.len(),
{
    if s.len() > 0 && class.has(s.last()) {
        lemma_end_is_firm(s.drop_last(), class);
    }
}

/// Splitting at the first `c` undoes putting `c` between two texts, where the
/// former has none; a text without `c` is not split.
pub proof fn law_split_once_undoes_joining(a: Seq<char>, b: Seq<char>, c: char)
    requires
        !a.contains(c),
    ensures
        split_at_first(a.push(c) + b, c) == Some((a, b)),
        split_at_first(a, c) is None,
{
    let s = a.push(c) + b;
    lemma_index_from(s, c, a.len() as int, 0);
    lemma_index_from(a, c, a.len() as int, 0);
    assert(s.take(a.len() as int) == a);
    assert(s.skip(a.len() as int + 1) == b);
}

/// Splitting at the last `c` undoes putting `c` between two texts, where the
/// latter has none; a text without `c` is not split.
pub proof fn law_rsplit_once_undoes_joining(a: Seq<char>, b: Seq<char>, c: char)
    requires
        !b.contains(c),
    ensures
        split_at_last(a.push(c) + b, c) == Some((a, b)),
        split_at_last(b, c) is None,
{
    let s = a.push(c) + b;
    assert forall|j: int| a.len() < j < s.len() implies s[j] != c by {
        assert(s[j] == b[j - a.len() - 1]);
    }
    lemma_index_before(s, c, a.len() as int, s.len() as int);
    lemma_index_before(b, c, -1, b.len() as int);
    assert(s.take(a.len() as int) == a);
    assert(s.skip(a.len() as int + 1) == b);
}

/// The first index of `c` is `k`, where it stands there or `k` is the length,
/// and it stands nowhere before.
proof fn lemma_index_from(s: Seq<char>, c: char, k: int, i: int)
    requires
        0 <= i <= k <= s.len(),
        k < s.len() ==> s[k] == c,
        forall|j: int| 0 <= j < k ==> s[j] != c,
    ensures
        index_from(s, c, i) == k,
    decreases k - i,
{
    if i < k {
        lemma_index_from(s, c, k, i + 1);
    }
}

/// The last index of `c` below `i` is `k`, where it stands there or `k` is `-1`,
/// and it stands nowhere between.
proof fn lemma_index_before(s: Seq<char>, c: char, k: int, i: int)
    requires
        -1 <= k < i <= s.len() || (k == -1 && i == 0),
        k >= 0 ==> s[k] == c,
        forall|j: int| k < j < i ==> s[j] != c,
    ensures
        index_before(s, c, i) == k,
    decreases i,
{
    if i > 0 && k < i - 1 {
        lemma_index_before(s, c, k, i - 1);
    }
}

/// What stands between two texts occurs in the whole, and what occurs in a text
/// stands between two others.
pub proof fn law_occurring_is_standing_between(a: Seq<char>, part: Seq<char>, b: Seq<char>)
    ensures
        occurs_in(a + part + b, part),
        forall|s: Seq<char>| #[trigger]
            occurs_in(s, part) ==> exists|x: Seq<char>, y: Seq<char>|
                s == #[trigger] (x + part + y),
{
    let whole = a + part + b;
    assert(whole.subrange(a.len() as int, (a.len() + part.len()) as int) == part);
    assert(occurs_at(whole, part, a.len() as int));
    assert forall|s: Seq<char>| #[trigger] occurs_in(s, part) implies exists|
        x: Seq<char>,
        y: Seq<char>,
    | s == #[trigger] (x + part + y) by {
        let i = choose|i: int| occurs_at(s, part, i);
        let x = s.take(i);
        let y = s.skip(i + part.len());
        assert(s == x + part + y);
    }
}

/// Putting a text in lower case keeps its length and every character but the
/// letters `A` to `Z`, which become `a` to `z`.
pub proof fn law_lower_case_is_by_letter(s: Seq<char>, i: int)
    requires
        0 <= i < s.len(),
    ensures
        ascii_lowercased(s).len() == s.len(),
        'A' <= s[i] <= 'Z' ==> ascii_lowercased(s)[i] as u32 == s[i] as u32 + 32,
        !('A' <= s[i] <= 'Z') ==> ascii_lowercased(s)[i] == s[i],
        ascii_lowercased(ascii_lowercased(s)) == ascii_lowercased(s),
{
    assert(ascii_lowercased(ascii_lowercased(s)) =~= ascii_lowercased(s));
}

/// What is read as a number is one or more digits, after at most one plus sign,
/// of a number within the limit; leading zeros change nothing.
pub proof fn law_numbers_are_digits(s: Seq<char>, max: nat)
    ensures
        parsed_unsigned(s, max) matches Some(n) ==> n <= max && s.len() > 0 && is_digit(s.last())
            && (is_digit(s.first()) || s.first() == '+') && forall|i: int|
            0 < i < s.len() ==> is_digit(#[trigger] s[i]),
        s.len() > 0 && is_digit(s.first()) ==> parsed_unsigned("+"@ + s, max) == parsed_unsigned(
            s,
            max,
        ),
        s.len() > 0 && is_digit(s.first()) ==> parsed_unsigned("0"@ + s, max) == parsed_unsigned(
            s,
            max,
        ),
{
    reveal_strlit("+");
    reveal_strlit("0");
    if parsed_unsigned(s, max) is Some {
        let digits = unsigned_digits(s);
        assert(is_digit(digits[digits.len() - 1]));
        if s.first() == '+' {
            assert forall|i: int| 0 < i < s.len() implies is_digit(#[trigger] s[i]) by {
                assert(digits[i - 1] == s[i]);
            }
        } else {
            assert(is_digit(digits[0]));
            assert forall|i: int| 0 < i < s.len() implies is_digit(#[trigger] s[i]) by {
                assert(digits[i] == s[i]);
            }
        }
    }
    if s.len() > 0 && is_digit(s.first()) {
        assert(("+"@ + s).drop_first() == s);
        assert(unsigned_digits("+"@ + s) == s);
        let padded = "0"@ + s;
        assert(unsigned_digits(padded) == padded);
        assert(unsigned_digits(s) == s);
        lemma_leading_zero(s);
        assert(forall|i: int| 0 <= i < s.len() ==> #[trigger] padded[i + 1] == s[i]);
        if forall|i: int| 0 <= i < s.len() ==> is_digit(#[trigger] s[i]) {
            assert forall|i: int| 0 <= i < padded.len() implies is_digit(#[trigger] padded[i]) by {
                if i > 0 {
                    assert(padded[i] == s[i - 1]);
                }
            }
        } else {
            let i = choose|i: int| 0 <= i < s.len() && !is_digit(#[trigger] s[i]);
            assert(!is_digit(padded[i + 1]));
        }
    }
}

/// A leading zero changes no number.
proof fn lemma_leading_zero(s: Seq<char>)
    ensures
        decimal_value("0"@ + s) == decimal_value(s),
    decreases s.len(),
{
    reveal_strlit("0");
    let padded = "0"@ + s;
    if s.len() > 0 {
        lemma_leading_zero(s.drop_last());
        assert(padded.drop_last() == "0"@ + s.drop_last());
    } else {
        assert(padded.drop_last() == Seq::<char>::empty());
        assert(decimal_value(Seq::<char>::empty()) == 0);
        assert(s == Seq::<char>::empty());
    }
}

/// What is written in decimal is digits alone.
pub(crate) proof fn lemma_decimal_is_digits(n: nat)
    ensures
        decimal(n).len() > 0,
        forall|i: int| 0 <= i < decimal(n).len() ==> is_digit(#[trigger] decimal(n)[i]),
{
    lemma_decimal_digits(n);
}

/// Trimming takes no character that is not of the class.
pub proof fn law_trim_keeps_other_characters(s: Seq<char>, class: CharClass, c: char)
    requires
        s.contains(c),
        !class.has(c),
    ensures
        trimmed(s, class).contains(c),
{
    lemma_start_keeps(s, class, c);
    lemma_end_keeps(trimmed_start(s, class), class, c);
}

/// A character that is not of the class is not taken off the start.
proof fn lemma_start_keeps(s: Seq<char>, class: CharClass, c: char)
    requires
        s.contains(c),
        !class.has(c),
    ensures
        trimmed_start(s, class).contains(c),
    decreases s.len(),
{
    if s.len() > 0 && class.has(s.first()) {
        let i = choose|i: int| 0 <= i < s.len() && s[i] == c;
        assert(s.drop_first()[i - 1] == c);
        lemma_start_keeps(s.drop_first(), class, c);
    }
}

/// A character that is not of the class is not taken off the end.
proof fn lemma_end_keeps(s: Seq<char>, class: CharClass, c: char)
    requires
        s.contains(c),
        !class.has(c),
    ensures
        trimmed_end(s, class).contains(c),
    decreases s.len(),
{
    if s.len() > 0 && class.has(s.last()) {
        let i = choose|i: int| 0 <= i < s.len() && s[i] == c;
        assert(s.drop_last()[i] == c);
        lemma_end_keeps(s.drop_last(), class, c);
    }
}

/// The characters that can be trimmed: whitespace, of which tabs, line breaks and
/// spaces are the ASCII ones, the double quote, and the square brackets.
pub proof fn law_classes_of_characters(c: char)
    ensures
        c < '\u{80}' ==> (CharClass::Whitespace.has(c) <==> 9 <= c as u32 <= 13 || c == ' '),
        c >= '\u{80}' ==> (CharClass::Whitespace.has(c) <==> c as u32 == 0x85 || c as u32 == 0xa0
            || c as u32 == 0x1680 || 0x2000 <= c as u32 <= 0x200a || c as u32 == 0x2028 || c as u32
            == 0x2029 || c as u32 == 0x202f || c as u32 == 0x205f || c as u32 == 0x3000),
        CharClass::Quote.has(c) <==> c == '"',
        CharClass::Bracket.has(c) <==> c == '[' || c == ']',
{
}

/// Taking a character off an end undoes putting it there, and a text that has
/// another character there is left alone.
pub proof fn law_stripping_undoes_adding(s: Seq<char>, c: char)
    ensures
        without_prefix(seq![c] + s, c) == Some(s),
        without_suffix(s.push(c), c) == Some(s),
        s.len() == 0 || s.first() != c ==> without_prefix(s, c) is None,
        s.len() == 0 || s.last() != c ==> without_suffix(s, c) is None,
{
    assert((seq![c] + s).drop_first() == s);
    assert(s.push(c).drop_last() == s);
}

/// Numbers are written in decimal notation: a number below ten is its digit, and
/// any other is that of its tens with the digit of its ones behind it. There are
/// no leading zeros.
pub proof fn law_decimal_notation(tens: nat, digit: nat)
    requires
        digit < 10,
    ensures
        decimal(digit).len() == 1,
        decimal(digit)[0] as u32 == '0' as u32 + digit,
        tens > 0 ==> decimal(tens * 10 + digit) == decimal(tens) + decimal(digit),
        tens > 0 ==> decimal(tens).first() != '0',
    decreases tens,
{
    if tens > 0 {
        assert((tens * 10 + digit) / 10 == tens);
        assert((tens * 10 + digit) % 10 == digit);
        if tens >= 10 {
            law_decimal_notation(tens / 10, tens % 10);
            lemma_decimal_digits(tens / 10);
            assert(tens == (tens / 10) * 10 + tens % 10);
        }
    }
}

/// What is said of an optional text is what it holds.
pub proof fn law_view_of_optional_text(s: String)
    ensures
        optional_text(Some(s)) == Some(s@),
        optional_text(None) is None,
{
}

} // verus!
