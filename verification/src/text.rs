//! Character-level text primitives shared by every analyzer.

use vstd::prelude::*;
use vstd::string::StringSliceAdditionalSpecFns;
use vstd::string::StringExecFns;
use crate::views::{first_index, lemma_first_index_bounds, lemma_first_index_unique};

verus! {

/// Whether two texts hold the same characters.
pub fn str_eq(a: &str, b: &str) -> (r: bool)
    ensures
        r == (a@ == b@),
{
    let x = a.as_bytes();
    let y = b.as_bytes();
    proof {
        vstd::utf8::encode_utf8_decode_utf8(a@);
        vstd::utf8::encode_utf8_decode_utf8(b@);
    }
    if x.len() != y.len() {
        return false;
    }
    let mut i: usize = 0;
    while i < x.len()
        invariant
            i <= x@.len(),
            x@.len() == y@.len(),
            x@ == a.spec_bytes(),
            y@ == b.spec_bytes(),
            forall|j: int| 0 <= j < i ==> x@[j] == y@[j],
        decreases x@.len() - i,
    {
        if x[i] != y[i] {
            return false;
        }
        i += 1;
    }
    assert(x@ =~= y@);
    true
}

/// `String::from_iter` over the characters of a vector: the string holds
/// those characters in order.
#[verifier::external_body]
pub(crate) fn string_of(v: Vec<char>) -> (s: String)
    ensures
        s@ == v@,
{
    String::from_iter(v)
}

/// Copies the characters of `s` into a vector.
pub fn chars_of(s: &str) -> (out: Vec<char>)
    ensures
        out@ == s@,
{
    let mut out: Vec<char> = Vec::new();
    for c in it: s.chars()
        invariant
            out@ == it.seq().take(it.index() as int),
            it.seq() == s@,
    {
        out.push(c);
    }
    out
}


/// Whether `needle` stands in `s` at position `i`.
pub open spec fn occurs_at(s: Seq<char>, needle: Seq<char>, i: int) -> bool {
    0 <= i && i + needle.len() <= s.len() && s.subrange(i, i + needle.len()) == needle
}

/// Whether `needle` stands somewhere in `s`.
pub open spec fn has_substring(s: Seq<char>, needle: Seq<char>) -> bool {
    exists|i: int| occurs_at(s, needle, i)
}

/// Whether `s` begins with `prefix`.
pub open spec fn has_prefix(s: Seq<char>, prefix: Seq<char>) -> bool {
    occurs_at(s, prefix, 0)
}

/// Whether `s` ends with `suffix`.
pub open spec fn has_suffix(s: Seq<char>, suffix: Seq<char>) -> bool {
    occurs_at(s, suffix, s.len() - suffix.len())
}

/// Whether `needle` stands in `s` at position `i`.
pub fn matches_at(s: &Vec<char>, needle: &Vec<char>, i: usize) -> (r: bool)
    ensures
        r == occurs_at(s@, needle@, i as int),
{
    if needle.len() > s.len() || i > s.len() - needle.len() {
        return false;
    }
    let mut k: usize = 0;
    while k < needle.len()
        invariant
            k <= needle@.len(),
            i + needle@.len() <= s@.len() <= usize::MAX,
            forall|j: int| 0 <= j < k ==> s@[i + j] == needle@[j],
        decreases needle@.len() - k,
    {
        if s[i + k] != needle[k] {
            assert(s@.subrange(i as int, i + needle@.len())[k as int] == s@[i + k]);
            return false;
        }
        k += 1;
    }
    assert(s@.subrange(i as int, i + needle@.len()) =~= needle@);
    true
}

/// Whether `s` begins with `prefix`.
pub fn starts_with(s: &Vec<char>, prefix: &Vec<char>) -> (r: bool)
    ensures
        r == has_prefix(s@, prefix@),
{
    matches_at(s, prefix, 0)
}

/// Whether `s` ends with `suffix`.
pub fn ends_with(s: &Vec<char>, suffix: &Vec<char>) -> (r: bool)
    ensures
        r == has_suffix(s@, suffix@),
{
    if suffix.len() > s.len() {
        return false;
    }
    matches_at(s, suffix, s.len() - suffix.len())
}

/// Whether `needle` stands somewhere in `s`.
pub fn contains(s: &Vec<char>, needle: &Vec<char>) -> (r: bool)
    ensures
        r == has_substring(s@, needle@),
{
    if needle.len() > s.len() {
        return false;
    }
    let limit = s.len() - needle.len();
    let mut i: usize = 0;
    loop
        invariant
            limit == s@.len() - needle@.len(),
            i <= limit,
            forall|k: int| 0 <= k < i ==> !occurs_at(s@, needle@, k),
        decreases limit - i,
    {
        if matches_at(s, needle, i) {
            return true;
        }
        if i == limit {
            return false;
        }
        i += 1;
    }
}

/// Position of the first `c` in `s` at or after `from`, or the length of `s`
/// when there is none.
pub fn find_char(s: &Vec<char>, c: char, from: usize) -> (r: usize)
    requires
        from <= s@.len(),
    ensures
        r == from + first_index(s@.skip(from as int), c),
        from <= r <= s@.len(),
{
    let mut i = from;
    while i < s.len()
        invariant
            from <= i <= s@.len(),
            forall|j: int| from <= j < i ==> s@[j] != c,
        decreases s@.len() - i,
    {
        if s[i] == c {
            proof {
                lemma_first_index_unique(s@.skip(from as int), c, i - from);
            }
            return i;
        }
        i += 1;
    }
    proof {
        lemma_first_index_unique(s@.skip(from as int), c, i - from);
    }
    i
}

/// The characters of `s` from `from` up to `to`.
pub fn slice(s: &Vec<char>, from: usize, to: usize) -> (out: Vec<char>)
    requires
        from <= to <= s@.len(),
    ensures
        out@ == s@.subrange(from as int, to as int),
{
    let mut out: Vec<char> = Vec::new();
    let mut i = from;
    while i < to
        invariant
            from <= i <= to <= s@.len(),
            out@ == s@.subrange(from as int, i as int),
        decreases to - i,
    {
        out.push(s[i]);
        assert(out@ =~= s@.subrange(from as int, i + 1));
        i += 1;
    }
    out
}

/// The pieces of `s` between occurrences of `c`. There is always at least
/// one piece; two occurrences in a row, or one at either end, give an empty
/// piece.
pub open spec fn split_on(s: Seq<char>, c: char) -> Seq<Seq<char>>
    decreases s.len(),
{
    let i = first_index(s, c);
    if 0 <= i < s.len() {
        seq![s.take(i)] + split_on(s.skip(i + 1), c)
    } else {
        seq![s]
    }
}

/// The pieces of `s` between occurrences of `c`.
pub fn split_char(s: &Vec<char>, c: char) -> (out: Vec<Vec<char>>)
    ensures
        out.deep_view() == split_on(s@, c),
        out@.len() >= 1,
{
    let mut out: Vec<Vec<char>> = Vec::new();
    let mut pos: usize = 0;
    assert(s@.skip(0) =~= s@);
    assert(Seq::<Seq<char>>::empty() + split_on(s@, c) =~= split_on(s@, c));
    loop
        invariant_except_break
            pos <= s@.len(),
            split_on(s@, c) == out.deep_view() + split_on(s@.skip(pos as int), c),
        ensures
            out.deep_view() == split_on(s@, c),
            out@.len() >= 1,
        decreases s@.len() - pos,
    {
        let next = find_char(s, c, pos);
        let piece = slice(s, pos, next);
        let ghost rest = s@.skip(pos as int);
        let ghost before = out.deep_view();
        proof {
            lemma_first_index_bounds(rest, c);
            assert(rest.take(next - pos) =~= s@.subrange(pos as int, next as int));
            assert(split_on(rest, c) == if next < s@.len() {
                seq![rest.take(next - pos)] + split_on(rest.skip(next - pos + 1), c)
            } else {
                seq![rest]
            });
            crate::views::lemma_deep_view_push(out@, out@.push(piece), piece);
            assert(piece.deep_view() =~= piece@);
        }
        out.push(piece);
        if next < s.len() {
            proof {
                assert(rest.skip(next - pos + 1) =~= s@.skip(next + 1));
                assert(before + (seq![piece@] + split_on(s@.skip(next + 1), c)) =~= before.push(
                    piece@,
                ) + split_on(s@.skip(next + 1), c));
            }
            pos = next + 1;
        } else {
            proof {
                assert(rest.take(next - pos) =~= rest);
                assert(before + seq![rest] =~= before.push(piece@));
            }
            break;
        }
    }
    out
}

/// Whether `char::is_whitespace` holds of the character: it has the Unicode
/// property `White_Space`.
pub uninterp spec fn char_is_whitespace(c: char) -> bool;

/// `char::is_whitespace`. Among the first 128 characters the space and the
/// characters from the tabulator to the carriage return have the property,
/// and no other.
#[verifier::external_body]
pub(crate) fn is_whitespace(c: char) -> (r: bool)
    ensures
        r == char_is_whitespace(c),
        (c as u32) < 128 ==> r == (c == ' ' || 9 <= (c as u32) <= 13),
{
    c.is_whitespace()
}

/// A set of characters to trim or to look for.
#[derive(Debug, Clone, Copy)]
pub enum CharClass {
    /// The one character.
    Is(char),
    /// A double quote, a single quote or a backtick.
    Quote,
    /// Whitespace.
    Space,
}

impl CharClass {
    /// Whether the class holds `c`.
    pub open spec fn has(self, c: char) -> bool {
        match self {
            CharClass::Is(x) => c == x,
            CharClass::Quote => c == '"' || c == '\'' || c == '`',
            CharClass::Space => char_is_whitespace(c),
        }
    }

    /// Whether the class holds `c`.
    pub fn test(&self, c: char) -> (r: bool)
        ensures
            r == self.has(c),
    {
        match self {
            CharClass::Is(x) => c == *x,
            CharClass::Quote => c == '"' || c == '\'' || c == '`',
            CharClass::Space => is_whitespace(c),
        }
    }
}

/// Number of leading characters of `s` that are in `class`.
pub open spec fn leading_count(s: Seq<char>, class: CharClass) -> nat
    decreases s.len(),
{
    if s.len() > 0 && class.has(s[0]) {
        1 + leading_count(s.drop_first(), class)
    } else {
        0
    }
}

/// `s` without its leading characters that are in `class`.
pub open spec fn without_leading(s: Seq<char>, class: CharClass) -> Seq<char> {
    s.skip(leading_count(s, class) as int)
}

/// Number of trailing characters of `s` that are in `class`.
pub open spec fn trailing_count(s: Seq<char>, class: CharClass) -> nat
    decreases s.len(),
{
    if s.len() > 0 && class.has(s.last()) {
        1 + trailing_count(s.drop_last(), class)
    } else {
        0
    }
}

/// `s` without its trailing characters that are in `class`.
pub open spec fn without_trailing(s: Seq<char>, class: CharClass) -> Seq<char> {
    s.take(s.len() - trailing_count(s, class))
}

/// `s` without its leading and trailing characters that are in `class`.
pub open spec fn without_surrounding(s: Seq<char>, class: CharClass) -> Seq<char> {
    without_trailing(without_leading(s, class), class)
}

/// `s` without leading and trailing whitespace.
pub open spec fn trimmed(s: Seq<char>) -> Seq<char> {
    without_surrounding(s, CharClass::Space)
}

proof fn lemma_leading(s: Seq<char>, class: CharClass, k: int)
    requires
        0 <= k <= s.len(),
        forall|j: int| 0 <= j < k ==> class.has(s[j]),
        k < s.len() ==> !class.has(s[k]),
    ensures
        leading_count(s, class) == k,
    decreases k,
{
    if k > 0 {
        let rest = s.drop_first();
        assert forall|j: int| 0 <= j < k - 1 implies class.has(rest[j]) by {
            assert(rest[j] == s[j + 1]);
        }
        assert(k - 1 < rest.len() ==> rest[k - 1] == s[k]);
        lemma_leading(rest, class, k - 1);
    }
}

proof fn lemma_trailing(s: Seq<char>, class: CharClass, k: int)
    requires
        0 <= k <= s.len(),
        forall|j: int| k <= j < s.len() ==> class.has(s[j]),
        k > 0 ==> !class.has(s[k - 1]),
    ensures
        trailing_count(s, class) == s.len() - k,
    decreases s.len() - k,
{
    if k < s.len() {
        let rest = s.drop_last();
        lemma_trailing(rest, class, k);
    }
}

/// Number of leading characters of `s` that are in `class`.
pub fn count_leading(s: &Vec<char>, class: CharClass) -> (n: usize)
    ensures
        n == leading_count(s@, class),
        n <= s@.len(),
{
    let mut k: usize = 0;
    while k < s.len() && class.test(s[k])
        invariant
            k <= s@.len(),
            forall|j: int| 0 <= j < k ==> class.has(s@[j]),
        decreases s@.len() - k,
    {
        k += 1;
    }
    proof {
        lemma_leading(s@, class, k as int);
    }
    k
}

/// `s` without its leading characters that are in `class`.
pub fn trim_start(s: &Vec<char>, class: CharClass) -> (out: Vec<char>)
    ensures
        out@ == without_leading(s@, class),
{
    let k = count_leading(s, class);
    let out = slice(s, k, s.len());
    assert(s@.subrange(k as int, s@.len() as int) =~= s@.skip(k as int));
    out
}

/// `s` without its trailing characters that are in `class`.
pub fn trim_end(s: &Vec<char>, class: CharClass) -> (out: Vec<char>)
    ensures
        out@ == without_trailing(s@, class),
{
    let mut k: usize = s.len();
    while k > 0 && class.test(s[k - 1])
        invariant
            k <= s@.len(),
            forall|j: int| k <= j < s@.len() ==> class.has(s@[j]),
        decreases k,
    {
        k -= 1;
    }
    proof {
        lemma_trailing(s@, class, k as int);
    }
    let out = slice(s, 0, k);
    assert(s@.subrange(0, k as int) =~= s@.take(k as int));
    out
}

/// `s` without its leading and trailing characters that are in `class`.
pub fn trim(s: &Vec<char>, class: CharClass) -> (out: Vec<char>)
    ensures
        out@ == without_surrounding(s@, class),
{
    let front = trim_start(s, class);
    trim_end(&front, class)
}

/// `s` without its leading and trailing characters that are in `class`.
pub fn trim_str(s: &str, class: CharClass) -> (out: String)
    ensures
        out@ == without_surrounding(s@, class),
{
    let text = chars_of(s);
    string_of(trim(&text, class))
}

/// Position of the first occurrence of `needle` in `s` at or after `from`.
pub open spec fn first_match_from(s: Seq<char>, needle: Seq<char>, from: int) -> Option<int>
    decreases s.len() - from,
{
    if from < 0 || from + needle.len() > s.len() {
        None
    } else if occurs_at(s, needle, from) {
        Some(from)
    } else if from == s.len() {
        None
    } else {
        first_match_from(s, needle, from + 1)
    }
}

/// Position of the first occurrence of `needle` in `s`.
pub open spec fn first_match(s: Seq<char>, needle: Seq<char>) -> Option<int> {
    first_match_from(s, needle, 0)
}

/// What follows the first occurrence of `needle` in `s`; nothing when there
/// is no occurrence.
pub open spec fn after_first(s: Seq<char>, needle: Seq<char>) -> Seq<char> {
    match first_match(s, needle) {
        Some(i) => s.skip(i + needle.len()),
        None => Seq::empty(),
    }
}

/// What precedes the first `c` in `s`; all of `s` when there is none.
pub open spec fn until_char(s: Seq<char>, c: char) -> Seq<char> {
    s.take(first_index(s, c))
}

/// Position of the first occurrence of `needle` in `s`.
pub fn find_str(s: &Vec<char>, needle: &Vec<char>) -> (r: Option<usize>)
    ensures
        match r {
            Some(i) => first_match(s@, needle@) == Some(i as int) && i + needle@.len() <= s@.len(),
            None => first_match(s@, needle@) is None,
        },
{
    if needle.len() > s.len() {
        return None;
    }
    let limit = s.len() - needle.len();
    let mut i: usize = 0;
    loop
        invariant
            limit == s@.len() - needle@.len(),
            i <= limit,
            first_match(s@, needle@) == first_match_from(s@, needle@, i as int),
        decreases limit - i,
    {
        if matches_at(s, needle, i) {
            return Some(i);
        }
        if i == limit {
            assert(first_match_from(s@, needle@, i + 1) is None);
            return None;
        }
        i += 1;
    }
}

/// What precedes the first `c` in `s`.
pub fn take_until(s: &Vec<char>, c: char) -> (out: Vec<char>)
    ensures
        out@ == until_char(s@, c),
{
    assert(s@.skip(0) =~= s@);
    let end = find_char(s, c, 0);
    let out = slice(s, 0, end);
    assert(s@.subrange(0, end as int) =~= s@.take(end as int));
    out
}

/// What follows the first occurrence of `needle` in `s`.
pub fn skip_past(s: &Vec<char>, needle: &Vec<char>) -> (out: Vec<char>)
    ensures
        out@ == after_first(s@, needle@),
{
    let end = s.len();
    match find_str(s, needle) {
        Some(i) => {
            let out = slice(s, i + needle.len(), end);
            assert(s@.subrange(i + needle@.len(), s@.len() as int) =~= s@.skip(i + needle@.len()));
            out
        },
        None => Vec::new(),
    }
}

/// The host a URL names: what stands between the first `//` and the next
/// `/`, `?` or `#`; `None` when that is empty or the URL has no `//`.
pub open spec fn host_of(url: Seq<char>) -> Option<Seq<char>> {
    let host = until_char(until_char(until_char(after_first(url, "//"@), '/'), '?'), '#');
    if host.len() == 0 {
        None
    } else {
        Some(host)
    }
}

/// The host a URL names.
pub fn host_of_url(url: &str) -> (r: Option<String>)
    ensures
        r.deep_view() == host_of(url@),
{
    let text = chars_of(url);
    let slashes = chars_of("//");
    let rest = skip_past(&text, &slashes);
    let host = take_until(&take_until(&take_until(&rest, '/'), '?'), '#');
    if host.len() == 0 {
        None
    } else {
        Some(string_of(host))
    }
}

/// `s` with nothing repeated: each element stays at its first occurrence.
pub open spec fn distinct<A>(s: Seq<A>) -> Seq<A>
    decreases s.len(),
{
    if s.len() == 0 {
        Seq::empty()
    } else if distinct(s.drop_last()).contains(s.last()) {
        distinct(s.drop_last())
    } else {
        distinct(s.drop_last()).push(s.last())
    }
}

/// Whether `list` holds `item`.
pub fn holds(list: &Vec<String>, item: &str) -> (r: bool)
    ensures
        r == list.deep_view().contains(item@),
{
    let mut i: usize = 0;
    while i < list.len()
        invariant
            i <= list@.len(),
            forall|j: int| 0 <= j < i ==> list.deep_view()[j] != item@,
        decreases list@.len() - i,
    {
        if str_eq(list[i].as_str(), item) {
            assert(list.deep_view()[i as int] == item@);
            return true;
        }
        i += 1;
    }
    false
}

/// Appends `item` unless `list` holds it already.
pub(crate) fn push_distinct(list: &mut Vec<String>, item: String, Ghost(seen): Ghost<Seq<Seq<char>>>)
    requires
        old(list).deep_view() == distinct(seen),
    ensures
        final(list).deep_view() == distinct(seen.push(item@)),
{
    assert(seen.push(item@).drop_last() =~= seen);
    if !holds(list, item.as_str()) {
        proof {
            crate::views::lemma_deep_view_push(list@, list@.push(item), item);
        }
        list.push(item);
    }
}


/// The text in lower case, as `str::to_lowercase` gives it.
pub uninterp spec fn lowercase(s: Seq<char>) -> Seq<char>;

/// The text in upper case, as `str::to_uppercase` gives it.
pub uninterp spec fn uppercase(s: Seq<char>) -> Seq<char>;

/// `str::to_lowercase`.
#[verifier::external_body]
pub(crate) fn to_lowercase(s: &str) -> (r: String)
    ensures
        r@ == lowercase(s@),
{
    s.to_lowercase()
}

/// `str::to_uppercase`.
#[verifier::external_body]
pub(crate) fn to_uppercase(s: &str) -> (r: String)
    ensures
        r@ == uppercase(s@),
{
    s.to_uppercase()
}

/// `s` after `prefix` has been taken off its front as often as it stands
/// there.
pub open spec fn without_prefixes(s: Seq<char>, prefix: Seq<char>) -> Seq<char>
    decreases s.len(),
{
    if prefix.len() > 0 && has_prefix(s, prefix) {
        without_prefixes(s.skip(prefix.len() as int), prefix)
    } else {
        s
    }
}

/// `s` after `prefix` has been taken off its front as often as it stands
/// there.
pub fn strip_prefixes(s: &Vec<char>, prefix: &Vec<char>) -> (out: Vec<char>)
    ensures
        out@ == without_prefixes(s@, prefix@),
{
    let mut at: usize = 0;
    let total = s.len();
    assert(s@.skip(0) =~= s@);
    if prefix.len() > 0 {
        while matches_at(s, prefix, at)
            invariant
                at <= s@.len() == total,
                prefix@.len() > 0,
                without_prefixes(s@, prefix@) == without_prefixes(s@.skip(at as int), prefix@),
            decreases s@.len() - at,
        {
            proof {
                let rest = s@.skip(at as int);
                assert(rest.subrange(0, prefix@.len() as int) =~= s@.subrange(
                    at as int,
                    at + prefix@.len(),
                ));
                assert(rest.skip(prefix@.len() as int) =~= s@.skip(at + prefix@.len()));
            }
            at += prefix.len();
        }
        proof {
            let rest = s@.skip(at as int);
            if has_prefix(rest, prefix@) {
                assert(rest.subrange(0, prefix@.len() as int) =~= s@.subrange(
                    at as int,
                    at + prefix@.len(),
                ));
            }
        }
    }
    let out = slice(s, at, s.len());
    assert(s@.subrange(at as int, s@.len() as int) =~= s@.skip(at as int));
    out
}

/// `s` with every `from` replaced by `to`.
pub open spec fn with_replaced(s: Seq<char>, from: char, to: char) -> Seq<char> {
    Seq::new(s.len(), |i: int| if s[i] == from { to } else { s[i] })
}

/// `s` with every `from` replaced by `to`.
pub fn replace_char(s: &Vec<char>, from: char, to: char) -> (out: Vec<char>)
    ensures
        out@ == with_replaced(s@, from, to),
{
    let mut out: Vec<char> = Vec::new();
    let mut i: usize = 0;
    while i < s.len()
        invariant
            i <= s@.len(),
            out@ == with_replaced(s@.take(i as int), from, to),
        decreases s@.len() - i,
    {
        out.push(if s[i] == from { to } else { s[i] });
        assert(out@ =~= with_replaced(s@.take(i + 1), from, to));
        i += 1;
    }
    assert(s@.take(i as int) =~= s@);
    out
}

/// Number of occurrences of `c` in `s`.
pub open spec fn occurrences(s: Seq<char>, c: char) -> nat
    decreases s.len(),
{
    if s.len() == 0 {
        0
    } else if s.last() == c {
        occurrences(s.drop_last(), c) + 1
    } else {
        occurrences(s.drop_last(), c)
    }
}

/// Number of occurrences of `c` in `s`.
pub fn count_char(s: &Vec<char>, c: char) -> (n: usize)
    ensures
        n == occurrences(s@, c),
{
    let mut n: usize = 0;
    let mut i: usize = 0;
    while i < s.len()
        invariant
            i <= s@.len(),
            n <= i,
            n == occurrences(s@.take(i as int), c),
        decreases s@.len() - i,
    {
        assert(s@.take(i + 1).drop_last() =~= s@.take(i as int));
        if s[i] == c {
            n += 1;
        }
        i += 1;
    }
    assert(s@.take(i as int) =~= s@);
    n
}

/// The decimal digit for a number below ten.
pub open spec fn digit(d: nat) -> char {
    if d == 0 {
        '0'
    } else if d == 1 {
        '1'
    } else if d == 2 {
        '2'
    } else if d == 3 {
        '3'
    } else if d == 4 {
        '4'
    } else if d == 5 {
        '5'
    } else if d == 6 {
        '6'
    } else if d == 7 {
        '7'
    } else if d == 8 {
        '8'
    } else {
        '9'
    }
}

/// A number written in decimal, without leading zeros.
pub open spec fn decimal(n: nat) -> Seq<char>
    decreases n,
{
    if n < 10 {
        seq![digit(n)]
    } else {
        decimal(n / 10).push(digit(n % 10))
    }
}

fn digit_char(d: usize) -> (c: char)
    requires
        d < 10,
    ensures
        c == digit(d as nat),
{
    if d == 0 {
        '0'
    } else if d == 1 {
        '1'
    } else if d == 2 {
        '2'
    } else if d == 3 {
        '3'
    } else if d == 4 {
        '4'
    } else if d == 5 {
        '5'
    } else if d == 6 {
        '6'
    } else if d == 7 {
        '7'
    } else if d == 8 {
        '8'
    } else {
        '9'
    }
}

/// `n` written in decimal.
pub fn decimal_of(n: usize) -> (out: Vec<char>)
    ensures
        out@ == decimal(n as nat),
    decreases n,
{
    if n < 10 {
        let mut out: Vec<char> = Vec::new();
        out.push(digit_char(n));
        out
    } else {
        let mut out = decimal_of(n / 10);
        out.push(digit_char(n % 10));
        out
    }
}

/// `a` followed by `b`.
pub fn join2(a: &str, b: &str) -> (out: String)
    ensures
        out@ == a@ + b@,
{
    let mut out = a.to_string();
    out.append(b);
    out
}

/// `a`, `b` and `c` one after the other.
pub fn join3(a: &str, b: &str, c: &str) -> (out: String)
    ensures
        out@ == a@ + b@ + c@,
{
    let mut out = a.to_string();
    out.append(b);
    out.append(c);
    out
}


/// A line without the carriage return that ends it, if one does.
pub open spec fn without_carriage_return(line: Seq<char>) -> Seq<char> {
    if line.len() > 0 && line.last() == '\r' {
        line.drop_last()
    } else {
        line
    }
}

/// The lines of a text. A line ends at a line feed, or at a carriage return
/// that a line feed follows; the ending is not part of the line. What
/// follows the last line feed is a line only if it is not empty.
pub open spec fn lines_of(s: Seq<char>) -> Seq<Seq<char>>
    decreases s.len(),
{
    let i = first_index(s, '\n');
    if s.len() == 0 {
        Seq::empty()
    } else if 0 <= i < s.len() {
        seq![without_carriage_return(s.take(i))] + lines_of(s.skip(i + 1))
    } else {
        seq![s]
    }
}

/// The lines of a text.
pub fn split_lines(s: &Vec<char>) -> (out: Vec<Vec<char>>)
    ensures
        out.deep_view() == lines_of(s@),
{
    let mut out: Vec<Vec<char>> = Vec::new();
    let mut pos: usize = 0;
    assert(s@.skip(0) =~= s@);
    assert(Seq::<Seq<char>>::empty() + lines_of(s@) =~= lines_of(s@));
    while pos < s.len()
        invariant
            pos <= s@.len(),
            lines_of(s@) == out.deep_view() + lines_of(s@.skip(pos as int)),
        decreases s@.len() - pos,
    {
        let next = find_char(s, '\n', pos);
        let ghost rest = s@.skip(pos as int);
        let ghost before = out.deep_view();
        proof {
            lemma_first_index_bounds(rest, '\n');
            assert(rest.take(next - pos) =~= s@.subrange(pos as int, next as int));
        }
        if next < s.len() {
            let end = if next > pos && s[next - 1] == '\r' {
                next - 1
            } else {
                next
            };
            let line = slice(s, pos, end);
            proof {
                assert(rest.take(next - pos).last() == s@[next - 1] || next == pos);
                assert(line@ =~= without_carriage_return(rest.take(next - pos)));
                assert(rest.skip(next - pos + 1) =~= s@.skip(next + 1));
                crate::views::lemma_deep_view_push(out@, out@.push(line), line);
                assert(line.deep_view() =~= line@);
                assert(before + (seq![line@] + lines_of(s@.skip(next + 1))) =~= before.push(line@)
                    + lines_of(s@.skip(next + 1)));
            }
            out.push(line);
            pos = next + 1;
        } else {
            let line = slice(s, pos, next);
            proof {
                assert(rest.take(next - pos) =~= rest);
                crate::views::lemma_deep_view_push(out@, out@.push(line), line);
                assert(line.deep_view() =~= line@);
                assert(s@.skip(next as int).len() == 0);
                assert(before + seq![rest] =~= before.push(line@) + lines_of(s@.skip(next as int)));
            }
            out.push(line);
            pos = next;
        }
    }
    proof {
        assert(s@.skip(pos as int).len() == 0);
        assert(out.deep_view() + lines_of(s@.skip(pos as int)) =~= out.deep_view());
    }
    out
}


// ---------------------------------------------------------------------------
// Paths with forward slashes
// ---------------------------------------------------------------------------

/// Whether a piece of a path counts as a segment: it is neither empty nor
/// `.`.
pub open spec fn is_segment(piece: Seq<char>) -> bool {
    piece.len() > 0 && piece != seq!['.']
}

/// The pieces that count as segments, in order.
pub open spec fn segments_among(pieces: Seq<Seq<char>>) -> Seq<Seq<char>>
    decreases pieces.len(),
{
    if pieces.len() == 0 {
        Seq::empty()
    } else if is_segment(pieces.last()) {
        segments_among(pieces.drop_last()).push(pieces.last())
    } else {
        segments_among(pieces.drop_last())
    }
}

/// The segments of a path: what stands between its slashes, without empty
/// pieces and without `.`.
pub open spec fn segments_of(path: Seq<char>) -> Seq<Seq<char>> {
    segments_among(split_on(path, '/'))
}

/// The name of the file a path ends in; a path that ends in `..` or has no
/// segment names no file.
pub open spec fn file_name_of(path: Seq<char>) -> Option<Seq<char>> {
    let segments = segments_of(path);
    if segments.len() > 0 && segments.last() != seq!['.', '.'] {
        Some(segments.last())
    } else {
        None
    }
}

/// The name of the directory that holds the last segment of a path.
pub open spec fn parent_name_of(path: Seq<char>) -> Option<Seq<char>> {
    let segments = segments_of(path);
    if segments.len() > 1 && segments[segments.len() - 2] != seq!['.', '.'] {
        Some(segments[segments.len() - 2])
    } else {
        None
    }
}

/// Position of the last `c` in `s`, or -1 when there is none.
pub open spec fn last_index(s: Seq<char>, c: char) -> int
    decreases s.len(),
{
    if s.len() == 0 {
        -1
    } else if s.last() == c {
        s.len() - 1
    } else {
        last_index(s.drop_last(), c)
    }
}

/// A file name without its extension: what precedes its last dot, or all of
/// it when it has no dot or only a leading one.
pub open spec fn stem_of(name: Seq<char>) -> Seq<char> {
    let dot = last_index(name, '.');
    if dot <= 0 {
        name
    } else {
        name.take(dot)
    }
}

/// The extension of a file name: what follows its last dot, if it has one
/// that is not leading.
pub open spec fn extension_of_name(name: Seq<char>) -> Option<Seq<char>> {
    let dot = last_index(name, '.');
    if dot <= 0 {
        None
    } else {
        Some(name.skip(dot + 1))
    }
}

/// The stem of the file a path ends in.
pub open spec fn file_stem_of(path: Seq<char>) -> Option<Seq<char>> {
    match file_name_of(path) {
        Some(name) => Some(stem_of(name)),
        None => None,
    }
}

/// The extension of the file a path ends in.
pub open spec fn extension_of(path: Seq<char>) -> Option<Seq<char>> {
    match file_name_of(path) {
        Some(name) => extension_of_name(name),
        None => None,
    }
}

/// Whether the text is the given one or two characters.
fn is_dots(piece: &Vec<char>, count: usize) -> (r: bool)
    requires
        count == 1 || count == 2,
    ensures
        r == (piece@ == if count == 1 {
            seq!['.']
        } else {
            seq!['.', '.']
        }),
{
    if piece.len() != count {
        return false;
    }
    if piece[0] != '.' {
        return false;
    }
    if count == 2 && piece[1] != '.' {
        return false;
    }
    if count == 1 {
        assert(piece@ =~= seq!['.']);
    } else {
        assert(piece@ =~= seq!['.', '.']);
    }
    true
}

/// The segments of a path.
pub fn path_segments(path: &Vec<char>) -> (out: Vec<Vec<char>>)
    ensures
        out.deep_view() == segments_of(path@),
{
    let pieces = split_char(path, '/');
    let mut out: Vec<Vec<char>> = Vec::new();
    let ghost all = pieces.deep_view();
    assert(out.deep_view() =~= segments_among(all.take(0)));
    for piece in it: pieces
        invariant
            it.seq() == pieces@,
            all == pieces.deep_view(),
            out.deep_view() == segments_among(all.take(it.index() as int)),
    {
        let ghost at = it.index() as int;
        proof {
            assert(all.take(at + 1).drop_last() =~= all.take(at));
            assert(all.take(at + 1).last() == piece.deep_view());
            assert(piece.deep_view() =~= piece@);
        }
        if piece.len() > 0 && !is_dots(&piece, 1) {
            proof {
                crate::views::lemma_deep_view_push(out@, out@.push(piece), piece);
            }
            out.push(piece);
        }
    }
    assert(all.take(pieces@.len() as int) =~= all);
    out
}

/// Position of the last `c` in `s`, if there is one.
pub fn rfind_char(s: &Vec<char>, c: char) -> (r: Option<usize>)
    ensures
        match r {
            Some(i) => i == last_index(s@, c) && i < s@.len(),
            None => last_index(s@, c) == -1,
        },
{
    let mut k: usize = s.len();
    assert(s@.take(k as int) =~= s@);
    while k > 0
        invariant
            k <= s@.len(),
            last_index(s@, c) == last_index(s@.take(k as int), c),
        decreases k,
    {
        assert(s@.take(k as int).drop_last() =~= s@.take(k - 1));
        if s[k - 1] == c {
            return Some(k - 1);
        }
        k -= 1;
    }
    None
}

/// The stem of the file a path ends in.
pub fn file_stem(path: &str) -> (r: Option<String>)
    ensures
        r.deep_view() == file_stem_of(path@),
{
    let segments = path_segments(&chars_of(path));
    let n = segments.len();
    if n == 0 || is_dots(&segments[n - 1], 2) {
        assert(n > 0 ==> segments.deep_view()[n - 1] =~= segments[n - 1]@);
        return None;
    }
    let name = &segments[n - 1];
    assert(segments.deep_view()[n - 1] =~= name@);
    match rfind_char(name, '.') {
        Some(dot) => {
            if dot == 0 {
                Some(string_of(slice(name, 0, name.len())))
            } else {
                let stem = slice(name, 0, dot);
                assert(name@.subrange(0, dot as int) =~= name@.take(dot as int));
                Some(string_of(stem))
            }
        },
        None => Some(string_of(slice(name, 0, name.len()))),
    }
}

/// The extension of the file a path ends in.
pub fn extension(path: &str) -> (r: Option<String>)
    ensures
        r.deep_view() == extension_of(path@),
{
    let segments = path_segments(&chars_of(path));
    let n = segments.len();
    if n == 0 || is_dots(&segments[n - 1], 2) {
        assert(n > 0 ==> segments.deep_view()[n - 1] =~= segments[n - 1]@);
        return None;
    }
    let name = &segments[n - 1];
    assert(segments.deep_view()[n - 1] =~= name@);
    match rfind_char(name, '.') {
        Some(dot) => {
            if dot == 0 {
                None
            } else {
                let ext = slice(name, dot + 1, name.len());
                assert(name@.subrange(dot + 1, name@.len() as int) =~= name@.skip(dot + 1));
                Some(string_of(ext))
            }
        },
        None => None,
    }
}

/// The name of the directory that holds the last segment of a path.
pub fn parent_name(path: &str) -> (r: Option<String>)
    ensures
        r.deep_view() == parent_name_of(path@),
{
    let segments = path_segments(&chars_of(path));
    let n = segments.len();
    if n < 2 || is_dots(&segments[n - 2], 2) {
        assert(n > 1 ==> segments.deep_view()[n - 2] =~= segments[n - 2]@);
        return None;
    }
    let name = &segments[n - 2];
    assert(segments.deep_view()[n - 2] =~= name@);
    Some(string_of(slice(name, 0, name.len())))
}


/// Whether `a` comes strictly before `b` in the order of `str`: character
/// by character by code point, a proper prefix first.
pub open spec fn precedes(a: Seq<char>, b: Seq<char>) -> bool
    decreases a.len(),
{
    if b.len() == 0 {
        false
    } else if a.len() == 0 {
        true
    } else if a[0] != b[0] {
        (a[0] as int) < (b[0] as int)
    } else {
        precedes(a.drop_first(), b.drop_first())
    }
}

/// Whether `a` comes strictly before `b` in the order of `str`.
pub fn comes_before(a: &Vec<char>, b: &Vec<char>) -> (r: bool)
    ensures
        r == precedes(a@, b@),
{
    let mut i: usize = 0;
    assert(a@.skip(0) =~= a@);
    assert(b@.skip(0) =~= b@);
    loop
        invariant
            i <= a@.len(),
            i <= b@.len(),
            precedes(a@, b@) == precedes(a@.skip(i as int), b@.skip(i as int)),
        decreases a@.len() - i,
    {
        if i >= b.len() {
            return false;
        }
        if i >= a.len() {
            return true;
        }
        proof {
            assert(a@.skip(i as int)[0] == a@[i as int]);
            assert(b@.skip(i as int)[0] == b@[i as int]);
            assert(a@.skip(i as int).drop_first() =~= a@.skip(i + 1));
            assert(b@.skip(i as int).drop_first() =~= b@.skip(i + 1));
        }
        if a[i] != b[i] {
            return a[i] < b[i];
        }
        i += 1;
    }
}


/// The order of texts is strict: no text comes before one that comes
/// before it.
pub proof fn lemma_precedes_one_way(a: Seq<char>, b: Seq<char>)
    requires
        precedes(a, b),
    ensures
        !precedes(b, a),
    decreases a.len(),
{
    if a.len() > 0 && b.len() > 0 && a[0] == b[0] {
        lemma_precedes_one_way(a.drop_first(), b.drop_first());
    }
}

/// The order of texts leaves nothing in between undecided: if `c` comes
/// before `a`, then any `b` comes before `a` or after `c`.
pub proof fn lemma_precedes_splits(c: Seq<char>, b: Seq<char>, a: Seq<char>)
    requires
        precedes(c, a),
    ensures
        precedes(b, a) || precedes(c, b),
    decreases a.len(),
{
    if c.len() > 0 && b.len() > 0 && a.len() > 0 && c[0] == a[0] && b[0] == a[0] {
        lemma_precedes_splits(c.drop_first(), b.drop_first(), a.drop_first());
    }
}

/// A sorted list with one more text: the text stands behind every text
/// that does not come after it.
pub open spec fn placed_in_order(sorted: Seq<Seq<char>>, text: Seq<char>) -> Seq<Seq<char>>
    decreases sorted.len(),
{
    if sorted.len() > 0 && precedes(text, sorted.last()) {
        placed_in_order(sorted.drop_last(), text).push(sorted.last())
    } else {
        sorted.push(text)
    }
}

/// The texts in order, the smaller first; equal texts keep their order.
pub open spec fn in_order(texts: Seq<Seq<char>>) -> Seq<Seq<char>>
    decreases texts.len(),
{
    if texts.len() == 0 {
        Seq::empty()
    } else {
        placed_in_order(in_order(texts.drop_last()), texts.last())
    }
}

proof fn lemma_placed_in_order(sorted: Seq<Seq<char>>, text: Seq<char>, p: int)
    requires
        0 <= p <= sorted.len(),
        forall|j: int| p <= j < sorted.len() ==> precedes(text, sorted[j]),
        p > 0 ==> !precedes(text, sorted[p - 1]),
    ensures
        placed_in_order(sorted, text) == sorted.insert(p, text),
    decreases sorted.len() - p,
{
    if p < sorted.len() {
        lemma_placed_in_order(sorted.drop_last(), text, p);
        assert(sorted.drop_last().insert(p, text).push(sorted.last()) =~= sorted.insert(p, text));
    } else {
        assert(sorted.push(text) =~= sorted.insert(p, text));
    }
}

proof fn lemma_placed_holds(sorted: Seq<Seq<char>>, text: Seq<char>, x: Seq<char>)
    ensures
        placed_in_order(sorted, text).contains(x) <==> sorted.contains(x) || x == text,
    decreases sorted.len(),
{
    if sorted.len() > 0 && precedes(text, sorted.last()) {
        let rest = sorted.drop_last();
        lemma_placed_holds(rest, text, x);
        assert(sorted =~= rest.push(sorted.last()));
        crate::graph_laws::lemma_push_contains(placed_in_order(rest, text), sorted.last(), x);
        crate::graph_laws::lemma_push_contains(rest, sorted.last(), x);
    } else {
        crate::graph_laws::lemma_push_contains(sorted, text, x);
    }
}

proof fn lemma_push_fresh(s: Seq<Seq<char>>, x: Seq<char>)
    requires
        s.no_duplicates(),
        !s.contains(x),
    ensures
        s.push(x).no_duplicates(),
{
    assert forall|i: int, j: int|
        0 <= i < s.push(x).len() && 0 <= j < s.push(x).len() && i != j implies s.push(x)[i] != s.push(
            x,
        )[j] by {
        if i < s.len() && j < s.len() {
        } else if i < s.len() {
            assert(s.contains(s[i]));
        } else {
            assert(s.contains(s[j]));
        }
    }
}

proof fn lemma_placed_repeats_nothing(sorted: Seq<Seq<char>>, text: Seq<char>)
    requires
        sorted.no_duplicates(),
        !sorted.contains(text),
    ensures
        placed_in_order(sorted, text).no_duplicates(),
    decreases sorted.len(),
{
    if sorted.len() > 0 && precedes(text, sorted.last()) {
        let rest = sorted.drop_last();
        assert(sorted =~= rest.push(sorted.last()));
        assert(rest.no_duplicates()) by {
            assert forall|i: int, j: int| 0 <= i < rest.len() && 0 <= j < rest.len() && i != j implies rest[i]
                != rest[j] by {
                assert(rest[i] == sorted[i] && rest[j] == sorted[j]);
            }
        }
        assert(!rest.contains(text)) by {
            if rest.contains(text) {
                let i = choose|i: int| 0 <= i < rest.len() && rest[i] == text;
                assert(sorted[i] == text);
            }
        }
        assert(!rest.contains(sorted.last())) by {
            if rest.contains(sorted.last()) {
                let i = choose|i: int| 0 <= i < rest.len() && rest[i] == sorted.last();
                assert(sorted[i] == sorted[sorted.len() - 1]);
            }
        }
        lemma_placed_repeats_nothing(rest, text);
        lemma_placed_holds(rest, text, sorted.last());
        assert(sorted.last() != text) by {
            assert(sorted.contains(sorted[sorted.len() - 1]));
        }
        lemma_push_fresh(placed_in_order(rest, text), sorted.last());
    } else {
        lemma_push_fresh(sorted, text);
    }
}

/// Ordering texts of which none is repeated repeats none.
pub proof fn lemma_in_order_repeats_nothing(texts: Seq<Seq<char>>)
    requires
        texts.no_duplicates(),
    ensures
        in_order(texts).no_duplicates(),
    decreases texts.len(),
{
    if texts.len() > 0 {
        let rest = texts.drop_last();
        assert(rest.no_duplicates()) by {
            assert forall|i: int, j: int| 0 <= i < rest.len() && 0 <= j < rest.len() && i != j implies rest[i]
                != rest[j] by {
                assert(rest[i] == texts[i] && rest[j] == texts[j]);
            }
        }
        lemma_in_order_repeats_nothing(rest);
        lemma_in_order_holds_the_same(rest, texts.last());
        assert(!rest.contains(texts.last())) by {
            if rest.contains(texts.last()) {
                let i = choose|i: int| 0 <= i < rest.len() && rest[i] == texts.last();
                assert(texts[i] == texts[texts.len() - 1]);
            }
        }
        lemma_placed_repeats_nothing(in_order(rest), texts.last());
    }
}

/// Ordering texts neither adds nor drops one.
pub proof fn lemma_in_order_holds_the_same(texts: Seq<Seq<char>>, x: Seq<char>)
    ensures
        in_order(texts).contains(x) <==> texts.contains(x),
    decreases texts.len(),
{
    if texts.len() > 0 {
        let rest = texts.drop_last();
        lemma_in_order_holds_the_same(rest, x);
        lemma_placed_holds(in_order(rest), texts.last(), x);
        assert(texts =~= rest.push(texts.last()));
        crate::graph_laws::lemma_push_contains(rest, texts.last(), x);
    } else {
        assert(!texts.contains(x));
        assert(!in_order(texts).contains(x));
    }
}

/// Orders texts, the smaller first.
pub fn sort_texts(texts: Vec<String>) -> (sorted: Vec<String>)
    ensures
        sorted.deep_view() == in_order(texts.deep_view()),
{
    let mut sorted: Vec<String> = Vec::new();
    let ghost all = texts.deep_view();
    assert(sorted.deep_view() =~= in_order(all.take(0)));
    for text in it: texts
        invariant
            it.seq() == texts@,
            all == texts.deep_view(),
            sorted.deep_view() == in_order(all.take(it.index() as int)),
    {
        let ghost done = it.index() as int;
        let ghost ranked = sorted.deep_view();
        let name = chars_of(text.as_str());
        let mut p: usize = sorted.len();
        loop
            invariant
                p <= sorted@.len(),
                ranked == sorted.deep_view(),
                name@ == text@,
                forall|j: int| p <= j < sorted@.len() ==> precedes(text@, ranked[j]),
            ensures
                p > 0 ==> !precedes(text@, ranked[p - 1]),
            decreases p,
        {
            if p == 0 {
                break;
            }
            if !comes_before(&name, &chars_of(sorted[p - 1].as_str())) {
                break;
            }
            p -= 1;
        }
        proof {
            lemma_placed_in_order(ranked, text@, p as int);
            assert(all.take(done + 1).drop_last() =~= all.take(done));
            assert(all.take(done + 1).last() == text@);
        }
        let ghost before = sorted@;
        sorted.insert(p, text);
        assert(sorted.deep_view() =~= ranked.insert(p as int, text@)) by {
            assert forall|j: int| 0 <= j < sorted@.len() implies sorted.deep_view()[j]
                == ranked.insert(p as int, text@)[j] by {
                if j < p {
                    assert(sorted@[j] == before[j]);
                } else if j > p {
                    assert(sorted@[j] == before[j - 1]);
                }
            }
        }
    }
    assert(all.take(texts@.len() as int) =~= all);
    sorted
}

} // verus!
