//! Character-level helpers: ASCII classes, case folding, searching and
//! trimming, with their mathematical definitions.

use vstd::prelude::*;

use crate::outside::{char_is_whitespace, push_char, unicode_whitespace};

verus! {

pub open spec fn is_ascii_digit(c: char) -> bool {
    '0' <= c && c <= '9'
}

pub open spec fn is_ascii_upper(c: char) -> bool {
    'A' <= c && c <= 'Z'
}

pub open spec fn is_ascii_lower(c: char) -> bool {
    'a' <= c && c <= 'z'
}

pub open spec fn is_ascii_letter(c: char) -> bool {
    is_ascii_upper(c) || is_ascii_lower(c)
}

pub open spec fn is_ascii_alnum(c: char) -> bool {
    is_ascii_letter(c) || is_ascii_digit(c)
}

/// ASCII lower-casing of one character; other characters stay as they are.
pub open spec fn ascii_lower_char(c: char) -> char {
    if is_ascii_upper(c) {
        ((c as u32) + 32) as char
    } else {
        c
    }
}

/// ASCII lower-casing of a text, character by character.
pub open spec fn ascii_lower(s: Seq<char>) -> Seq<char> {
    s.map_values(|c: char| ascii_lower_char(c))
}

/// `needle` occurs somewhere in `hay`.
pub open spec fn seq_contains(hay: Seq<char>, needle: Seq<char>) -> bool {
    exists|i: int|
        0 <= i && i + needle.len() <= hay.len() && #[trigger] hay.subrange(i, i + needle.len())
            == needle
}

pub open spec fn seq_starts_with(hay: Seq<char>, prefix: Seq<char>) -> bool {
    prefix.len() <= hay.len() && hay.take(prefix.len() as int) == prefix
}

pub open spec fn seq_ends_with(hay: Seq<char>, suffix: Seq<char>) -> bool {
    suffix.len() <= hay.len() && hay.skip(hay.len() - suffix.len()) == suffix
}

/// White space as `char::is_whitespace` has it: among ASCII characters the
/// space and the controls from tab to carriage return; beyond ASCII the
/// characters with the Unicode `White_Space` property.
pub open spec fn is_white(c: char) -> bool {
    if (c as u32) < 128 {
        c == ' ' || ('\t' <= c && c <= '\r')
    } else {
        unicode_whitespace(c)
    }
}

/// Whether a character is white space (the answer of `char::is_whitespace`).
pub fn is_white_exec(c: char) -> (r: bool)
    ensures
        r == is_white(c),
{
    if (c as u32) < 128 {
        c == ' ' || ('\t' <= c && c <= '\r')
    } else {
        char_is_whitespace(c)
    }
}

/// `hay` with leading white space removed (as `str::trim_start`).
pub open spec fn trim_start_spec(s: Seq<char>) -> Seq<char>
    decreases s.len(),
{
    if s.len() > 0 && is_white(s[0]) {
        trim_start_spec(s.drop_first())
    } else {
        s
    }
}

/// `hay` with trailing white space removed (as `str::trim_end`).
pub open spec fn trim_end_spec(s: Seq<char>) -> Seq<char>
    decreases s.len(),
{
    if s.len() > 0 && is_white(s.last()) {
        trim_end_spec(s.drop_last())
    } else {
        s
    }
}

/// `hay` with white space removed at both ends (as `str::trim`).
pub open spec fn trim_spec(s: Seq<char>) -> Seq<char> {
    trim_end_spec(trim_start_spec(s))
}

/// `s` with every leading and trailing `c` removed (as `str::trim_matches`
/// with one character).
pub open spec fn trim_char_start(s: Seq<char>, c: char) -> Seq<char>
    decreases s.len(),
{
    if s.len() > 0 && s[0] == c {
        trim_char_start(s.drop_first(), c)
    } else {
        s
    }
}

pub open spec fn trim_char_end(s: Seq<char>, c: char) -> Seq<char>
    decreases s.len(),
{
    if s.len() > 0 && s.last() == c {
        trim_char_end(s.drop_last(), c)
    } else {
        s
    }
}

pub open spec fn trim_char(s: Seq<char>, c: char) -> Seq<char> {
    trim_char_end(trim_char_start(s, c), c)
}

/// The characters of a string slice.
pub fn chars_of(s: &str) -> (out: Vec<char>)
    ensures
        out@ == s@,
{
    let mut out: Vec<char> = Vec::new();
    for c in it: s.chars()
        invariant
            out@ == it.seq().take(it.index() as int),
    {
        out.push(c);
    }
    out
}

/// A string made of the given characters.
pub fn string_from_chars(cs: &[char]) -> (s: String)
    ensures
        s@ == cs@,
{
    let mut s = String::new();
    let mut i: usize = 0;
    while i < cs.len()
        invariant
            i <= cs.len(),
            s@ == cs@.take(i as int),
        decreases cs.len() - i,
    {
        push_char(&mut s, cs[i]);
        i = i + 1;
        assert(cs@.take(i as int) == cs@.take(i - 1).push(cs@[i - 1]));
    }
    assert(cs@.take(cs.len() as int) == cs@);
    s
}

/// A copy of a string slice as an owned string.
pub fn owned(s: &str) -> (r: String)
    ensures
        r@ == s@,
{
    let cs = chars_of(s);
    string_from_chars(cs.as_slice())
}

/// The concatenation of two texts.
pub fn concat(a: &str, b: &str) -> (r: String)
    ensures
        r@ == a@ + b@,
{
    let mut cs = chars_of(a);
    let bs = chars_of(b);
    let mut i: usize = 0;
    while i < bs.len()
        invariant
            i <= bs.len(),
            bs@ == b@,
            cs@ == a@ + b@.take(i as int),
        decreases bs.len() - i,
    {
        cs.push(bs[i]);
        i = i + 1;
        assert(b@.take(i as int) == b@.take(i - 1).push(b@[i - 1]));
    }
    assert(b@.take(bs.len() as int) == b@);
    string_from_chars(cs.as_slice())
}

pub fn ascii_lower_char_exec(c: char) -> (r: char)
    ensures
        r == ascii_lower_char(c),
{
    if 'A' <= c && c <= 'Z' {
        let b: u8 = c as u8;
        let l: u8 = b + 32;
        l as char
    } else {
        c
    }
}

/// ASCII lower-casing of a sequence of characters.
pub fn ascii_lower_chars(cs: &[char]) -> (r: Vec<char>)
    ensures
        r@ == ascii_lower(cs@),
{
    let mut r: Vec<char> = Vec::new();
    let mut i: usize = 0;
    while i < cs.len()
        invariant
            i <= cs.len(),
            r@ == ascii_lower(cs@.take(i as int)),
        decreases cs.len() - i,
    {
        r.push(ascii_lower_char_exec(cs[i]));
        i = i + 1;
        assert(ascii_lower(cs@.take(i as int)) == ascii_lower(cs@.take(i - 1)).push(
            ascii_lower_char(cs@[i - 1]),
        ));
    }
    assert(cs@.take(cs.len() as int) == cs@);
    r
}

/// Whether `needle` occurs in `hay` at position `at`.
pub fn occurs_at(hay: &[char], needle: &[char], at: usize) -> (r: bool)
    requires
        at + needle.len() <= hay.len(),
    ensures
        r == (hay@.subrange(at as int, at + needle.len()) == needle@),
{
    let mut j: usize = 0;
    while j < needle.len()
        invariant
            at + needle.len() <= hay.len(),
            j <= needle.len(),
            forall|k: int| 0 <= k < j ==> hay@[at + k] == needle@[k],
        decreases needle.len() - j,
    {
        if hay[at + j] != needle[j] {
            assert(hay@.subrange(at as int, at + needle.len())[j as int] != needle@[j as int]);
            return false;
        }
        j = j + 1;
    }
    assert(hay@.subrange(at as int, at + needle.len()) =~= needle@);
    true
}

/// Whether `needle` occurs anywhere in `hay` (as `str::contains`).
pub fn contains_chars(hay: &[char], needle: &[char]) -> (r: bool)
    ensures
        r == seq_contains(hay@, needle@),
{
    if needle.len() > hay.len() {
        return false;
    }
    let last = hay.len() - needle.len();
    let mut i: usize = 0;
    loop
        invariant
            i <= last,
            last + needle.len() == hay.len(),
            forall|k: int|
                0 <= k < i ==> #[trigger] hay@.subrange(k, k + needle.len()) != needle@,
        decreases last - i,
    {
        if occurs_at(hay, needle, i) {
            return true;
        }
        if i == last {
            return false;
        }
        i = i + 1;
    }
}

/// Whether `needle` occurs anywhere in `hay`.
pub fn str_contains(hay: &str, needle: &str) -> (r: bool)
    ensures
        r == seq_contains(hay@, needle@),
{
    let h = chars_of(hay);
    let n = chars_of(needle);
    contains_chars(h.as_slice(), n.as_slice())
}

/// Whether `hay` begins with `prefix`.
pub fn starts_with_chars(hay: &[char], prefix: &[char]) -> (r: bool)
    ensures
        r == seq_starts_with(hay@, prefix@),
{
    if prefix.len() > hay.len() {
        return false;
    }
    let r = occurs_at(hay, prefix, 0);
    assert(hay@.subrange(0, prefix.len() as int) == hay@.take(prefix.len() as int));
    r
}

/// Whether `hay` ends with `suffix`.
pub fn ends_with_chars(hay: &[char], suffix: &[char]) -> (r: bool)
    ensures
        r == seq_ends_with(hay@, suffix@),
{
    if suffix.len() > hay.len() {
        return false;
    }
    let at = hay.len() - suffix.len();
    let r = occurs_at(hay, suffix, at);
    assert(hay@.subrange(at as int, hay.len() as int) == hay@.skip(at as int));
    r
}

/// The decimal digits of `n`, most significant first.
pub open spec fn decimal(n: nat) -> Seq<char>
    decreases n,
{
    if n < 10 {
        seq![(48 + n) as char]
    } else {
        decimal(n / 10).push((48 + n % 10) as char)
    }
}

fn digit_char(d: u128) -> (c: char)
    requires
        d < 10,
    ensures
        c == (48 + d) as char,
{
    let b: u8 = (48 + d) as u8;
    b as char
}

/// Appends the decimal digits of `n`.
pub fn push_decimal(out: &mut Vec<char>, n: u128)
    ensures
        final(out)@ == old(out)@ + decimal(n as nat),
    decreases n,
{
    if n < 10 {
        out.push(digit_char(n));
    } else {
        push_decimal(out, n / 10);
        out.push(digit_char(n % 10));
    }
}

/// The text `prefix` followed by the decimal digits of `n`.
pub fn with_decimal(prefix: &str, n: u128) -> (r: String)
    ensures
        r@ == prefix@ + decimal(n as nat),
{
    let mut cs = chars_of(prefix);
    push_decimal(&mut cs, n);
    string_from_chars(cs.as_slice())
}

/// Whether two character sequences are equal.
pub fn chars_eq(a: &[char], b: &[char]) -> (r: bool)
    ensures
        r == (a@ == b@),
{
    if a.len() != b.len() {
        return false;
    }
    let r = occurs_at(a, b, 0);
    assert(a@.subrange(0, b.len() as int) =~= a@);
    r
}

/// Whether two texts are equal.
pub fn str_eq(a: &str, b: &str) -> (r: bool)
    ensures
        r == (a@ == b@),
{
    let x = chars_of(a);
    let y = chars_of(b);
    chars_eq(x.as_slice(), y.as_slice())
}

/// Whether the text holds the character `c`.
pub fn has_char(cs: &[char], c: char) -> (r: bool)
    ensures
        r == cs@.contains(c),
{
    let mut i: usize = 0;
    while i < cs.len()
        invariant
            i <= cs.len(),
            forall|k: int| 0 <= k < i ==> cs@[k] != c,
        decreases cs.len() - i,
    {
        if cs[i] == c {
            assert(cs@[i as int] == c);
            return true;
        }
        i = i + 1;
    }
    false
}

/// The position of the first `c` in `s`, if any.
pub open spec fn first_index_of(s: Seq<char>, c: char) -> Option<nat>
    decreases s.len(),
{
    if s.len() == 0 {
        None
    } else if s[0] == c {
        Some(0)
    } else {
        match first_index_of(s.drop_first(), c) {
            Some(i) => Some(i + 1),
            None => None,
        }
    }
}

proof fn lemma_first_index_of(s: Seq<char>, c: char, i: int)
    requires
        0 <= i <= s.len(),
        forall|k: int| 0 <= k < i ==> s[k] != c,
    ensures
        i < s.len() && s[i] == c ==> first_index_of(s, c) == Some(i as nat),
        i == s.len() ==> first_index_of(s, c) is None,
    decreases i,
{
    if i > 0 {
        lemma_first_index_of(s.drop_first(), c, i - 1);
    }
}

/// The position of the first `c` among the characters, if any.
pub fn find_char(cs: &[char], c: char) -> (r: Option<usize>)
    ensures
        match r {
            Some(i) => first_index_of(cs@, c) == Some(i as nat) && i < cs.len(),
            None => first_index_of(cs@, c) is None,
        },
{
    let mut i: usize = 0;
    while i < cs.len()
        invariant
            i <= cs.len(),
            forall|k: int| 0 <= k < i ==> cs@[k] != c,
        decreases cs.len() - i,
    {
        if cs[i] == c {
            proof {
                lemma_first_index_of(cs@, c, i as int);
            }
            return Some(i);
        }
        i = i + 1;
    }
    proof {
        lemma_first_index_of(cs@, c, i as int);
    }
    None
}

proof fn lemma_trim_char_start_skip(s: Seq<char>, c: char, i: int)
    requires
        0 <= i <= s.len(),
        forall|k: int| 0 <= k < i ==> #[trigger] s[k] == c,
    ensures
        trim_char_start(s, c) == trim_char_start(s.skip(i), c),
    decreases i,
{
    if i > 0 {
        assert(s.drop_first().skip(i - 1) == s.skip(i));
        lemma_trim_char_start_skip(s.drop_first(), c, i - 1);
    } else {
        assert(s.skip(0) == s);
    }
}

proof fn lemma_trim_char_end_take(s: Seq<char>, c: char, j: int)
    requires
        0 <= j <= s.len(),
        forall|k: int| j <= k < s.len() ==> #[trigger] s[k] == c,
    ensures
        trim_char_end(s, c) == trim_char_end(s.take(j), c),
    decreases s.len() - j,
{
    if j < s.len() {
        assert(s.drop_last().take(j) == s.take(j));
        lemma_trim_char_end_take(s.drop_last(), c, j);
    } else {
        assert(s.take(j) == s);
    }
}

/// The characters with every leading and trailing `c` removed (as
/// `str::trim_matches` with one character).
pub fn trim_char_chars(cs: &[char], c: char) -> (r: Vec<char>)
    ensures
        r@ == trim_char(cs@, c),
{
    let mut i: usize = 0;
    while i < cs.len() && cs[i] == c
        invariant
            i <= cs.len(),
            forall|k: int| 0 <= k < i ==> #[trigger] cs@[k] == c,
        decreases cs.len() - i,
    {
        i = i + 1;
    }
    proof {
        lemma_trim_char_start_skip(cs@, c, i as int);
    }
    let ghost rest = cs@.skip(i as int);
    let mut j: usize = cs.len();
    while j > i && cs[j - 1] == c
        invariant
            i <= j <= cs.len(),
            rest == cs@.skip(i as int),
            forall|k: int| j - i <= k < rest.len() ==> #[trigger] rest[k] == c,
        decreases j,
    {
        j = j - 1;
    }
    proof {
        lemma_trim_char_end_take(rest, c, j - i);
        assert(!(i < cs.len() && cs@[i as int] == c) ==> trim_char_start(rest, c) == rest);
    }
    let mut r: Vec<char> = Vec::new();
    let mut k: usize = i;
    while k < j
        invariant
            i <= k <= j <= cs.len(),
            r@ == cs@.subrange(i as int, k as int),
        decreases j - k,
    {
        r.push(cs[k]);
        k = k + 1;
        assert(cs@.subrange(i as int, k as int) == cs@.subrange(i as int, k - 1).push(
            cs@[k - 1],
        ));
    }
    assert(rest.take(j - i) == cs@.subrange(i as int, j as int));
    r
}

/// The first `n` characters.
pub fn take_chars(cs: &[char], n: usize) -> (r: Vec<char>)
    requires
        n <= cs.len(),
    ensures
        r@ == cs@.take(n as int),
{
    let mut r: Vec<char> = Vec::new();
    let mut k: usize = 0;
    while k < n
        invariant
            k <= n <= cs.len(),
            r@ == cs@.take(k as int),
        decreases n - k,
    {
        r.push(cs[k]);
        k = k + 1;
        assert(cs@.take(k as int) == cs@.take(k - 1).push(cs@[k - 1]));
    }
    r
}

proof fn lemma_trim_start_skip(s: Seq<char>, i: int)
    requires
        0 <= i <= s.len(),
        forall|k: int| 0 <= k < i ==> is_white(#[trigger] s[k]),
    ensures
        trim_start_spec(s) == trim_start_spec(s.skip(i)),
    decreases i,
{
    if i > 0 {
        assert(s.drop_first().skip(i - 1) == s.skip(i));
        lemma_trim_start_skip(s.drop_first(), i - 1);
    } else {
        assert(s.skip(0) == s);
    }
}

proof fn lemma_trim_end_take(s: Seq<char>, j: int)
    requires
        0 <= j <= s.len(),
        forall|k: int| j <= k < s.len() ==> is_white(#[trigger] s[k]),
    ensures
        trim_end_spec(s) == trim_end_spec(s.take(j)),
    decreases s.len() - j,
{
    if j < s.len() {
        assert(s.drop_last().take(j) == s.take(j));
        lemma_trim_end_take(s.drop_last(), j);
    } else {
        assert(s.take(j) == s);
    }
}

/// The characters with white space removed at both ends (as `str::trim`).
pub fn trim_chars(cs: &[char]) -> (r: Vec<char>)
    ensures
        r@ == trim_spec(cs@),
{
    let mut i: usize = 0;
    while i < cs.len() && is_white_exec(cs[i])
        invariant
            i <= cs.len(),
            forall|k: int| 0 <= k < i ==> is_white(#[trigger] cs@[k]),
        decreases cs.len() - i,
    {
        i = i + 1;
    }
    proof {
        lemma_trim_start_skip(cs@, i as int);
    }
    let ghost rest = cs@.skip(i as int);
    let mut j: usize = cs.len();
    while j > i && is_white_exec(cs[j - 1])
        invariant
            i <= j <= cs.len(),
            rest == cs@.skip(i as int),
            forall|k: int| j - i <= k < rest.len() ==> is_white(#[trigger] rest[k]),
        decreases j,
    {
        j = j - 1;
    }
    proof {
        lemma_trim_end_take(rest, j - i);
        assert(!(i < cs.len() && is_white(cs@[i as int])) ==> trim_start_spec(rest)
            == rest);
    }
    let mut r: Vec<char> = Vec::new();
    let mut k: usize = i;
    while k < j
        invariant
            i <= k <= j <= cs.len(),
            r@ == cs@.subrange(i as int, k as int),
        decreases j - k,
    {
        r.push(cs[k]);
        k = k + 1;
        assert(cs@.subrange(i as int, k as int) == cs@.subrange(i as int, k - 1).push(
            cs@[k - 1],
        ));
    }
    assert(rest.take(j - i) == cs@.subrange(i as int, j as int));
    r
}

} // verus!
