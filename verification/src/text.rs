//! Small operations on character strings that the text codecs share.

use vstd::prelude::*;
use vstd::utf8::{decode_utf8, valid_utf8};

verus! {

/// The words in which `String::from_utf8` refuses bytes that are not UTF-8:
/// where the first offending sequence stands and how long it is. They
/// depend on the bytes alone.
pub uninterp spec fn utf8_fault_text(bytes: Seq<u8>) -> Seq<char>;

/// Calls `String::from_utf8`.
///
/// Believed without proof: that the bytes are accepted exactly when they
/// are well-formed UTF-8, that the string then holds the characters that
/// they encode, and that the error, rendered as text, is
/// `utf8_fault_text` of the bytes.
#[verifier::external_body]
pub(crate) fn string_from_utf8(bytes: Vec<u8>) -> (res: Result<String, String>)
    ensures
        res is Ok <==> valid_utf8(bytes@),
        res matches Ok(s) ==> s@ == decode_utf8(bytes@),
        res matches Err(m) ==> m@ == utf8_fault_text(bytes@),
{
    match String::from_utf8(bytes) {
        Ok(s) => Ok(s),
        Err(e) => Err(e.to_string()),
    }
}

/// The characters of a string, one by one.
pub fn chars_of(s: &str) -> (chars: Vec<char>)
    ensures
        chars@ == s@,
{
    let mut chars: Vec<char> = Vec::new();
    for c in it: s.chars()
        invariant
            chars@ == it.seq().take(it.index() as int),
    {
        chars.push(c);
    }
    chars
}

/// Whether two character slices hold the same characters.
pub fn chars_eq(a: &[char], b: &[char]) -> (equal: bool)
    ensures
        equal == (a@ == b@),
{
    if a.len() != b.len() {
        return false;
    }
    let mut i: usize = 0;
    while i < a.len()
        invariant
            i <= a.len(),
            a.len() == b.len(),
            a@.take(i as int) == b@.take(i as int),
        decreases a.len() - i,
    {
        if a[i] != b[i] {
            return false;
        }
        assert(a@.take(i + 1) == a@.take(i as int).push(a@[i as int]));
        assert(b@.take(i + 1) == b@.take(i as int).push(b@[i as int]));
        i += 1;
    }
    assert(a@.take(a.len() as int) == a@);
    assert(b@.take(b.len() as int) == b@);
    true
}

/// Whether two strings hold the same characters.
pub fn str_eq(a: &str, b: &str) -> (equal: bool)
    ensures
        equal == (a@ == b@),
{
    let x = chars_of(a);
    let y = chars_of(b);
    chars_eq(x.as_slice(), y.as_slice())
}

/// White space, as Unicode's `White_Space` property has it.
pub open spec fn is_space(c: char) -> bool {
    let u = c as u32;
    ||| 0x09 <= u <= 0x0d
    ||| u == 0x20
    ||| u == 0x85
    ||| u == 0xa0
    ||| u == 0x1680
    ||| 0x2000 <= u <= 0x200a
    ||| u == 0x2028
    ||| u == 0x2029
    ||| u == 0x202f
    ||| u == 0x205f
    ||| u == 0x3000
}

/// What trimming takes away: double quotes where `quotes` is set, white
/// space where it is not.
pub open spec fn is_pad(c: char, quotes: bool) -> bool {
    if quotes {
        c == '"'
    } else {
        is_space(c)
    }
}

/// The text without the padding at its front.
pub open spec fn strip_front(s: Seq<char>, quotes: bool) -> Seq<char>
    decreases s.len(),
{
    if s.len() > 0 && is_pad(s[0], quotes) {
        strip_front(s.skip(1), quotes)
    } else {
        s
    }
}

/// The text without the padding at its back.
pub open spec fn strip_back(s: Seq<char>, quotes: bool) -> Seq<char>
    decreases s.len(),
{
    if s.len() > 0 && is_pad(s.last(), quotes) {
        strip_back(s.drop_last(), quotes)
    } else {
        s
    }
}

/// The text without the padding at either end.
pub open spec fn strip(s: Seq<char>, quotes: bool) -> Seq<char> {
    strip_back(strip_front(s, quotes), quotes)
}

/// The text without the white space at either end.
pub open spec fn trim(s: Seq<char>) -> Seq<char> {
    strip(s, false)
}

/// The text without the double quotes at either end.
pub open spec fn trim_quotes(s: Seq<char>) -> Seq<char> {
    strip(s, true)
}

/// Where `x` first stands in `s`, or the length of `s` where it does not
/// occur.
pub open spec fn first_index<T>(s: Seq<T>, x: T) -> int
    decreases s.len(),
{
    if s.len() == 0 || s[0] == x {
        0
    } else {
        1 + first_index(s.skip(1), x)
    }
}

/// `first_index` is the least index at which `x` stands.
pub proof fn lemma_first_index<T>(s: Seq<T>, x: T)
    ensures
        0 <= first_index(s, x) <= s.len(),
        first_index(s, x) < s.len() ==> s[first_index(s, x)] == x,
        forall|j: int| 0 <= j < first_index(s, x) ==> s[j] != x,
    decreases s.len(),
{
    if s.len() == 0 || s[0] == x {
    } else {
        lemma_first_index(s.skip(1), x);
        assert forall|j: int| 0 <= j < first_index(s, x) implies s[j] != x by {
            if j > 0 {
                assert(s[j] == s.skip(1)[j - 1]);
            }
        }
    }
}

/// An index with no `x` before it, and `x` at it or the end of `s`, is
/// `first_index`.
pub proof fn lemma_first_index_is<T>(s: Seq<T>, x: T, i: int)
    requires
        0 <= i <= s.len(),
        i < s.len() ==> s[i] == x,
        forall|j: int| 0 <= j < i ==> s[j] != x,
    ensures
        first_index(s, x) == i,
{
    lemma_first_index(s, x);
    let k = first_index(s, x);
    if k < i {
        assert(s[k] != x);
    } else if k > i {
        assert(s[i] != x);
    }
}

/// Text that begins and ends with something else than padding is left as
/// it is.
pub proof fn lemma_strip_nothing(s: Seq<char>, quotes: bool)
    requires
        s.len() == 0 || (!is_pad(s[0], quotes) && !is_pad(s.last(), quotes)),
    ensures
        strip(s, quotes) == s,
{
}

/// Whether `c` is white space.
pub fn char_is_space(c: char) -> (yes: bool)
    ensures
        yes == is_space(c),
{
    let u: u32 = c as u32;
    (0x09 <= u && u <= 0x0d) || u == 0x20 || u == 0x85 || u == 0xa0 || u == 0x1680 || (0x2000 <= u
        && u <= 0x200a) || u == 0x2028 || u == 0x2029 || u == 0x202f || u == 0x205f || u
        == 0x3000
}

fn char_is_pad(c: char, quotes: bool) -> (yes: bool)
    ensures
        yes == is_pad(c, quotes),
{
    if quotes {
        c == '"'
    } else {
        char_is_space(c)
    }
}

/// Trims the characters from `lo` up to `hi`: the result is the range of
/// what is left.
pub fn strip_range(chars: &Vec<char>, lo: usize, hi: usize, quotes: bool) -> (range: (usize, usize))
    requires
        lo <= hi <= chars.len(),
    ensures
        lo <= range.0 <= range.1 <= hi,
        chars@.subrange(range.0 as int, range.1 as int) == strip(
            chars@.subrange(lo as int, hi as int),
            quotes,
        ),
{
    let mut a: usize = lo;
    while a < hi && char_is_pad(chars[a], quotes)
        invariant
            lo <= a <= hi <= chars.len(),
            strip_front(chars@.subrange(lo as int, hi as int), quotes) == strip_front(
                chars@.subrange(a as int, hi as int),
                quotes,
            ),
        decreases hi - a,
    {
        assert(chars@.subrange(a as int, hi as int).skip(1) =~= chars@.subrange(
            a + 1,
            hi as int,
        ));
        a += 1;
    }
    let mut b: usize = hi;
    while a < b && char_is_pad(chars[b - 1], quotes)
        invariant
            a <= b <= hi <= chars.len(),
            strip_back(chars@.subrange(a as int, hi as int), quotes) == strip_back(
                chars@.subrange(a as int, b as int),
                quotes,
            ),
        decreases b - a,
    {
        assert(chars@.subrange(a as int, b as int).drop_last() =~= chars@.subrange(
            a as int,
            b - 1,
        ));
        b -= 1;
    }
    (a, b)
}

/// Finds the first `x` among the characters from `lo` up to `hi`: its
/// index, or `hi` where there is none.
pub fn find_char(chars: &Vec<char>, lo: usize, hi: usize, x: char) -> (at: usize)
    requires
        lo <= hi <= chars.len(),
    ensures
        lo <= at <= hi,
        at - lo == first_index(chars@.subrange(lo as int, hi as int), x),
{
    let mut at: usize = lo;
    while at < hi && chars[at] != x
        invariant
            lo <= at <= hi <= chars.len(),
            forall|j: int| lo <= j < at ==> chars@[j] != x,
        decreases hi - at,
    {
        at += 1;
    }
    proof {
        lemma_first_index_is(chars@.subrange(lo as int, hi as int), x, at - lo);
    }
    at
}

/// Finds the first `x` among the bytes from `lo` on: its index, or the
/// length of `bytes` where there is none.
pub fn find_byte(bytes: &[u8], lo: usize, x: u8) -> (at: usize)
    requires
        lo <= bytes.len(),
    ensures
        lo <= at <= bytes.len(),
        at - lo == first_index(bytes@.skip(lo as int), x),
{
    let mut at: usize = lo;
    while at < bytes.len() && bytes[at] != x
        invariant
            lo <= at <= bytes.len(),
            forall|j: int| lo <= j < at ==> bytes@[j] != x,
        decreases bytes.len() - at,
    {
        at += 1;
    }
    proof {
        lemma_first_index_is(bytes@.skip(lo as int), x, at - lo);
    }
    at
}

} // verus!
