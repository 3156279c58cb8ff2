//! Text helpers shared by the whole crate.
//!
//! Strings are modelled by their view, a `Seq<char>`. Sizes are counted in
//! bytes of the UTF-8 encoding, as `str::len` does.

use vstd::prelude::*;
use vstd::string::*;
use vstd::utf8::*;

verus! {

/// Length in bytes of the UTF-8 encoding of `s`.
pub open spec fn byte_len(s: Seq<char>) -> nat {
    encode_utf8(s).len()
}

/// Rough token estimate of a text: one token for every four bytes.
pub open spec fn token_count(s: Seq<char>) -> nat {
    byte_len(s) / 4
}

/// The number of bytes of `s`.
pub fn byte_length(s: &str) -> (n: usize)
    ensures
        n == byte_len(s@),
{
    s.as_bytes().len()
}

/// `needle` occurs in `hay` as a contiguous run of characters.
pub open spec fn occurs_in(needle: Seq<char>, hay: Seq<char>) -> bool {
    exists|i: int|
        0 <= i && i + needle.len() <= hay.len() && #[trigger] hay.subrange(i, i + needle.len())
            == needle
}

/// The lowercase form of a text, as `str::to_lowercase` computes it.
pub uninterp spec fn lowercase(s: Seq<char>) -> Seq<char>;

/// Whether a character is white space, as `char::is_whitespace` says.
pub uninterp spec fn is_white_space(c: char) -> bool;

/// Every character of `s` is white space.
pub open spec fn all_white(s: Seq<char>) -> bool {
    forall|i: int| 0 <= i < s.len() ==> is_white_space(#[trigger] s[i])
}

/// `query` occurs in `content` when letter case is ignored.
pub open spec fn matches_query(content: Seq<char>, query: Seq<char>) -> bool {
    occurs_in(lowercase(query), lowercase(content))
}

/// `str::to_lowercase`: the result is the Unicode lowercase mapping of the
/// argument, which depends on the argument alone.
#[verifier::external_body]
pub(crate) fn to_lowercase(s: &str) -> (r: String)
    ensures
        r@ == lowercase(s@),
{
    s.to_lowercase()
}

/// `str::contains` with a string pattern: true exactly when the pattern
/// equals some contiguous part of the text.
#[verifier::external_body]
pub(crate) fn contains(hay: &str, needle: &str) -> (r: bool)
    ensures
        r == occurs_in(needle@, hay@),
{
    hay.contains(needle)
}

/// `char::is_whitespace`: whether the character has the Unicode property
/// `White_Space`, which depends on the character alone.
#[verifier::external_body]
pub(crate) fn is_whitespace(c: char) -> (r: bool)
    ensures
        r == is_white_space(c),
{
    c.is_whitespace()
}

/// `String::push`: appends one character.
#[verifier::external_body]
pub(crate) fn push_char(s: &mut String, c: char)
    ensures
        final(s)@ == old(s)@.push(c),
{
    s.push(c)
}

/// Case-insensitive substring test.
pub fn contains_ignore_case(content: &str, query: &str) -> (r: bool)
    ensures
        r == matches_query(content@, query@),
{
    let hay = to_lowercase(content);
    let needle = to_lowercase(query);
    contains(hay.as_str(), needle.as_str())
}

/// `a` followed by `b`.
pub fn concat2(a: &str, b: &str) -> (r: String)
    ensures
        r@ == a@ + b@,
{
    let mut out = a.to_owned();
    out.append(b);
    out
}

/// `a`, `b` and `c` in a row.
pub fn concat3(a: &str, b: &str, c: &str) -> (r: String)
    ensures
        r@ == a@ + b@ + c@,
{
    let mut out = a.to_owned();
    out.append(b);
    out.append(c);
    out
}

/// Whether two texts hold the same characters.
pub fn same_text(a: &str, b: &str) -> (r: bool)
    ensures
        r == (a@ == b@),
{
    let x = a.to_owned();
    let y = b.to_owned();
    x == y
}

/// The decimal digit for a number below ten.
pub open spec fn digit_char(d: nat) -> char {
    if d == 0 {
        '0'
    } else if d == 1 {
        '1'
    } else if d == 2 {
        '2'
    } else if d == 3 {
        '3'
    } else if d == 4 {
        '4'
    } else if d == 5 {
        '5'
    } else if d == 6 {
        '6'
    } else if d == 7 {
        '7'
    } else if d == 8 {
        '8'
    } else {
        '9'
    }
}

/// The decimal numeral of `n`, without leading zeros.
pub open spec fn decimal(n: nat) -> Seq<char>
    decreases n,
{
    if n < 10 {
        seq![digit_char(n)]
    } else {
        decimal(n / 10).push(digit_char(n % 10))
    }
}

fn digit(d: usize) -> (c: char)
    requires
        d < 10,
    ensures
        c == digit_char(d as nat),
{
    if d == 0 {
        '0'
    } else if d == 1 {
        '1'
    } else if d == 2 {
        '2'
    } else if d == 3 {
        '3'
    } else if d == 4 {
        '4'
    } else if d == 5 {
        '5'
    } else if d == 6 {
        '6'
    } else if d == 7 {
        '7'
    } else if d == 8 {
        '8'
    } else {
        '9'
    }
}

/// Appends the decimal numeral of `n` to `out`.
pub fn push_decimal(out: &mut String, n: usize)
    ensures
        final(out)@ == old(out)@ + decimal(n as nat),
    decreases n,
{
    if n >= 10 {
        push_decimal(out, n / 10);
        push_char(out, digit(n % 10));
        assert(out@ =~= old(out)@ + decimal(n as nat));
    } else {
        push_char(out, digit(n));
        assert(out@ =~= old(out)@ + decimal(n as nat));
    }
}

/// The decimal numeral of `n` as a string.
pub fn decimal_string(n: usize) -> (r: String)
    ensures
        r@ == decimal(n as nat),
{
    let mut out = String::new();
    push_decimal(&mut out, n);
    assert(out@ =~= decimal(n as nat));
    out
}

/// The longest suffix of `s` whose encoding takes at most `limit` bytes:
/// characters are dropped from the front, one by one, until the rest fits.
pub open spec fn fitting_suffix(s: Seq<char>, limit: nat) -> Seq<char>
    decreases s.len(),
{
    if byte_len(s) <= limit || s.len() == 0 {
        s
    } else {
        fitting_suffix(s.drop_first(), limit)
    }
}

/// `fitting_suffix` yields a suffix of its argument that fits the limit.
pub proof fn lemma_fitting_suffix(s: Seq<char>, limit: nat)
    ensures
        byte_len(fitting_suffix(s, limit)) <= limit,
        fitting_suffix(s, limit).len() <= s.len(),
        fitting_suffix(s, limit) == s.skip(s.len() - fitting_suffix(s, limit).len()),
        byte_len(s) <= limit ==> fitting_suffix(s, limit) == s,
    decreases s.len(),
{
    if byte_len(s) <= limit {
        assert(s.skip(0) =~= s);
    } else if s.len() == 0 {
        assert(encode_utf8(s).len() == 0);
    } else {
        let t = s.drop_first();
        lemma_fitting_suffix(t, limit);
        let r = fitting_suffix(t, limit);
        assert(t.skip(t.len() - r.len()) =~= s.skip(s.len() - r.len()));
    }
}

/// Every longer suffix of `s` than `fitting_suffix(s, limit)` exceeds the limit.
pub proof fn lemma_fitting_suffix_longest(s: Seq<char>, limit: nat, k: int)
    requires
        0 <= k < s.len() - fitting_suffix(s, limit).len(),
    ensures
        byte_len(s.skip(k)) > limit,
    decreases s.len(),
{
    if byte_len(s) <= limit || s.len() == 0 {
    } else {
        let t = s.drop_first();
        if k == 0 {
            assert(s.skip(0) =~= s);
        } else {
            lemma_fitting_suffix_longest(t, limit, k - 1);
            assert(t.skip(k - 1) =~= s.skip(k));
        }
    }
}

proof fn lemma_boundary_step(bytes: Seq<u8>, index: int)
    requires
        valid_utf8(bytes),
        bytes.len() > 0,
        0 < index <= bytes.len(),
    ensures
        is_char_boundary(bytes, index) ==> index >= length_of_first_scalar(bytes),
        is_char_boundary(bytes, index) == is_char_boundary(
            pop_first_scalar(bytes),
            index - length_of_first_scalar(bytes),
        ),
{
    reveal_with_fuel(is_char_boundary, 2);
}

proof fn lemma_cut_is_fitting_suffix(s: Seq<char>, limit: nat, cut: int)
    requires
        0 <= cut <= byte_len(s),
        byte_len(s) - limit <= cut,
        is_char_boundary(encode_utf8(s), cut),
        forall|j: int| 0 <= j < cut && byte_len(s) - limit <= j ==> !is_char_boundary(encode_utf8(s), j),
    ensures
        decode_utf8(encode_utf8(s).subrange(cut, byte_len(s) as int)) == fitting_suffix(s, limit),
    decreases s.len(),
{
    broadcast use encode_utf8_valid_utf8, encode_utf8_decode_utf8;

    let bytes = encode_utf8(s);
    if byte_len(s) <= limit {
        assert(is_char_boundary(bytes, 0));
        assert(cut == 0);
        assert(bytes.subrange(0, bytes.len() as int) =~= bytes);
    } else if s.len() == 0 {
    } else {
        let t = s.drop_first();
        let w = length_of_first_scalar(bytes);
        encode_utf8_first_scalar(s);
        assert(pop_first_scalar(bytes) =~= encode_utf8(t));
        assert(cut > 0);
        lemma_boundary_step(bytes, cut);
        assert forall|j: int| 0 <= j < cut - w && byte_len(t) - limit <= j implies !is_char_boundary(
            encode_utf8(t),
            j,
        ) by {
            if j + w > 0 {
                lemma_boundary_step(bytes, j + w);
            }
        }
        lemma_cut_is_fitting_suffix(t, limit, cut - w);
        assert(bytes.subrange(cut, bytes.len() as int) =~= encode_utf8(t).subrange(
            cut - w,
            byte_len(t) as int,
        ));
    }
}

/// The longest suffix of `s` that takes at most `limit` bytes.
pub fn keep_tail(s: &str, limit: usize) -> (r: String)
    ensures
        r@ == fitting_suffix(s@, limit as nat),
{
    broadcast use encode_utf8_valid_utf8, encode_utf8_decode_utf8;

    let n = s.as_bytes().len();
    if n <= limit {
        return s.to_owned();
    }
    let start = n - limit;
    let mut cut = start;
    proof {
        is_char_boundary_start_end_of_seq(s.spec_bytes());
    }
    while !s.is_char_boundary(cut)
        invariant
            n == byte_len(s@),
            start == n - limit,
            start <= cut <= n,
            is_char_boundary(s.spec_bytes(), n as int),
            forall|j: int| start <= j < cut ==> !is_char_boundary(s.spec_bytes(), j),
        decreases n - cut,
    {
        cut += 1;
    }
    let (_head, tail) = s.split_at(cut);
    proof {
        lemma_cut_is_fitting_suffix(s@, limit as nat, cut as int);
        assert(decode_utf8(encode_utf8(tail@)) == tail@);
    }
    tail.to_owned()
}

/// A text occurs in every text that it is a part of.
pub proof fn lemma_occurs_in_middle(before: Seq<char>, needle: Seq<char>, after: Seq<char>)
    ensures
        occurs_in(needle, before + needle + after),
{
    let hay = before + needle + after;
    let i = before.len() as int;
    assert(hay.subrange(i, i + needle.len()) =~= needle);
}

/// What occurs in a part of a text occurs in the text.
pub proof fn lemma_occurs_in_part(needle: Seq<char>, part: Seq<char>, hay: Seq<char>)
    requires
        occurs_in(needle, part),
        occurs_in(part, hay),
    ensures
        occurs_in(needle, hay),
{
    let i = choose|i: int|
        0 <= i && i + needle.len() <= part.len() && #[trigger] part.subrange(i, i + needle.len())
            == needle;
    let j = choose|j: int|
        0 <= j && j + part.len() <= hay.len() && #[trigger] hay.subrange(j, j + part.len())
            == part;
    let k = i + j;
    assert(hay.subrange(k, k + needle.len()) =~= hay.subrange(j, j + part.len()).subrange(
        i,
        i + needle.len(),
    ));
}

} // verus!
