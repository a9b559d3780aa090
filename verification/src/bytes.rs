//! Texts as UTF-8 bytes: lengths, truncation at character boundaries, decoding.

use vstd::prelude::*;

use crate::text::{cat, chars_of, string_of};

verus! {

/// How many bytes a text takes in UTF-8.
pub open spec fn byte_len(s: Seq<char>) -> nat {
    vstd::utf8::encode_utf8(s).len()
}

/// How many bytes a character takes in UTF-8.
pub open spec fn width(c: char) -> nat {
    let n = c as u32;
    if n < 0x80 {
        1
    } else if n < 0x800 {
        2
    } else if n < 0x10000 {
        3
    } else {
        4
    }
}

/// How many bytes a character takes in UTF-8.
fn char_width(c: char) -> (r: usize)
    ensures
        r == width(c),
{
    let n: u32 = c as u32;
    if n < 0x80 {
        1
    } else if n < 0x800 {
        2
    } else if n < 0x10000 {
        3
    } else {
        4
    }
}

proof fn lemma_first_width(s: Seq<char>)
    requires
        s.len() > 0,
    ensures
        byte_len(s) == width(s[0]) + byte_len(s.drop_first()),
{
    vstd::utf8::char_is_scalar(s[0]);
}

pub proof fn lemma_byte_len_concat(a: Seq<char>, b: Seq<char>)
    ensures
        byte_len(a + b) == byte_len(a) + byte_len(b),
    decreases a.len(),
{
    if a.len() == 0 {
        assert(a + b =~= b);
    } else {
        lemma_first_width(a);
        lemma_first_width(a + b);
        assert((a + b).drop_first() =~= a.drop_first() + b);
        lemma_byte_len_concat(a.drop_first(), b);
    }
}

proof fn lemma_byte_len_next(s: Seq<char>, i: int)
    requires
        0 <= i < s.len(),
    ensures
        byte_len(s.take(i + 1)) == byte_len(s.take(i)) + width(s[i]),
        byte_len(s.skip(i)) == width(s[i]) + byte_len(s.skip(i + 1)),
{
    assert(s.take(i + 1) =~= s.take(i) + seq![s[i]]);
    lemma_byte_len_concat(s.take(i), seq![s[i]]);
    lemma_first_width(seq![s[i]]);
    assert(seq![s[i]].drop_first() =~= Seq::<char>::empty());
    lemma_first_width(s.skip(i));
    assert(s.skip(i).drop_first() =~= s.skip(i + 1));
}

pub proof fn lemma_byte_len_bound(s: Seq<char>)
    ensures
        s.len() <= byte_len(s) <= 4 * s.len(),
    decreases s.len(),
{
    if s.len() > 0 {
        lemma_first_width(s);
        lemma_byte_len_bound(s.drop_first());
    }
}

/// How many characters of `s`, of which the first `i` fit into `cap` bytes, fit.
pub open spec fn fit_from(s: Seq<char>, cap: nat, i: int) -> int
    decreases s.len() - i,
{
    if 0 <= i < s.len() && byte_len(s.take(i + 1)) <= cap {
        fit_from(s, cap, i + 1)
    } else {
        i
    }
}

/// The longest beginning of `s` that fits into `cap` bytes.
pub open spec fn head(s: Seq<char>, cap: nat) -> Seq<char> {
    s.take(fit_from(s, cap, 0))
}

/// The first position from `i` on such that what follows fits into `cap` bytes.
pub open spec fn cut_from(s: Seq<char>, cap: nat, i: int) -> int
    decreases s.len() - i,
{
    if 0 <= i < s.len() && byte_len(s.skip(i)) > cap {
        cut_from(s, cap, i + 1)
    } else {
        i
    }
}

/// The longest end of `s` that fits into `cap` bytes.
pub open spec fn tail(s: Seq<char>, cap: nat) -> Seq<char> {
    s.skip(cut_from(s, cap, 0))
}

proof fn lemma_fit(s: Seq<char>, cap: nat, i: int)
    requires
        0 <= i <= s.len(),
        byte_len(s.take(i)) <= cap,
    ensures
        i <= fit_from(s, cap, i) <= s.len(),
        byte_len(s.take(fit_from(s, cap, i))) <= cap,
        fit_from(s, cap, i) < s.len() ==> byte_len(s.take(fit_from(s, cap, i) + 1)) > cap,
    decreases s.len() - i,
{
    if i < s.len() && byte_len(s.take(i + 1)) <= cap {
        lemma_fit(s, cap, i + 1);
    }
}

proof fn lemma_cut(s: Seq<char>, cap: nat, i: int)
    requires
        0 <= i <= s.len(),
    ensures
        i <= cut_from(s, cap, i) <= s.len(),
        byte_len(s.skip(cut_from(s, cap, i))) <= cap,
        cut_from(s, cap, i) > i ==> byte_len(s.skip(cut_from(s, cap, i) - 1)) > cap,
    decreases s.len() - i,
{
    if i < s.len() && byte_len(s.skip(i)) > cap {
        lemma_cut(s, cap, i + 1);
    } else if i == s.len() {
        assert(s.skip(i) =~= Seq::<char>::empty());
    }
}

/// What is kept of a text by its beginning fits, and one more character would not.
pub proof fn head_is_longest(s: Seq<char>, cap: nat)
    ensures
        byte_len(head(s, cap)) <= cap,
        head(s, cap).len() <= s.len(),
        head(s, cap) == s.take(head(s, cap).len() as int),
        head(s, cap).len() < s.len() ==> byte_len(s.take((head(s, cap).len() + 1) as int)) > cap,
{
    assert(s.take(0) =~= Seq::<char>::empty());
    lemma_fit(s, cap, 0);
}

/// What is kept of a text by its end fits, and one more character would not.
pub proof fn tail_is_longest(s: Seq<char>, cap: nat)
    ensures
        byte_len(tail(s, cap)) <= cap,
        tail(s, cap).len() <= s.len(),
        tail(s, cap) == s.skip(s.len() - tail(s, cap).len()),
        tail(s, cap).len() < s.len() ==> byte_len(s.skip(s.len() - tail(s, cap).len() - 1)) > cap,
{
    lemma_cut(s, cap, 0);
}

/// `s` where it takes at most `cap` bytes; else its longest beginning that does, and
/// `suffix`.
pub open spec fn truncated_view(s: Seq<char>, cap: nat, suffix: Seq<char>) -> Seq<char> {
    if byte_len(s) <= cap {
        s
    } else {
        head(s, cap) + suffix
    }
}

/// A truncated text takes at most the cap and its suffix.
pub proof fn truncation_is_bounded(s: Seq<char>, cap: nat, suffix: Seq<char>)
    ensures
        byte_len(truncated_view(s, cap, suffix)) <= cap + byte_len(suffix),
{
    head_is_longest(s, cap);
    lemma_byte_len_concat(head(s, cap), suffix);
}

/// How many bytes a text takes in UTF-8.
pub fn byte_length(s: &str) -> (r: usize)
    ensures
        r == byte_len(s@),
{
    s.as_bytes().len()
}

/// `s` cut to `cap` bytes at a character boundary, with `suffix` behind it where something
/// was cut.
pub fn truncate_utf8(s: &str, cap: usize, suffix: &str) -> (r: String)
    ensures
        r@ == truncated_view(s@, cap as nat, suffix@),
{
    let total: usize = byte_length(s);
    if total <= cap {
        return s.to_owned();
    }
    let v = chars_of(s);
    let mut used: usize = 0;
    let mut i: usize = 0;
    assert(v@.take(0) =~= Seq::<char>::empty());
    while i < v.len()
        invariant
            i <= v.len(),
            v@ == s@,
            total == byte_len(s@),
            used == byte_len(v@.take(i as int)),
            used <= cap < total,
            fit_from(v@, cap as nat, i as int) == fit_from(s@, cap as nat, 0),
        ensures
            i == fit_from(s@, cap as nat, 0),
            i <= v.len(),
        decreases v.len() - i,
    {
        proof {
            lemma_byte_len_next(v@, i as int);
            lemma_byte_len_concat(v@.take(i + 1), v@.skip(i + 1));
            assert(v@.take(i + 1) + v@.skip(i + 1) =~= v@);
        }
        let w: usize = char_width(v[i]);
        if used + w > cap {
            break;
        }
        used += w;
        i += 1;
    }
    let kept = string_of(&v, 0, i);
    assert(kept@ =~= head(s@, cap as nat));
    cat(&kept, suffix)
}

/// The longest end of `s` that fits into `cap` bytes.
pub fn tail_utf8(s: &str, cap: usize) -> (r: String)
    ensures
        r@ == tail(s@, cap as nat),
{
    let v = chars_of(s);
    let mut left: usize = byte_length(s);
    let mut i: usize = 0;
    assert(v@.skip(0) =~= v@);
    while i < v.len() && left > cap
        invariant
            i <= v.len(),
            v@ == s@,
            left == byte_len(v@.skip(i as int)),
            cut_from(v@, cap as nat, i as int) == cut_from(s@, cap as nat, 0),
        decreases v.len() - i,
    {
        proof {
            lemma_byte_len_next(v@, i as int);
        }
        left -= char_width(v[i]);
        i += 1;
    }
    let kept = string_of(&v, i, v.len());
    assert(kept@ =~= s@.skip(i as int));
    kept
}

/// The text that bytes encode, where they are valid UTF-8.
pub open spec fn decoded(b: Seq<u8>) -> Option<Seq<char>> {
    if vstd::utf8::valid_utf8(b) {
        Some(vstd::utf8::decode_utf8(b))
    } else {
        None
    }
}

/// Calls `std::str::from_utf8`: it succeeds exactly on valid UTF-8, and gives the text that
/// the bytes encode.
#[verifier::external_body]
pub(crate) fn from_utf8(b: &[u8]) -> (r: Option<String>)
    ensures
        (match r {
            Some(s) => Some(s@),
            None => None,
        }) == decoded(b@),
{
    std::str::from_utf8(b).ok().map(String::from)
}

/// The text that `String::from_utf8_lossy` makes of bytes that are not valid UTF-8.
pub uninterp spec fn patched(b: Seq<u8>) -> Seq<char>;

/// The text that bytes are shown as: what they encode, where they are valid UTF-8.
pub open spec fn lossy(b: Seq<u8>) -> Seq<char> {
    if vstd::utf8::valid_utf8(b) {
        vstd::utf8::decode_utf8(b)
    } else {
        patched(b)
    }
}

/// Calls `String::from_utf8_lossy`. Valid UTF-8 is decoded; what is made of other bytes is
/// named.
#[verifier::external_body]
pub(crate) fn from_utf8_lossy(b: &[u8]) -> (r: String)
    ensures
        vstd::utf8::valid_utf8(b@) ==> r@ == vstd::utf8::decode_utf8(b@),
        !vstd::utf8::valid_utf8(b@) ==> r@ == patched(b@),
{
    String::from_utf8_lossy(b).into_owned()
}

} // verus!
