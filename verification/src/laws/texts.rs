//! Texts of numbers, words and lines: what is written is read back.

use vstd::prelude::*;

use crate::text;

verus! {

/// Whether a character is a decimal digit.
pub open spec fn is_digit(c: char) -> bool {
    '0' <= c <= '9'
}

/// Whether a text is made of decimal digits.
pub open spec fn all_digits(s: Seq<char>) -> bool {
    s.len() > 0 && forall|i: int| 0 <= i < s.len() ==> is_digit(#[trigger] s[i])
}

/// A number in decimal is made of digits, the first of which is no zero but in the number zero,
/// and its value is the number.
pub proof fn decimals_have_their_value(n: nat)
    ensures
        all_digits(text::dec(n)),
        text::digits_value(text::dec(n)) == Some(n),
        n > 0 ==> text::dec(n)[0] != '0',
        n == 0 ==> text::dec(n) == seq!['0'],
    decreases n,
{
    let s = text::dec(n);
    if n < 10 {
        assert(s.drop_last() =~= Seq::empty());
        reveal_with_fuel(text::digits_value, 2);
        assert(s[0] == text::digit(n as int));
    } else {
        decimals_have_their_value(n / 10);
        let d = text::digit((n % 10) as int);
        assert(s == text::dec(n / 10).push(d));
        assert(s.drop_last() =~= text::dec(n / 10));
        assert(s.last() == d);
        assert(text::digit_value(d) == Some((n % 10) as nat));
        assert(10 * (n / 10) + n % 10 == n);
        assert forall|i: int| 0 <= i < s.len() implies is_digit(#[trigger] s[i]) by {
            if i < s.len() - 1 {
                assert(s[i] == text::dec(n / 10)[i]);
            }
        }
        assert(s[0] == text::dec(n / 10)[0]);
    }
}

/// A number that was written in decimal is read back, where it is not above the bound; it is
/// refused where it is.
pub proof fn decimals_are_read_back(n: nat, max: nat)
    ensures
        text::number(text::dec(n), max) == (if n <= max {
            Some(n)
        } else {
            None
        }),
        text::number("+"@ + text::dec(n), max) == text::number(text::dec(n), max),
{
    decimals_have_their_value(n);
    reveal_strlit("+");
    let s = text::dec(n);
    assert(is_digit(s[0]));
    assert(("+"@ + s).drop_first() =~= s);
}

/// A text with anything but digits behind an optional sign is no number.
pub proof fn other_texts_are_no_numbers(s: Seq<char>, max: nat, i: int)
    requires
        0 <= i < s.len(),
        !is_digit(s[i]),
        i > 0 || s[0] != '+',
    ensures
        text::number(s, max) is None,
        text::number(Seq::empty(), max) is None,
{
    let t = if s[0] == '+' {
        s.drop_first()
    } else {
        s
    };
    let k = if s[0] == '+' {
        i - 1
    } else {
        i
    };
    assert(t[k] == s[i]);
    lemma_no_value(t, k);
}

proof fn lemma_no_value(s: Seq<char>, i: int)
    requires
        0 <= i < s.len(),
        !is_digit(s[i]),
    ensures
        text::digits_value(s) is None,
    decreases s.len(),
{
    if i < s.len() - 1 {
        lemma_no_value(s.drop_last(), i);
    }
}

/// Whether a text holds no white space.
pub open spec fn solid(s: Seq<char>) -> bool {
    forall|i: int| 0 <= i < s.len() ==> !text::white(#[trigger] s[i])
}

proof fn lemma_word_end_at(s: Seq<char>, i: int, j: int)
    requires
        0 <= i <= j <= s.len(),
        forall|k: int| i <= k < j ==> !text::white(#[trigger] s[k]),
        j == s.len() || text::white(s[j]),
    ensures
        text::word_end(s, i) == j,
    decreases j - i,
{
    if i < j {
        lemma_word_end_at(s, i + 1, j);
    }
}

proof fn lemma_words_shift(a: Seq<char>, b: Seq<char>, i: int)
    requires
        0 <= i <= b.len(),
    ensures
        text::words_from(a + b, a.len() + i) == text::words_from(b, i),
    decreases b.len() - i,
{
    let s = a + b;
    if i < b.len() {
        assert(s[a.len() + i] == b[i]);
        if text::white(b[i]) {
            lemma_words_shift(a, b, i + 1);
        } else {
            text::lemma_word_end(b, i);
            let j = text::word_end(b, i);
            lemma_word_spot(b, i);
            assert forall|k: int| a.len() + i <= k < a.len() + j implies !text::white(
                #[trigger] s[k],
            ) by {
                assert(s[k] == b[k - a.len()]);
            }
            if j < b.len() {
                assert(s[a.len() + j] == b[j]);
            }
            lemma_word_end_at(s, a.len() + i, a.len() + j);
            lemma_words_shift(a, b, j);
            assert(s.subrange(a.len() + i, a.len() + j) =~= b.subrange(i, j));
        }
    }
}

proof fn lemma_word_spot(s: Seq<char>, i: int)
    requires
        0 <= i <= s.len(),
    ensures
        i <= text::word_end(s, i) <= s.len(),
        forall|k: int| i <= k < text::word_end(s, i) ==> !text::white(#[trigger] s[k]),
        text::word_end(s, i) < s.len() ==> text::white(s[text::word_end(s, i)]),
        i < s.len() && !text::white(s[i]) ==> text::word_end(s, i) > i,
    decreases s.len() - i,
{
    if i < s.len() && !text::white(s[i]) {
        lemma_word_spot(s, i + 1);
    }
}

/// The first word of a text is what stands before its first white space.
pub proof fn words_are_parted_by_white_space(word: Seq<char>, gap: char, rest: Seq<char>)
    requires
        word.len() > 0,
        solid(word),
        text::white(gap),
    ensures
        text::words_view(word + seq![gap] + rest) == seq![word] + text::words_view(rest),
        text::words_view(word) == seq![word],
        text::words_view(seq![gap] + rest) == text::words_view(rest),
{
    let s = word + seq![gap] + rest;
    let n = word.len() as int;
    assert(!text::white(word[0]));
    assert(s[0] == word[0]);
    assert forall|k: int| 0 <= k < n implies !text::white(#[trigger] s[k]) by {
        assert(s[k] == word[k]);
    }
    assert(s[n] == gap);
    lemma_word_end_at(s, 0, n);
    assert(s.subrange(0, n) =~= word);
    let front = word + seq![gap];
    assert(s =~= front + rest);
    lemma_words_shift(front, rest, 0);
    assert(text::words_from(s, n) == text::words_from(s, n + 1));
    lemma_word_end_at(word, 0, n);
    assert(word.subrange(0, n) =~= word);
    assert(text::words_from(word, n) =~= Seq::empty());
    assert(seq![word] + Seq::<Seq<char>>::empty() =~= seq![word]);
    let t = seq![gap] + rest;
    lemma_words_shift(seq![gap], rest, 0);
    assert(t[0] == gap);
}

proof fn lemma_find_at(s: Seq<char>, c: char, i: int, j: int)
    requires
        0 <= i <= j <= s.len(),
        forall|k: int| i <= k < j ==> #[trigger] s[k] != c,
        j == s.len() || s[j] == c,
    ensures
        text::find(s, c, i) == j,
    decreases j - i,
{
    if i < j {
        lemma_find_at(s, c, i + 1, j);
    }
}

proof fn lemma_find_shift(a: Seq<char>, b: Seq<char>, c: char, i: int)
    requires
        0 <= i <= b.len(),
    ensures
        text::find(a + b, c, a.len() + i) == a.len() + text::find(b, c, i),
{
    text::lemma_find(b, c, i);
    let j = text::find(b, c, i);
    let s = a + b;
    assert forall|k: int| a.len() + i <= k < a.len() + j implies #[trigger] s[k] != c by {
        assert(s[k] == b[k - a.len()]);
    }
    if j < b.len() {
        assert(s[a.len() + j] == b[j]);
    }
    lemma_find_at(s, c, a.len() + i, a.len() + j);
}

/// A text up to a character, that character, and what follows it.
pub proof fn texts_are_split_at_a_character(before: Seq<char>, c: char, rest: Seq<char>)
    requires
        !before.contains(c),
    ensures
        text::split_view(before, c) == seq![before],
        text::split_view(before + seq![c] + rest, c) == seq![before] + text::split_view(rest, c),
        text::find(before + seq![c] + rest, c, 0) == before.len(),
        text::find(before, c, 0) == before.len(),
{
    let n = before.len() as int;
    let s = before + seq![c] + rest;
    assert forall|k: int| 0 <= k < n implies #[trigger] s[k] != c && before[k] != c by {
        assert(s[k] == before[k]);
        assert(before.contains(before[k]));
    }
    assert(s[n] == c);
    lemma_find_at(s, c, 0, n);
    lemma_find_at(before, c, 0, n);
    assert(before.subrange(0, n) =~= before);
    assert(s.subrange(0, n) =~= before);
    let front = before + seq![c];
    assert(s =~= front + rest);
    lemma_split_shift(front, rest, c, 0);
}

proof fn lemma_split_shift(a: Seq<char>, b: Seq<char>, c: char, i: int)
    requires
        0 <= i <= b.len(),
    ensures
        text::split_from(a + b, c, a.len() + i) == text::split_from(b, c, i),
    decreases b.len() - i,
{
    lemma_find_shift(a, b, c, i);
    text::lemma_find(b, c, i);
    let j = text::find(b, c, i);
    let s = a + b;
    if j < b.len() {
        lemma_split_shift(a, b, c, j + 1);
        assert(s.subrange(a.len() + i, a.len() + j) =~= b.subrange(i, j));
    } else {
        assert(s.subrange(a.len() + i, s.len() as int) =~= b.subrange(i, b.len() as int));
    }
}

/// A line ends at the first line feed; a carriage return before the line feed is no part of it. A
/// text without a line feed is one line, and an empty text none.
pub proof fn lines_end_at_line_feeds(line: Seq<char>, rest: Seq<char>)
    requires
        !line.contains('\n'),
    ensures
        text::lines_view(line + seq!['\n'] + rest) == seq![
            if line.len() > 0 && line.last() == '\r' {
                line.drop_last()
            } else {
                line
            },
        ] + text::lines_view(rest),
        line.len() > 0 ==> text::lines_view(line) == seq![line],
        text::lines_view(Seq::empty()) == Seq::<Seq<char>>::empty(),
{
    texts_are_split_at_a_character(line, '\n', rest);
    let n = line.len() as int;
    let s = line + seq!['\n'] + rest;
    assert(s.subrange(0, n) =~= line);
    assert(line.subrange(0, n) =~= line);
    let front = line + seq!['\n'];
    assert(s =~= front + rest);
    lemma_lines_shift(front, rest, 0);
}

proof fn lemma_lines_shift(a: Seq<char>, b: Seq<char>, i: int)
    requires
        0 <= i <= b.len(),
    ensures
        text::lines_from(a + b, a.len() + i) == text::lines_from(b, i),
    decreases b.len() - i,
{
    if i < b.len() {
        lemma_find_shift(a, b, '\n', i);
        text::lemma_find(b, '\n', i);
        let j = text::find(b, '\n', i);
        let s = a + b;
        if j < b.len() {
            lemma_lines_shift(a, b, j + 1);
            assert(s.subrange(a.len() + i, a.len() + j) =~= b.subrange(i, j));
        } else {
            assert(s.subrange(a.len() + i, s.len() as int) =~= b.subrange(i, b.len() as int));
        }
    }
}

/// Trimming takes white space from the ends of a text and nothing else: what is left neither
/// begins nor ends with any.
pub proof fn trimming_takes_white_space_alone(a: Seq<char>, s: Seq<char>, b: Seq<char>)
    requires
        forall|i: int| 0 <= i < a.len() ==> text::white(#[trigger] a[i]),
        forall|i: int| 0 <= i < b.len() ==> text::white(#[trigger] b[i]),
        s.len() > 0 ==> !text::white(s[0]) && !text::white(s.last()),
    ensures
        text::trim_view(a + s + b) == s,
        s.len() > 0 ==> text::trim_end_view(a + s + b) == a + s,
        s.len() > 0 ==> text::trim_start_view(a + s + b) == s + b,
{
    lemma_drop_front(a, s + b);
    assert(a + s + b =~= a + (s + b));
    lemma_drop_back(s, b);
    if s.len() > 0 {
        assert((s + b)[0] == s[0]);
        assert(text::trim_start_view(s + b) == s + b);
        assert(text::trim_end_view(s) == s);
        lemma_drop_back(a + s, b);
        assert((a + s).last() == s.last());
        assert(text::trim_end_view(a + s) == a + s);
    } else {
        assert(s + b =~= b);
        lemma_drop_front(b, Seq::empty());
        assert(b + Seq::<char>::empty() =~= b);
        assert(s =~= Seq::<char>::empty());
    }
}

proof fn lemma_drop_front(a: Seq<char>, s: Seq<char>)
    requires
        forall|i: int| 0 <= i < a.len() ==> text::white(#[trigger] a[i]),
    ensures
        text::trim_start_view(a + s) == text::trim_start_view(s),
    decreases a.len(),
{
    if a.len() > 0 {
        assert((a + s)[0] == a[0]);
        assert((a + s).drop_first() =~= a.drop_first() + s);
        assert forall|i: int| 0 <= i < a.drop_first().len() implies text::white(
            #[trigger] a.drop_first()[i],
        ) by {
            assert(text::white(a[i + 1]));
        }
        lemma_drop_front(a.drop_first(), s);
    } else {
        assert(a + s =~= s);
    }
}

proof fn lemma_drop_back(s: Seq<char>, b: Seq<char>)
    requires
        forall|i: int| 0 <= i < b.len() ==> text::white(#[trigger] b[i]),
    ensures
        text::trim_end_view(s + b) == text::trim_end_view(s),
    decreases b.len(),
{
    if b.len() > 0 {
        assert((s + b).last() == b.last());
        assert(text::white(b[b.len() - 1]));
        assert((s + b).drop_last() =~= s + b.drop_last());
        assert forall|i: int| 0 <= i < b.drop_last().len() implies text::white(
            #[trigger] b.drop_last()[i],
        ) by {
            assert(text::white(b[i]));
        }
        lemma_drop_back(s, b.drop_last());
    } else {
        assert(s + b =~= s);
    }
}

/// The white space that counts: that of ASCII with the vertical tab, and that of Unicode.
pub proof fn white_space_is_that_of_unicode(c: char)
    ensures
        text::white(c) <==> (c == ' ' || c == '\t' || c == '\n' || c == '\r' || c == '\x0b' || c
            == '\x0c' || c == '\u{85}' || c == '\u{a0}' || c == '\u{1680}' || '\u{2000}' <= c
            <= '\u{200a}' || c == '\u{2028}' || c == '\u{2029}' || c == '\u{202f}' || c
            == '\u{205f}' || c == '\u{3000}'),
{
}

} // verus!
