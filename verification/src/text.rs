use vstd::prelude::*;

verus! {

/// `char::is_whitespace`: the Unicode `White_Space` property.
pub open spec fn white(c: char) -> bool {
    let n = c as u32;
    ||| 9 <= n <= 13
    ||| n == 0x20
    ||| n == 0x85
    ||| n == 0xA0
    ||| n == 0x1680
    ||| 0x2000 <= n <= 0x200A
    ||| n == 0x2028
    ||| n == 0x2029
    ||| n == 0x202F
    ||| n == 0x205F
    ||| n == 0x3000
}

/// Whether `c` has the Unicode `White_Space` property.
pub fn is_white(c: char) -> (r: bool)
    ensures
        r == white(c),
{
    let n: u32 = c as u32;
    (9 <= n && n <= 13) || n == 0x20 || n == 0x85 || n == 0xA0 || n == 0x1680 || (0x2000 <= n && n
        <= 0x200A) || n == 0x2028 || n == 0x2029 || n == 0x202F || n == 0x205F || n == 0x3000
}

/// Appends one character to a string (`String::push`).
pub assume_specification[ String::push ](s: &mut String, ch: char)
    ensures
        final(s)@ == old(s)@.push(ch),
;

/// The characters of a string.
pub fn chars_of(s: &str) -> (v: Vec<char>)
    ensures
        v@ == s@,
{
    let mut v: Vec<char> = Vec::new();
    for c in it: s.chars()
        invariant
            v@ == it.seq().take(it.index() as int),
            it.seq() == s@,
    {
        v.push(c);
    }
    v
}

/// The string of the characters `v[from..to]`.
pub fn string_of(v: &Vec<char>, from: usize, to: usize) -> (s: String)
    requires
        from <= to <= v.len(),
    ensures
        s@ == v@.subrange(from as int, to as int),
{
    let mut s = String::new();
    let mut i: usize = from;
    while i < to
        invariant
            from <= i <= to <= v.len(),
            s@ == v@.subrange(from as int, i as int),
        decreases to - i,
    {
        s.push(v[i]);
        i += 1;
        assert(s@ =~= v@.subrange(from as int, i as int));
    }
    s
}

/// The views of a sequence of values.
pub open spec fn views<T: View>(v: Seq<T>) -> Seq<T::V> {
    Seq::new(v.len(), |i: int| v[i]@)
}

pub broadcast proof fn lemma_views_push<T: View>(v: Seq<T>, x: T)
    ensures
        #[trigger] views(v.push(x)) == views(v).push(x@),
{
    assert(views(v.push(x)) =~= views(v).push(x@));
}

pub proof fn lemma_views_empty<T: View>(v: Seq<T>)
    requires
        v.len() == 0,
    ensures
        views(v) == Seq::<T::V>::empty(),
{
    assert(views(v) =~= Seq::<T::V>::empty());
}

/// The view of a list or of the message that stands in its place.
pub open spec fn list_or_text<T: View>(r: Result<Vec<T>, String>) -> Result<
    Seq<T::V>,
    Seq<char>,
> {
    match r {
        Ok(v) => Ok(views(v@)),
        Err(e) => Err(e@),
    }
}

/// The view of a text or of the message that stands in its place.
pub open spec fn text_or_text(r: Result<String, String>) -> Result<Seq<char>, Seq<char>> {
    match r {
        Ok(v) => Ok(v@),
        Err(e) => Err(e@),
    }
}

/// Whether two strings hold the same characters.
pub fn same(a: &str, b: &str) -> (r: bool)
    ensures
        r == (a@ == b@),
{
    a.to_owned() == b.to_owned()
}

/// A string that holds the same characters.
pub fn own(s: &str) -> (r: String)
    ensures
        r@ == s@,
{
    s.to_owned()
}

/// `a` followed by `b`.
pub fn cat(a: &str, b: &str) -> (r: String)
    ensures
        r@ == a@ + b@,
{
    let mut r = a.to_owned();
    r.append(b);
    r
}

/// `a`, `b` and `c` in a row.
pub fn cat3(a: &str, b: &str, c: &str) -> (r: String)
    ensures
        r@ == a@ + b@ + c@,
{
    let mut r = a.to_owned();
    r.append(b);
    r.append(c);
    r
}

/// Four pieces in a row.
pub fn cat4(a: &str, b: &str, c: &str, d: &str) -> (r: String)
    ensures
        r@ == a@ + b@ + c@ + d@,
{
    let mut r = cat3(a, b, c);
    r.append(d);
    r
}

/// Five pieces in a row.
pub fn cat5(a: &str, b: &str, c: &str, d: &str, e: &str) -> (r: String)
    ensures
        r@ == a@ + b@ + c@ + d@ + e@,
{
    let mut r = cat4(a, b, c, d);
    r.append(e);
    r
}

/// The first position at or after `from` that holds `c`, or the length of `s`.
pub open spec fn find(s: Seq<char>, c: char, from: int) -> int
    decreases s.len() - from,
{
    if from >= s.len() {
        s.len() as int
    } else if s[from] == c {
        from
    } else {
        find(s, c, from + 1)
    }
}

pub proof fn lemma_find(s: Seq<char>, c: char, from: int)
    requires
        0 <= from <= s.len(),
    ensures
        from <= find(s, c, from) <= s.len(),
        find(s, c, from) < s.len() ==> s[find(s, c, from)] == c,
        forall|i: int| from <= i < find(s, c, from) ==> s[i] != c,
    decreases s.len() - from,
{
    if from < s.len() && s[from] != c {
        lemma_find(s, c, from + 1);
    }
}

/// The first position at or after `from` that holds `c`, or the length of `v`.
pub fn find_char(v: &Vec<char>, c: char, from: usize) -> (r: usize)
    requires
        from <= v.len(),
    ensures
        r == find(v@, c, from as int),
        from <= r <= v.len(),
{
    let mut i: usize = from;
    while i < v.len() && v[i] != c
        invariant
            from <= i <= v.len(),
            find(v@, c, from as int) == find(v@, c, i as int),
        decreases v.len() - i,
    {
        i += 1;
    }
    i
}

/// `s` without one final carriage return.
pub open spec fn drop_cr(s: Seq<char>) -> Seq<char> {
    if s.len() > 0 && s.last() == '\r' {
        s.drop_last()
    } else {
        s
    }
}

/// The lines of `s` from position `i` on (`str::lines`): each ends at a line feed or at
/// the end of the text, and a carriage return before the line feed is not part of it.
pub open spec fn lines_from(s: Seq<char>, i: int) -> Seq<Seq<char>>
    decreases s.len() - i,
{
    if i < 0 || i >= s.len() {
        Seq::empty()
    } else {
        let j = find(s, '\n', i);
        if i <= j < s.len() {
            seq![drop_cr(s.subrange(i, j))] + lines_from(s, j + 1)
        } else {
            seq![s.subrange(i, s.len() as int)]
        }
    }
}

/// The lines of a text.
pub open spec fn lines_view(s: Seq<char>) -> Seq<Seq<char>> {
    lines_from(s, 0)
}

/// The lines of a text, as `str::lines` gives them.
pub fn lines(text: &str) -> (r: Vec<String>)
    ensures
        views(r@) == lines_view(text@),
{
    let v = chars_of(text);
    let mut out: Vec<String> = Vec::new();
    let mut i: usize = 0;
    proof {
        lemma_views_empty(out@);
        assert(views(out@) + lines_from(v@, 0) =~= lines_from(v@, 0));
    }
    while i < v.len()
        invariant
            i <= v.len(),
            v@ == text@,
            views(out@) + lines_from(v@, i as int) == lines_from(v@, 0),
        decreases v.len() - i,
    {
        broadcast use lemma_views_push;

        let j: usize = find_char(&v, '\n', i);
        let ghost before = views(out@);
        if j < v.len() {
            let end: usize = if j > i && v[j - 1] == '\r' {
                j - 1
            } else {
                j
            };
            let line = string_of(&v, i, end);
            assert(line@ =~= drop_cr(v@.subrange(i as int, j as int)));
            out.push(line);
            assert(views(out@) + lines_from(v@, j + 1) =~= before + lines_from(v@, i as int));
            i = j + 1;
        } else {
            let line = string_of(&v, i, j);
            out.push(line);
            assert(views(out@) + lines_from(v@, j as int) =~= before + lines_from(v@, i as int));
            i = j;
        }
    }
    assert(views(out@) + lines_from(v@, i as int) =~= views(out@));
    out
}

/// `s` without its final white space (`str::trim_end`).
pub open spec fn trim_end_view(s: Seq<char>) -> Seq<char>
    decreases s.len(),
{
    if s.len() > 0 && white(s.last()) {
        trim_end_view(s.drop_last())
    } else {
        s
    }
}

/// `s` without its leading white space (`str::trim_start`).
pub open spec fn trim_start_view(s: Seq<char>) -> Seq<char>
    decreases s.len(),
{
    if s.len() > 0 && white(s[0]) {
        trim_start_view(s.drop_first())
    } else {
        s
    }
}

/// `s` without white space at either end (`str::trim`).
pub open spec fn trim_view(s: Seq<char>) -> Seq<char> {
    trim_end_view(trim_start_view(s))
}

/// `s` without its final white space.
pub fn trim_end(s: &str) -> (r: String)
    ensures
        r@ == trim_end_view(s@),
{
    let v = chars_of(s);
    let mut end: usize = v.len();
    assert(v@.subrange(0, end as int) =~= v@);
    while end > 0 && is_white(v[end - 1])
        invariant
            end <= v.len(),
            v@ == s@,
            trim_end_view(v@.subrange(0, end as int)) == trim_end_view(s@),
        decreases end,
    {
        assert(v@.subrange(0, end as int).drop_last() =~= v@.subrange(0, end - 1));
        end -= 1;
    }
    assert(end > 0 ==> v@.subrange(0, end as int).last() == v@[end - 1]);
    string_of(&v, 0, end)
}

/// `s` without its leading white space.
pub fn trim_start(s: &str) -> (r: String)
    ensures
        r@ == trim_start_view(s@),
{
    let v = chars_of(s);
    let mut i: usize = 0;
    let n: usize = v.len();
    assert(v@.subrange(0, n as int) =~= v@);
    while i < n && is_white(v[i])
        invariant
            i <= n,
            n == v.len(),
            v@ == s@,
            trim_start_view(v@.subrange(i as int, n as int)) == trim_start_view(s@),
        decreases n - i,
    {
        assert(v@.subrange(i as int, n as int).drop_first() =~= v@.subrange(i + 1, n as int));
        i += 1;
    }
    assert(i < n ==> v@.subrange(i as int, n as int)[0] == v@[i as int]);
    string_of(&v, i, n)
}

/// `s` without white space at either end.
pub fn trim(s: &str) -> (r: String)
    ensures
        r@ == trim_view(s@),
{
    let t = trim_start(s);
    trim_end(&t)
}

/// Whether `s` begins with `p`.
pub open spec fn starts(s: Seq<char>, p: Seq<char>) -> bool {
    p.len() <= s.len() && s.subrange(0, p.len() as int) == p
}

/// Whether `s` ends with `p`.
pub open spec fn ends(s: Seq<char>, p: Seq<char>) -> bool {
    p.len() <= s.len() && s.subrange(s.len() - p.len(), s.len() as int) == p
}

/// Whether `p` stands in `s` at position `i`.
pub open spec fn stands_at(s: Seq<char>, p: Seq<char>, i: int) -> bool {
    0 <= i && i + p.len() <= s.len() && s.subrange(i, i + p.len()) == p
}

/// Whether `p` occurs in `s`.
pub open spec fn has(s: Seq<char>, p: Seq<char>) -> bool {
    exists|i: int| stands_at(s, p, i)
}

/// Whether the characters `p` stand in `v` at position `at`.
pub fn chars_stand_at(v: &Vec<char>, p: &Vec<char>, at: usize) -> (r: bool)
    requires
        at <= v.len(),
    ensures
        r == stands_at(v@, p@, at as int),
{
    if p.len() > v.len() - at {
        return false;
    }
    let mut i: usize = 0;
    while i < p.len()
        invariant
            i <= p.len(),
            at + p.len() <= v.len(),
            forall|k: int| 0 <= k < i ==> v@[at + k] == p@[k],
        decreases p.len() - i,
    {
        if v[at + i] != p[i] {
            assert(v@.subrange(at as int, at + p.len())[i as int] != p@[i as int]);
            return false;
        }
        i += 1;
    }
    assert(v@.subrange(at as int, at + p.len()) =~= p@);
    true
}

/// Whether `s` begins with `p`.
pub fn starts_with(s: &str, p: &str) -> (r: bool)
    ensures
        r == starts(s@, p@),
{
    let v = chars_of(s);
    let q = chars_of(p);
    chars_stand_at(&v, &q, 0)
}

/// Whether `s` ends with `p`.
pub fn ends_with(s: &str, p: &str) -> (r: bool)
    ensures
        r == ends(s@, p@),
{
    let v = chars_of(s);
    let q = chars_of(p);
    if q.len() > v.len() {
        return false;
    }
    chars_stand_at(&v, &q, v.len() - q.len())
}

/// Whether `p` occurs in `s`.
pub fn contains(s: &str, p: &str) -> (r: bool)
    ensures
        r == has(s@, p@),
{
    let v = chars_of(s);
    let q = chars_of(p);
    let mut i: usize = 0;
    while i < v.len()
        invariant
            i <= v.len(),
            v@ == s@,
            q@ == p@,
            forall|k: int| 0 <= k < i ==> !stands_at(s@, p@, k),
        decreases v.len() - i,
    {
        if chars_stand_at(&v, &q, i) {
            return true;
        }
        i += 1;
    }
    chars_stand_at(&v, &q, i)
}

/// What follows the prefix `p` of `s`.
pub open spec fn after_prefix(s: Seq<char>, p: Seq<char>) -> Option<Seq<char>> {
    if starts(s, p) {
        Some(s.subrange(p.len() as int, s.len() as int))
    } else {
        None
    }
}

/// The view of an optional string.
pub open spec fn opt(o: Option<String>) -> Option<Seq<char>> {
    match o {
        Some(s) => Some(s@),
        None => None,
    }
}

/// What follows the prefix `p` of `s` (`str::strip_prefix`).
pub fn strip_prefix(s: &str, p: &str) -> (r: Option<String>)
    ensures
        opt(r) == after_prefix(s@, p@),
{
    let v = chars_of(s);
    let q = chars_of(p);
    if chars_stand_at(&v, &q, 0) {
        Some(string_of(&v, q.len(), v.len()))
    } else {
        None
    }
}

/// The decimal digit of a number below ten.
pub open spec fn digit(n: int) -> char {
    (('0' as int) + n) as char
}

/// A number in decimal.
pub open spec fn dec(n: nat) -> Seq<char>
    decreases n,
{
    if n < 10 {
        seq![digit(n as int)]
    } else {
        dec(n / 10).push(digit((n % 10) as int))
    }
}

/// The decimal digit of a number below ten.
pub fn digit_char(n: u128) -> (c: char)
    requires
        n < 10,
    ensures
        c == digit(n as int),
{
    (48u8 + n as u8) as char
}

/// A number in decimal, as `to_string` gives it.
pub fn dec_string(n: u128) -> (r: String)
    ensures
        r@ == dec(n as nat),
    decreases n,
{
    if n < 10 {
        let mut s = String::new();
        s.push(digit_char(n));
        assert(s@ =~= seq![digit(n as int)]);
        s
    } else {
        let mut s = dec_string(n / 10);
        s.push(digit_char(n % 10));
        s
    }
}

/// The pieces of `parts` with `sep` between each two.
pub open spec fn join_view(parts: Seq<Seq<char>>, sep: Seq<char>) -> Seq<char>
    decreases parts.len(),
{
    if parts.len() == 0 {
        Seq::empty()
    } else if parts.len() == 1 {
        parts[0]
    } else {
        join_view(parts.drop_last(), sep) + sep + parts.last()
    }
}

/// The strings of `parts` with `sep` between each two.
pub fn join(parts: &Vec<String>, sep: &str) -> (r: String)
    ensures
        r@ == join_view(views(parts@), sep@),
{
    let mut out = String::new();
    let mut i: usize = 0;
    while i < parts.len()
        invariant
            i <= parts.len(),
            out@ == join_view(views(parts@.take(i as int)), sep@),
        decreases parts.len() - i,
    {
        let ghost shorter = views(parts@.take(i as int));
        let ghost longer = views(parts@.take(i + 1));
        assert(longer.drop_last() =~= shorter);
        assert(longer.last() == parts@[i as int]@);
        if i > 0 {
            out.append(sep);
        }
        out.append(&parts[i]);
        if i == 0 {
            assert(out@ =~= parts@[0]@);
        }
        i += 1;
    }
    assert(parts@.take(i as int) =~= parts@);
    out
}

/// The end of the run of characters that are not white space from position `i` on.
pub open spec fn word_end(s: Seq<char>, i: int) -> int
    decreases s.len() - i,
{
    if i >= s.len() || white(s[i]) {
        i
    } else {
        word_end(s, i + 1)
    }
}

pub proof fn lemma_word_end(s: Seq<char>, i: int)
    requires
        i <= s.len(),
    ensures
        i <= word_end(s, i) <= s.len(),
    decreases s.len() - i,
{
    if i < s.len() && !white(s[i]) {
        lemma_word_end(s, i + 1);
    }
}

/// The words of `s` from position `i` on (`str::split_whitespace`): the longest runs of
/// characters that are not white space.
pub open spec fn words_from(s: Seq<char>, i: int) -> Seq<Seq<char>>
    decreases s.len() - i,
{
    if i < 0 || i >= s.len() {
        Seq::empty()
    } else if white(s[i]) {
        words_from(s, i + 1)
    } else {
        let j = word_end(s, i);
        if i < j <= s.len() {
            seq![s.subrange(i, j)] + words_from(s, j)
        } else {
            Seq::empty()
        }
    }
}

/// The words of a text.
pub open spec fn words_view(s: Seq<char>) -> Seq<Seq<char>> {
    words_from(s, 0)
}

/// The words of a text, as `str::split_whitespace` gives them.
pub fn words(text: &str) -> (r: Vec<String>)
    ensures
        views(r@) == words_view(text@),
{
    let v = chars_of(text);
    let mut out: Vec<String> = Vec::new();
    let mut i: usize = 0;
    proof {
        lemma_views_empty(out@);
        assert(views(out@) + words_from(v@, 0) =~= words_from(v@, 0));
    }
    while i < v.len()
        invariant
            i <= v.len(),
            v@ == text@,
            views(out@) + words_from(v@, i as int) == words_from(v@, 0),
        decreases v.len() - i,
    {
        broadcast use lemma_views_push;

        if is_white(v[i]) {
            i += 1;
        } else {
            let mut j: usize = i;
            while j < v.len() && !is_white(v[j])
                invariant
                    i <= j <= v.len(),
                    word_end(v@, i as int) == word_end(v@, j as int),
                decreases v.len() - j,
            {
                j += 1;
            }
            assert(i < j) by {
                lemma_word_end(v@, i + 1);
            }
            let ghost before = views(out@);
            out.push(string_of(&v, i, j));
            assert(views(out@) + words_from(v@, j as int) =~= before + words_from(v@, i as int));
            i = j;
        }
    }
    assert(views(out@) + words_from(v@, i as int) =~= views(out@));
    out
}

/// The value of a decimal digit.
pub open spec fn digit_value(c: char) -> Option<nat> {
    if '0' <= c <= '9' {
        Some((c as int - '0' as int) as nat)
    } else {
        None
    }
}

/// The value of a row of decimal digits.
pub open spec fn digits_value(s: Seq<char>) -> Option<nat>
    decreases s.len(),
{
    if s.len() == 0 {
        Some(0)
    } else {
        match (digits_value(s.drop_last()), digit_value(s.last())) {
            (Some(v), Some(d)) => Some(10 * v + d),
            _ => None,
        }
    }
}

/// The number that `s` writes in decimal, with a `+` in front or without, if it is at most
/// `max` (`str::parse` of an unsigned integer type).
pub open spec fn number(s: Seq<char>, max: nat) -> Option<nat> {
    let t = if s.len() > 0 && s[0] == '+' {
        s.drop_first()
    } else {
        s
    };
    if t.len() == 0 {
        None
    } else {
        match digits_value(t) {
            Some(v) => if v <= max {
                Some(v)
            } else {
                None
            },
            None => None,
        }
    }
}

proof fn lemma_digits_prefix(s: Seq<char>, i: int)
    requires
        0 <= i <= s.len(),
        digits_value(s) is Some,
    ensures
        digits_value(s.take(i)) is Some,
        digits_value(s.take(i))->0 <= digits_value(s)->0,
    decreases s.len(),
{
    if i < s.len() {
        lemma_digits_prefix(s.drop_last(), i);
        assert(s.drop_last().take(i) =~= s.take(i));
    } else {
        assert(s.take(i) =~= s);
    }
}

/// The number that `s` writes in decimal, if it is at most `max`.
pub fn parse_number(s: &str, max: u64) -> (r: Option<u64>)
    ensures
        (match r {
            Some(v) => Some(v as nat),
            None => None,
        }) == number(s@, max as nat),
{
    let v = chars_of(s);
    let start: usize = if v.len() > 0 && v[0] == '+' {
        1
    } else {
        0
    };
    if start == v.len() {
        return None;
    }
    let ghost t = v@.subrange(start as int, v.len() as int);
    proof {
        if start == 1 {
            assert(t =~= s@.drop_first());
        } else {
            assert(t =~= s@);
        }
    }
    let mut value: u64 = 0;
    let mut i: usize = start;
    assert(t.take(0) =~= Seq::<char>::empty());
    while i < v.len()
        invariant
            start <= i <= v.len(),
            t == v@.subrange(start as int, v.len() as int),
            t.len() > 0,
            digits_value(t.take(i - start)) == Some(value as nat),
            value <= max,
            number(s@, max as nat) == (match digits_value(t) {
                Some(v) => if v <= max {
                    Some(v)
                } else {
                    None
                },
                None => None,
            }),
        decreases v.len() - i,
    {
        let c = v[i];
        let ghost longer = t.take(i - start + 1);
        proof {
            assert(longer.drop_last() =~= t.take(i - start));
            assert(longer.last() == c);
            if digits_value(t) is Some {
                lemma_digits_prefix(t, i - start + 1);
            }
        }
        if c < '0' || c > '9' {
            return None;
        }
        let next: u128 = 10 * (value as u128) + (c as u32 - 48) as u128;
        if next > max as u128 {
            return None;
        }
        value = next as u64;
        i += 1;
    }
    assert(t.take(i - start) =~= t);
    Some(value)
}

/// The pieces of `s` from position `i` on, cut at each `c` (`str::split`).
pub open spec fn split_from(s: Seq<char>, c: char, i: int) -> Seq<Seq<char>>
    decreases s.len() - i,
{
    let j = find(s, c, i);
    if 0 <= i <= j < s.len() {
        seq![s.subrange(i, j)] + split_from(s, c, j + 1)
    } else {
        seq![s.subrange(i, s.len() as int)]
    }
}

/// The pieces of `s` between the characters `c`.
pub open spec fn split_view(s: Seq<char>, c: char) -> Seq<Seq<char>> {
    split_from(s, c, 0)
}

/// The pieces of `text` between the characters `c`, as `str::split` gives them.
pub fn split(text: &str, c: char) -> (r: Vec<String>)
    ensures
        views(r@) == split_view(text@, c),
{
    broadcast use lemma_views_push;

    let v = chars_of(text);
    let mut out: Vec<String> = Vec::new();
    let mut i: usize = 0;
    let ghost all = split_view(v@, c);
    proof {
        lemma_views_empty(out@);
        assert(views(out@) + all =~= all);
    }
    loop
        invariant
            i <= v.len(),
            v@ == text@,
            all == split_view(text@, c),
            views(out@) + split_from(v@, c, i as int) == all,
        decreases v.len() - i,
    {
        let j: usize = find_char(&v, c, i);
        let ghost before = views(out@);
        out.push(string_of(&v, i, j));
        if j == v.len() {
            assert(views(out@) =~= all);
            return out;
        }
        assert(views(out@) + split_from(v@, c, j + 1) =~= before + split_from(v@, c, i as int));
        i = j + 1;
    }
}

/// The last position at or before `i` at which `p` stands in `s`.
pub open spec fn last_from(s: Seq<char>, p: Seq<char>, i: int) -> Option<int>
    decreases i + 1,
{
    if i < 0 {
        None
    } else if stands_at(s, p, i) {
        Some(i)
    } else {
        last_from(s, p, i - 1)
    }
}

/// The last position at which `p` stands in `s`.
pub open spec fn last_position(s: Seq<char>, p: Seq<char>) -> Option<int> {
    last_from(s, p, s.len() - p.len())
}

/// The last position at which the characters `p` stand in `v` (`str::rfind`).
pub fn rfind(v: &Vec<char>, p: &Vec<char>) -> (r: Option<usize>)
    ensures
        (match r {
            Some(i) => Some(i as int),
            None => None,
        }) == last_position(v@, p@),
        r matches Some(i) ==> i + p.len() <= v.len(),
{
    if p.len() > v.len() {
        return None;
    }
    let mut i: usize = v.len() - p.len();
    loop
        invariant
            p.len() <= v.len(),
            i <= v.len() - p.len(),
            last_from(v@, p@, i as int) == last_position(v@, p@),
        decreases i,
    {
        if chars_stand_at(v, p, i) {
            return Some(i);
        }
        if i == 0 {
            assert(last_from(v@, p@, -1) is None);
            return None;
        }
        i -= 1;
    }
}

/// What `format!("{:?}", s)` gives for a string: the quoted, escaped form of
/// `<str as Debug>::fmt`.
pub uninterp spec fn debug_text(s: Seq<char>) -> Seq<char>;

/// Whether a string is made of printable ASCII characters other than the double quote and the
/// backslash.
pub open spec fn unescaped(s: Seq<char>) -> bool {
    forall|i: int|
        0 <= i < s.len() ==> {
            let c = #[trigger] s[i];
            ' ' <= c <= '~' && c != '"' && c != '\\'
        }
}

/// Calls `<str as Debug>::fmt` through `format!`. The result is named, and said of strings of
/// printable ASCII without double quotes and backslashes, which are put between quotes as they
/// are; which other characters are escaped follows Unicode tables.
#[verifier::external_body]
pub(crate) fn debug_string(s: &str) -> (r: String)
    ensures
        r@ == debug_text(s@),
        unescaped(s@) ==> r@ == "\""@ + s@ + "\""@,
{
    format!("{:?}", s)
}

/// The quoted forms of `parts`.
pub open spec fn debug_texts(parts: Seq<Seq<char>>) -> Seq<Seq<char>> {
    Seq::new(parts.len(), |i: int| debug_text(parts[i]))
}

/// A list of strings in the form that `{:?}` gives it.
pub open spec fn debug_list_view(parts: Seq<Seq<char>>) -> Seq<char> {
    "["@ + join_view(debug_texts(parts), ", "@) + "]"@
}

/// The first `n` strings of `parts`, or all of them, in the form that `{:?}` gives a list.
pub fn debug_list(parts: &Vec<String>, n: usize) -> (r: String)
    ensures
        r@ == debug_list_view(
            views(parts@).take(
                if n <= parts.len() {
                    n as int
                } else {
                    parts.len() as int
                },
            ),
        ),
        forall|k: int|
            0 <= k < parts.len() && k < n && unescaped(#[trigger] parts@[k]@) ==> debug_text(
                parts@[k]@,
            ) == "\""@ + parts@[k]@ + "\""@,
{
    let m: usize = if n <= parts.len() {
        n
    } else {
        parts.len()
    };
    let mut quoted: Vec<String> = Vec::new();
    let mut i: usize = 0;
    while i < m
        invariant
            i <= m <= parts.len(),
            quoted.len() == i,
            forall|k: int| 0 <= k < i ==> #[trigger] quoted@[k]@ == debug_text(parts@[k]@),
            forall|k: int|
                0 <= k < i && unescaped(#[trigger] parts@[k]@) ==> debug_text(parts@[k]@)
                    == "\""@ + parts@[k]@ + "\""@,
        decreases m - i,
    {
        quoted.push(debug_string(&parts[i]));
        i += 1;
    }
    assert(views(quoted@) =~= debug_texts(views(parts@).take(m as int)));
    cat3("[", &join(&quoted, ", "), "]")
}

/// The lines `from..to` of `lines` replaced by the lines of `with`.
pub open spec fn splice_view(
    lines: Seq<Seq<char>>,
    from: int,
    to: int,
    with: Seq<Seq<char>>,
) -> Seq<Seq<char>> {
    lines.take(from) + with + lines.skip(to)
}

/// The lines `from..to` of `lines` replaced by the lines of `with`.
pub fn splice(lines: &Vec<String>, from: usize, to: usize, with: &Vec<String>) -> (r: Vec<String>)
    requires
        from <= to <= lines.len(),
    ensures
        views(r@) == splice_view(views(lines@), from as int, to as int, views(with@)),
{
    let mut out: Vec<String> = Vec::new();
    push_range(&mut out, lines, 0, from);
    push_range(&mut out, with, 0, with.len());
    push_range(&mut out, lines, to, lines.len());
    assert(views(out@) =~= splice_view(views(lines@), from as int, to as int, views(with@)));
    out
}

/// Appends copies of `from[a..b]` to `out`.
pub fn push_range(out: &mut Vec<String>, from: &Vec<String>, a: usize, b: usize)
    requires
        a <= b <= from.len(),
    ensures
        final(out)@ == old(out)@ + from@.subrange(a as int, b as int),
{
    let ghost before = out@;
    let mut i: usize = a;
    assert(out@ =~= before + from@.subrange(a as int, i as int));
    while i < b
        invariant
            a <= i <= b <= from.len(),
            out@ == before + from@.subrange(a as int, i as int),
        decreases b - i,
    {
        let s = from[i].clone();
        out.push(s);
        i += 1;
        assert(out@ =~= before + from@.subrange(a as int, i as int));
    }
}

pub proof fn lemma_has_within(before: Seq<char>, s: Seq<char>, after: Seq<char>, p: Seq<char>)
    requires
        has(s, p),
    ensures
        has(before + s + after, p),
{
    let i = choose|i: int| stands_at(s, p, i);
    let all = before + s + after;
    let at = before.len() + i;
    assert(all.subrange(at, at + p.len()) =~= s.subrange(i, i + p.len()));
    assert(stands_at(all, p, at));
}

pub proof fn lemma_has_itself(s: Seq<char>)
    ensures
        has(s, s),
{
    assert(s.subrange(0, s.len() as int) =~= s);
    assert(stands_at(s, s, 0));
}

pub proof fn lemma_join_has(parts: Seq<Seq<char>>, sep: Seq<char>, k: int)
    requires
        0 <= k < parts.len(),
    ensures
        has(join_view(parts, sep), parts[k]),
    decreases parts.len(),
{
    lemma_has_itself(parts[k]);
    if parts.len() > 1 {
        let front = join_view(parts.drop_last(), sep);
        let last = parts.last();
        let none = Seq::<char>::empty();
        if k == parts.len() - 1 {
            lemma_has_within(front + sep, last, none, last);
            assert(front + sep + last + none =~= front + sep + last);
        } else {
            lemma_join_has(parts.drop_last(), sep, k);
            lemma_has_within(none, front, sep + last, parts[k]);
            assert(none + front + (sep + last) =~= front + sep + last);
        }
    }
}

pub proof fn lemma_join_front(first: Seq<char>, rest: Seq<Seq<char>>, sep: Seq<char>)
    requires
        rest.len() > 0,
    ensures
        join_view(seq![first] + rest, sep) == first + sep + join_view(rest, sep),
    decreases rest.len(),
{
    let all = seq![first] + rest;
    assert(all.last() == rest.last());
    if rest.len() == 1 {
        assert(all.drop_last() =~= seq![first]);
        assert(join_view(seq![first], sep) == first);
        assert(join_view(all, sep) =~= first + sep + rest[0]);
    } else {
        lemma_join_front(first, rest.drop_last(), sep);
        assert(all.drop_last() =~= seq![first] + rest.drop_last());
        assert(join_view(all, sep) =~= first + sep + join_view(rest, sep));
    }
}

pub proof fn lemma_ends_with_feed(s: Seq<char>)
    ensures
        ends(s, "\n"@) == (s.len() > 0 && s.last() == '\n'),
{
    reveal_strlit("\n");
    if s.len() > 0 {
        let tail = s.subrange(s.len() - 1, s.len() as int);
        assert(tail[0] == s.last());
        if s.last() == '\n' {
            assert(tail =~= "\n"@);
        }
    }
}

/// Whether no line feed follows a carriage return.
pub open spec fn plain_feeds(s: Seq<char>) -> bool {
    forall|i: int| 0 < i < s.len() && #[trigger] s[i] == '\n' ==> s[i - 1] != '\r'
}

pub proof fn lemma_lines_join(s: Seq<char>, i: int)
    requires
        0 <= i < s.len(),
        plain_feeds(s),
    ensures
        lines_from(s, i).len() > 0,
        join_view(lines_from(s, i), "\n"@) + (if s.last() == '\n' {
            "\n"@
        } else {
            Seq::empty()
        }) == s.subrange(i, s.len() as int),
    decreases s.len() - i,
{
    reveal_strlit("\n");
    lemma_find(s, '\n', i);
    let j = find(s, '\n', i);
    let whole = s.subrange(i, s.len() as int);
    if j < s.len() {
        let line = s.subrange(i, j);
        assert(drop_cr(line) == line) by {
            if line.len() > 0 {
                assert(line.last() == s[j - 1]);
                assert(s[j] == '\n');
            }
        }
        if j + 1 < s.len() {
            lemma_lines_join(s, j + 1);
            lemma_join_front(line, lines_from(s, j + 1), "\n"@);
            let rest = s.subrange(j + 1, s.len() as int);
            assert(whole =~= line + "\n"@ + rest);
            let end = if s.last() == '\n' {
                "\n"@
            } else {
                Seq::<char>::empty()
            };
            assert((line + "\n"@ + join_view(lines_from(s, j + 1), "\n"@)) + end =~= line + "\n"@
                + (join_view(lines_from(s, j + 1), "\n"@) + end));
        } else {
            assert(lines_from(s, i) =~= seq![line]);
            assert(whole =~= line + "\n"@);
        }
    } else {
        assert(lines_from(s, i) =~= seq![whole]);
        assert(s.last() == s[s.len() - 1]);
        assert(whole + Seq::<char>::empty() =~= whole);
    }
}

proof fn lemma_trim_end(s: Seq<char>)
    ensures
        trim_end_view(s).len() <= s.len(),
        trim_end_view(s) == s.take(trim_end_view(s).len() as int),
        trim_end_view(s).len() > 0 ==> !white(trim_end_view(s).last()),
    decreases s.len(),
{
    if s.len() > 0 && white(s.last()) {
        lemma_trim_end(s.drop_last());
        let n = trim_end_view(s).len() as int;
        assert(s.drop_last().take(n) =~= s.take(n));
    } else {
        assert(s.take(s.len() as int) =~= s);
    }
}

proof fn lemma_trim_start(s: Seq<char>)
    ensures
        trim_start_view(s).len() <= s.len(),
        trim_start_view(s).len() > 0 ==> !white(trim_start_view(s)[0]),
    decreases s.len(),
{
    if s.len() > 0 && white(s[0]) {
        lemma_trim_start(s.drop_first());
    }
}

/// A trimmed text has no white space at its ends.
pub proof fn lemma_trim_ends(s: Seq<char>)
    ensures
        trim_view(s).len() <= s.len(),
        trim_view(s).len() > 0 ==> !white(trim_view(s)[0]) && !white(trim_view(s).last()),
{
    lemma_trim_start(s);
    lemma_trim_end(trim_start_view(s));
}

/// A text without white space at its ends is left as it is.
pub proof fn lemma_trim_nothing(s: Seq<char>)
    requires
        s.len() > 0 ==> !white(s[0]) && !white(s.last()),
    ensures
        trim_view(s) == s,
{
}

/// Whether a list holds a string.
pub fn list_has(list: &Vec<String>, s: &str) -> (r: bool)
    ensures
        r == views(list@).contains(s@),
{
    let mut i: usize = 0;
    while i < list.len()
        invariant
            i <= list.len(),
            forall|k: int| 0 <= k < i ==> #[trigger] views(list@)[k] != s@,
        decreases list.len() - i,
    {
        if same(&list[i], s) {
            assert(views(list@)[i as int] == s@);
            return true;
        }
        i += 1;
    }
    false
}

/// The first position from `i` on at which `p` stands in `s`.
pub open spec fn first_from(s: Seq<char>, p: Seq<char>, i: int) -> Option<int>
    decreases s.len() + 1 - i,
{
    if i < 0 || i > s.len() {
        None
    } else if stands_at(s, p, i) {
        Some(i)
    } else {
        first_from(s, p, i + 1)
    }
}

/// The first position at which `p` stands in `s`.
pub open spec fn first_position(s: Seq<char>, p: Seq<char>) -> Option<int> {
    first_from(s, p, 0)
}

/// The first position at which the characters `p` stand in `v` (`str::find`).
pub fn find_sub(v: &Vec<char>, p: &Vec<char>) -> (r: Option<usize>)
    ensures
        (match r {
            Some(i) => Some(i as int),
            None => None,
        }) == first_position(v@, p@),
        r matches Some(i) ==> i + p.len() <= v.len(),
{
    let mut i: usize = 0;
    loop
        invariant
            i <= v.len(),
            first_from(v@, p@, i as int) == first_position(v@, p@),
        decreases v.len() - i,
    {
        if chars_stand_at(v, p, i) {
            return Some(i);
        }
        if i == v.len() {
            assert(first_from(v@, p@, i + 1) is None);
            return None;
        }
        i += 1;
    }
}

/// Whether `c` occurs in `s`.
pub fn has_char(s: &str, c: char) -> (r: bool)
    ensures
        r == s@.contains(c),
{
    let v = chars_of(s);
    let i: usize = find_char(&v, c, 0);
    proof {
        lemma_find(v@, c, 0);
    }
    if i < v.len() {
        assert(s@[i as int] == c);
        true
    } else {
        false
    }
}

/// An integer in decimal, with a minus sign where it is negative.
pub open spec fn signed(n: int) -> Seq<char> {
    if n < 0 {
        "-"@ + dec((-n) as nat)
    } else {
        dec(n as nat)
    }
}

/// An integer in decimal, as `to_string` gives it.
pub fn signed_string(n: i64) -> (r: String)
    ensures
        r@ == signed(n as int),
{
    if n < 0 {
        cat("-", &dec_string((-(n as i128)) as u128))
    } else {
        dec_string(n as u128)
    }
}

/// Whether white space occurs in `s`.
pub open spec fn has_white(s: Seq<char>) -> bool {
    exists|i: int| 0 <= i < s.len() && white(#[trigger] s[i])
}

/// Whether white space occurs in `s`.
pub fn contains_white(s: &str) -> (r: bool)
    ensures
        r == has_white(s@),
{
    let v = chars_of(s);
    let mut i: usize = 0;
    while i < v.len()
        invariant
            i <= v.len(),
            v@ == s@,
            forall|k: int| 0 <= k < i ==> !white(#[trigger] v@[k]),
        decreases v.len() - i,
    {
        if is_white(v[i]) {
            assert(white(s@[i as int]));
            return true;
        }
        i += 1;
    }
    false
}

/// Whether `a` comes before `b` in the order of `str`: character by character.
pub open spec fn text_before(a: Seq<char>, b: Seq<char>) -> bool
    decreases a.len(),
{
    if b.len() == 0 {
        false
    } else if a.len() == 0 {
        true
    } else if a[0] == b[0] {
        text_before(a.drop_first(), b.drop_first())
    } else {
        a[0] < b[0]
    }
}

pub proof fn lemma_text_before_total(a: Seq<char>, b: Seq<char>)
    ensures
        text_before(a, b) ==> !text_before(b, a),
        !text_before(a, b) && !text_before(b, a) ==> a == b,
        a == b ==> !text_before(a, b),
    decreases a.len(),
{
    if a.len() > 0 && b.len() > 0 {
        lemma_text_before_total(a.drop_first(), b.drop_first());
        if a[0] == b[0] && a.drop_first() == b.drop_first() {
            assert(a =~= seq![a[0]] + a.drop_first());
            assert(b =~= seq![b[0]] + b.drop_first());
        }
    } else if a.len() == 0 && b.len() == 0 {
        assert(a =~= b);
    }
}

pub proof fn lemma_text_before_chain(a: Seq<char>, b: Seq<char>, c: Seq<char>)
    requires
        text_before(a, b),
        text_before(b, c),
    ensures
        text_before(a, c),
    decreases a.len(),
{
    if a.len() > 0 && b.len() > 0 && c.len() > 0 && a[0] == b[0] && b[0] == c[0] {
        lemma_text_before_chain(a.drop_first(), b.drop_first(), c.drop_first());
    }
}

/// Whether `a` comes before `b` in the order of `str`.
pub fn name_before(a: &str, b: &str) -> (r: bool)
    ensures
        r == text_before(a@, b@),
{
    let x = chars_of(a);
    let y = chars_of(b);
    let mut i: usize = 0;
    assert(x@.skip(0) =~= x@);
    assert(y@.skip(0) =~= y@);
    while i < x.len() && i < y.len()
        invariant
            i <= x.len(),
            i <= y.len(),
            x@ == a@,
            y@ == b@,
            text_before(x@, y@) == text_before(x@.skip(i as int), y@.skip(i as int)),
        decreases x.len() - i,
    {
        assert(x@.skip(i as int).drop_first() =~= x@.skip(i + 1));
        assert(y@.skip(i as int).drop_first() =~= y@.skip(i + 1));
        assert(x@.skip(i as int)[0] == x@[i as int]);
        assert(y@.skip(i as int)[0] == y@[i as int]);
        if x[i] != y[i] {
            return x[i] < y[i];
        }
        i += 1;
    }
    i < y.len()
}

} // verus!
