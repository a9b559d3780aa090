//! Snapshots of a workspace in a git repository of their own: names, lists and what is pruned.

use vstd::prelude::*;

use crate::bytes;
use crate::bytes::truncate_utf8;
use crate::json;
use crate::json::{is_shaped, pick, Json, JsonView};
use crate::text;
use crate::text::{
    cat, cat3, cat5, chars_of, dec_string, find_char, lines, list_has, own, parse_number,
    string_of, trim,
};

verus! {

/// How many snapshots are kept where nothing else is said.
pub const DEFAULT_SNAPSHOT_KEEP_LAST: usize = 20;

/// Where the refs of snapshots stand.
pub const SNAPSHOT_REF_PREFIX: &'static str = "refs/octos/snapshots";

/// Where the ref stands that holds the target of a restore.
pub const RESTORE_PIN_REF_PREFIX: &'static str = "refs/octos/restore-pin";

/// How old objects that nothing refers to must be to go.
pub const DEFAULT_PRUNE_EXPIRE: &'static str = "1.hour.ago";

/// How many bytes of a label are kept.
pub const MAX_LABEL_BYTES: usize = 200;

/// The tools that can change files of the workspace: those that write, those that run commands,
/// and those that start other agents.
pub open spec fn mutating_tools() -> Seq<Seq<char>> {
    seq![
        "write_file"@,
        "edit_file"@,
        "apply_patch"@,
        "diff_edit"@,
        "shell"@,
        "exec_command"@,
        "write_stdin"@,
        "bash"@,
        "spawn"@,
        "spawn_agent"@,
        "delegate"@,
        "delegate_task"@,
    ]
}

/// Whether a tool can change files of the workspace.
pub fn is_mutating_tool(name: &str) -> (r: bool)
    ensures
        r == mutating_tools().contains(name@),
{
    let all = vec![
        own("write_file"),
        own("edit_file"),
        own("apply_patch"),
        own("diff_edit"),
        own("shell"),
        own("exec_command"),
        own("write_stdin"),
        own("bash"),
        own("spawn"),
        own("spawn_agent"),
        own("delegate"),
        own("delegate_task"),
    ];
    assert(text::views(all@) =~= mutating_tools());
    list_has(&all, name)
}

/// Whether snapshots are taken, and how many are kept.
#[derive(Debug, Clone, Copy, PartialEq, Eq, Structural)]
pub struct SnapshotConfig {
    pub enabled: bool,
    pub keep_last: usize,
}

impl Default for SnapshotConfig {
    fn default() -> (r: Self)
        ensures
            r == (SnapshotConfig { enabled: false, keep_last: DEFAULT_SNAPSHOT_KEEP_LAST }),
    {
        SnapshotConfig { enabled: false, keep_last: DEFAULT_SNAPSHOT_KEEP_LAST }
    }
}

/// The configuration that a value describes, by the names of its members or in their order; what
/// is missing is as by default.
pub open spec fn config_of(j: JsonView) -> Option<SnapshotConfig> {
    if !json::shaped(j, 2, false) {
        None
    } else {
        match (json::field(j, "enabled"@, 0), json::field(j, "keep_last"@, 1)) {
            (Some(e), Some(k)) => match (e, json::unsigned_of(k)) {
                (JsonView::Bool(enabled), Some(n)) => if n <= usize::MAX {
                    Some(SnapshotConfig { enabled, keep_last: n as usize })
                } else {
                    None
                },
                _ => None,
            },
            (Some(e), None) => match e {
                JsonView::Bool(enabled) => Some(
                    SnapshotConfig { enabled, keep_last: DEFAULT_SNAPSHOT_KEEP_LAST },
                ),
                _ => None,
            },
            (None, Some(k)) => match json::unsigned_of(k) {
                Some(n) => if n <= usize::MAX {
                    Some(SnapshotConfig { enabled: false, keep_last: n as usize })
                } else {
                    None
                },
                None => None,
            },
            (None, None) => Some(
                SnapshotConfig { enabled: false, keep_last: DEFAULT_SNAPSHOT_KEEP_LAST },
            ),
        }
    }
}

impl SnapshotConfig {
    /// The configuration that a value describes, by the names of its members or in their order;
    /// what is missing is as by default. Nothing where a member is of the wrong shape.
    pub fn from_json(j: &Json) -> (r: Option<Self>)
        ensures
            r == config_of(j@),
    {
        if !is_shaped(j, 2, false) {
            return None;
        }
        let enabled = match pick(j, "enabled", 0) {
            Some(Json::Bool(b)) => *b,
            Some(_) => {
                return None;
            },
            None => false,
        };
        let keep_last: usize = match pick(j, "keep_last", 1) {
            Some(k) => match k.as_unsigned() {
                Some(n) => {
                    if n > usize::MAX as u64 {
                        return None;
                    }
                    n as usize
                },
                None => {
                    return None;
                },
            },
            None => DEFAULT_SNAPSHOT_KEEP_LAST,
        };
        Some(SnapshotConfig { enabled, keep_last })
    }
}

/// The id of a snapshot: the hash of its commit.
#[derive(Debug)]
pub struct SnapshotId(pub String);

impl View for SnapshotId {
    type V = Seq<char>;

    open spec fn view(&self) -> Seq<char> {
        self.0@
    }
}

/// Whether a character is a hexadecimal digit.
pub open spec fn hex_digit(c: char) -> bool {
    '0' <= c <= '9' || 'a' <= c <= 'f' || 'A' <= c <= 'F'
}

/// Whether a text can be a commit hash, whole or shortened, and nothing else: no flag, no name
/// of a ref, no range.
pub open spec fn hash_like(s: Seq<char>) -> bool {
    4 <= s.len() <= 64 && forall|i: int| 0 <= i < s.len() ==> hex_digit(#[trigger] s[i])
}

impl SnapshotId {
    /// An id as it was given.
    pub fn new(id: &str) -> (r: Self)
        ensures
            r@ == id@,
    {
        SnapshotId(own(id))
    }

    /// The id as text.
    pub fn as_str(&self) -> (r: &str)
        ensures
            r@ == self@,
    {
        self.0.as_str()
    }

    /// Whether the id can be a commit hash and nothing else.
    pub fn is_hash(&self) -> (r: bool)
        ensures
            r == hash_like(self@),
    {
        let v = chars_of(&self.0);
        let n: usize = v.len();
        if n < 4 || n > 64 {
            return false;
        }
        let mut i: usize = 0;
        while i < n
            invariant
                i <= n,
                n == v.len(),
                v@ == self@,
                4 <= n <= 64,
                forall|k: int| 0 <= k < i ==> hex_digit(#[trigger] self@[k]),
            decreases n - i,
        {
            let c = v[i];
            if !(('0' <= c && c <= '9') || ('a' <= c && c <= 'f') || ('A' <= c && c <= 'F')) {
                assert(!hex_digit(self@[i as int]));
                return false;
            }
            i += 1;
        }
        true
    }
}

/// An id that is used can be taken neither for a flag nor for an empty word.
pub proof fn used_ids_are_no_flags(s: Seq<char>)
    requires
        hash_like(s),
    ensures
        s.len() > 0,
        s[0] != '-',
        !s.contains('/'),
        !s.contains('.'),
{
    assert(hex_digit(s[0]));
    if s.contains('/') {
        let i = choose|i: int| 0 <= i < s.len() && s[i] == '/';
        assert(hex_digit(s[i]));
    }
    if s.contains('.') {
        let i = choose|i: int| 0 <= i < s.len() && s[i] == '.';
        assert(hex_digit(s[i]));
    }
}

/// A snapshot as it is listed.
#[derive(Debug)]
pub struct SnapshotInfo {
    pub id: SnapshotId,
    pub label: String,
    /// When it was taken, in seconds.
    pub timestamp_unix: i64,
}

/// What a [`SnapshotInfo`] stands for.
#[verifier::ext_equal]
pub struct InfoView {
    pub id: Seq<char>,
    pub label: Seq<char>,
    pub timestamp_unix: i64,
}

impl View for SnapshotInfo {
    type V = InfoView;

    open spec fn view(&self) -> InfoView {
        InfoView { id: self.id@, label: self.label@, timestamp_unix: self.timestamp_unix }
    }
}

/// The SHA-256 digest of bytes.
pub uninterp spec fn sha256(b: Seq<u8>) -> Seq<u8>;

/// Calls `<sha2::Sha256 as sha2::Digest>::digest`. The digest is named; it has 32 bytes.
#[verifier::external_body]
fn digest_of(b: &[u8]) -> (r: Vec<u8>)
    ensures
        r@ == sha256(b@),
        r@.len() == 32,
{
    <sha2::Sha256 as sha2::Digest>::digest(b).to_vec()
}

/// The hexadecimal digit of a number below sixteen, in lower case.
pub open spec fn hex_char(n: int) -> char {
    if n < 10 {
        text::digit(n)
    } else if n == 10 {
        'a'
    } else if n == 11 {
        'b'
    } else if n == 12 {
        'c'
    } else if n == 13 {
        'd'
    } else if n == 14 {
        'e'
    } else {
        'f'
    }
}

/// Bytes in hexadecimal, two digits each.
pub open spec fn hex_text(b: Seq<u8>) -> Seq<char> {
    Seq::new(
        2 * b.len(),
        |i: int|
            if i % 2 == 0 {
                hex_char(b[i / 2] as int / 16)
            } else {
                hex_char(b[i / 2] as int % 16)
            },
    )
}

fn hex_of(n: u8) -> (c: char)
    requires
        n < 16,
    ensures
        c == hex_char(n as int),
{
    if n < 10 {
        crate::text::digit_char(n as u128)
    } else if n == 10 {
        'a'
    } else if n == 11 {
        'b'
    } else if n == 12 {
        'c'
    } else if n == 13 {
        'd'
    } else if n == 14 {
        'e'
    } else {
        'f'
    }
}

/// The first bytes of a digest in hexadecimal.
pub fn hex_prefix(digest: &Vec<u8>, n: usize) -> (r: String)
    requires
        n <= digest.len(),
    ensures
        r@ == hex_text(digest@.take(n as int)),
{
    let ghost want = hex_text(digest@.take(n as int));
    let mut out: Vec<char> = Vec::new();
    let mut i: usize = 0;
    while i < n
        invariant
            i <= n <= digest.len(),
            want == hex_text(digest@.take(n as int)),
            out@ == want.take(2 * i as int),
        decreases n - i,
    {
        let b: u8 = digest[i];
        out.push(hex_of(b / 16));
        out.push(hex_of(b % 16));
        proof {
            let k = 2 * i as int;
            assert(k / 2 == i as int && k % 2 == 0);
            assert((k + 1) / 2 == i as int && (k + 1) % 2 == 1);
            assert(out@ =~= want.take(k + 2));
        }
        i += 1;
    }
    let m: usize = out.len();
    assert(want.take(2 * n as int) =~= want);
    assert(out@.subrange(0, m as int) =~= want);
    string_of(&out, 0, m)
}

/// The name of the directory that holds the snapshots of a workspace: sixteen hexadecimal digits
/// that depend on the workspace's path alone.
pub fn workspace_hash(workspace: &str) -> (r: String)
    ensures
        r@ == hex_text(sha256(vstd::utf8::encode_utf8(workspace@)).take(8)),
        r@.len() == 16,
{
    let d = digest_of(workspace.as_bytes());
    hex_prefix(&d, 8)
}

/// Whether a character is a control character.
pub open spec fn control(c: char) -> bool {
    c <= '\u{1f}' || '\u{7f}' <= c <= '\u{9f}'
}

/// A text with a blank in place of each control character.
pub open spec fn printable(s: Seq<char>) -> Seq<char> {
    s.map_values(
        |c: char|
            if control(c) {
                ' '
            } else {
                c
            },
    )
}

/// The label under which a snapshot is kept: one line, bounded, never empty.
pub open spec fn label_view(label: Seq<char>) -> Seq<char> {
    let cleaned = text::trim_view(printable(label));
    if cleaned.len() == 0 {
        "snapshot"@
    } else {
        bytes::truncated_view(cleaned, MAX_LABEL_BYTES as nat, "…"@)
    }
}

/// The label under which a snapshot is kept: one line, bounded, never empty.
pub fn sanitize_label(label: &str) -> (r: String)
    ensures
        r@ == label_view(label@),
{
    let v = chars_of(label);
    let mut out: Vec<char> = Vec::new();
    let mut i: usize = 0;
    while i < v.len()
        invariant
            i <= v.len(),
            v@ == label@,
            out@ == printable(label@).take(i as int),
        decreases v.len() - i,
    {
        let c = v[i];
        if c <= '\u{1f}' || ('\u{7f}' <= c && c <= '\u{9f}') {
            out.push(' ');
        } else {
            out.push(c);
        }
        i += 1;
        assert(out@ =~= printable(label@).take(i as int));
    }
    let n: usize = out.len();
    assert(out@.subrange(0, n as int) =~= printable(label@));
    let cleaned = trim(&string_of(&out, 0, n));
    if cleaned.as_str().is_empty() {
        own("snapshot")
    } else {
        truncate_utf8(&cleaned, MAX_LABEL_BYTES, "…")
    }
}

/// A label is a printable line of bounded length, and is never empty.
pub proof fn labels_are_printable_lines(label: Seq<char>)
    ensures
        label_view(label).len() > 0,
        bytes::byte_len(label_view(label)) <= MAX_LABEL_BYTES + bytes::byte_len("…"@),
        forall|i: int|
            0 <= i < label_view(label).len() ==> !control(#[trigger] label_view(label)[i]),
{
    let cleaned = text::trim_view(printable(label));
    reveal_strlit("snapshot");
    reveal_strlit("…");
    lemma_trim_keeps(printable(label));
    assert forall|i: int| 0 <= i < cleaned.len() implies !control(#[trigger] cleaned[i]) by {
        let k = choose|k: int| 0 <= k < printable(label).len() && printable(label)[k] == cleaned[i];
        assert(!control(printable(label)[k]));
    }
    if cleaned.len() > 0 {
        bytes::truncation_is_bounded(cleaned, MAX_LABEL_BYTES as nat, "…"@);
        bytes::head_is_longest(cleaned, MAX_LABEL_BYTES as nat);
        let h = bytes::head(cleaned, MAX_LABEL_BYTES as nat);
        let l = label_view(label);
        assert forall|i: int| 0 <= i < l.len() implies !control(#[trigger] l[i]) by {
            if l != cleaned && i < h.len() {
                assert(l[i] == cleaned[i]);
            }
        }
    } else {
        assert("snapshot"@.len() == 8);
        bytes::lemma_byte_len_bound("snapshot"@);
    }
}

proof fn lemma_trim_keeps(s: Seq<char>)
    ensures
        forall|i: int|
            0 <= i < text::trim_view(s).len() ==> s.contains(#[trigger] text::trim_view(s)[i]),
{
    let u = text::trim_start_view(s);
    let t = text::trim_view(s);
    lemma_start_keeps(s);
    lemma_end_keeps(u);
    assert forall|i: int| 0 <= i < t.len() implies s.contains(#[trigger] t[i]) by {
        assert(u.contains(text::trim_end_view(u)[i]));
        let k = choose|k: int| 0 <= k < u.len() && u[k] == t[i];
        assert(s.contains(text::trim_start_view(s)[k]));
    }
}

proof fn lemma_end_keeps(s: Seq<char>)
    ensures
        forall|i: int|
            0 <= i < text::trim_end_view(s).len() ==> s.contains(
                #[trigger] text::trim_end_view(s)[i],
            ),
    decreases s.len(),
{
    if s.len() > 0 && text::white(s.last()) {
        lemma_end_keeps(s.drop_last());
        let t = text::trim_end_view(s);
        assert forall|i: int| 0 <= i < t.len() implies s.contains(#[trigger] t[i]) by {
            assert(t[i] == text::trim_end_view(s.drop_last())[i]);
            let k = choose|k: int| 0 <= k < s.drop_last().len() && s.drop_last()[k] == t[i];
            assert(s[k] == t[i]);
        }
    }
}

proof fn lemma_start_keeps(s: Seq<char>)
    ensures
        forall|i: int|
            0 <= i < text::trim_start_view(s).len() ==> s.contains(
                #[trigger] text::trim_start_view(s)[i],
            ),
    decreases s.len(),
{
    if s.len() > 0 && text::white(s[0]) {
        lemma_start_keeps(s.drop_first());
        let t = text::trim_start_view(s);
        assert forall|i: int| 0 <= i < t.len() implies s.contains(#[trigger] t[i]) by {
            assert(t[i] == text::trim_start_view(s.drop_first())[i]);
            let k = choose|k: int| 0 <= k < s.drop_first().len() && s.drop_first()[k] == t[i];
            assert(s[k + 1] == t[i]);
        }
    }
}

/// A number with leading zeros, at least `w` digits long.
pub open spec fn padded(n: nat, w: nat) -> Seq<char> {
    let d = text::dec(n);
    if d.len() >= w {
        d
    } else {
        Seq::new((w - d.len()) as nat, |i: int| '0') + d
    }
}

/// The first eight characters of a commit hash.
pub open spec fn short_hash(commit: Seq<char>) -> Seq<char> {
    if commit.len() <= 8 {
        commit
    } else {
        commit.take(8)
    }
}

/// The name of the ref that holds a snapshot: when it was taken, which it is within the process,
/// and the beginning of its hash.
pub open spec fn ref_view(millis: nat, seq: nat, commit: Seq<char>) -> Seq<char> {
    SNAPSHOT_REF_PREFIX@ + "/"@ + padded(millis, 16) + "-"@ + (padded(seq, 6) + "-"@ + short_hash(
        commit,
    ))
}

fn pad(n: u128, w: usize) -> (r: String)
    ensures
        r@ == padded(n as nat, w as nat),
{
    let d = dec_string(n);
    let v = chars_of(&d);
    let len: usize = v.len();
    if len >= w {
        return d;
    }
    let mut out: Vec<char> = Vec::new();
    let mut i: usize = 0;
    let gap: usize = w - len;
    let ghost zeros = Seq::new(gap as nat, |i: int| '0');
    while i < gap
        invariant
            i <= gap,
            zeros == Seq::new(gap as nat, |i: int| '0'),
            out@ == zeros.take(i as int),
        decreases gap - i,
    {
        out.push('0');
        i += 1;
        assert(out@ =~= zeros.take(i as int));
    }
    let n: usize = out.len();
    let front = string_of(&out, 0, n);
    assert(front@ =~= zeros);
    cat(&front, &d)
}

/// The name of the ref that holds a snapshot.
pub fn ref_name(millis: u128, seq: u64, commit: &str) -> (r: String)
    ensures
        r@ == ref_view(millis as nat, seq as nat, commit@),
{
    let v = chars_of(commit);
    let n: usize = v.len();
    let m: usize = if n <= 8 {
        n
    } else {
        8
    };
    let short = string_of(&v, 0, m);
    assert(short@ =~= short_hash(commit@));
    let rest = cat3(&pad(seq as u128, 6), "-", &short);
    cat5(SNAPSHOT_REF_PREFIX, "/", &pad(millis, 16), "-", &rest)
}

/// Ten to the power of `w`.
pub open spec fn pow10(w: nat) -> nat
    decreases w,
{
    if w == 0 {
        1
    } else {
        10 * pow10((w - 1) as nat)
    }
}

/// The last `w` digits of a number.
spec fn digits(n: nat, w: nat) -> Seq<char>
    decreases w,
{
    if w == 0 {
        Seq::empty()
    } else {
        digits(n / 10, (w - 1) as nat).push(text::digit((n % 10) as int))
    }
}

proof fn lemma_zero_digits(w: nat)
    ensures
        digits(0, w) == Seq::new(w, |i: int| '0'),
    decreases w,
{
    if w > 0 {
        lemma_zero_digits((w - 1) as nat);
        assert(text::digit(0) == '0');
        assert(digits(0, w) =~= Seq::new(w, |i: int| '0'));
    } else {
        assert(digits(0, w) =~= Seq::new(w, |i: int| '0'));
    }
}

proof fn lemma_padded(n: nat, w: nat)
    requires
        n < pow10(w),
        w > 0,
    ensures
        padded(n, w) == digits(n, w),
        text::dec(n).len() <= w,
    decreases w,
{
    let zero = Seq::new((w - 1) as nat, |i: int| '0');
    if n < 10 {
        assert(n / 10 == 0 && n % 10 == n);
        lemma_zero_digits((w - 1) as nat);
        assert(padded(n, w) =~= zero.push(text::digit(n as int)));
    } else {
        assert(w > 1) by {
            reveal_with_fuel(pow10, 2);
        }
        assert(n / 10 < pow10((w - 1) as nat));
        lemma_padded(n / 10, (w - 1) as nat);
        let d = text::dec(n / 10);
        assert(padded(n, w) =~= padded(n / 10, (w - 1) as nat).push(text::digit((n % 10) as int)));
    }
}

proof fn lemma_same_front(p: Seq<char>, s: Seq<char>, t: Seq<char>)
    ensures
        text::text_before(p + s, p + t) == text::text_before(s, t),
    decreases p.len(),
{
    if p.len() == 0 {
        assert(p + s =~= s);
        assert(p + t =~= t);
    } else {
        assert((p + s).drop_first() =~= p.drop_first() + s);
        assert((p + t).drop_first() =~= p.drop_first() + t);
        lemma_same_front(p.drop_first(), s, t);
    }
}

proof fn lemma_digits_order(a: nat, b: nat, w: nat, x: Seq<char>, y: Seq<char>)
    requires
        a < b,
        b < pow10(w),
    ensures
        text::text_before(digits(a, w) + x, digits(b, w) + y),
    decreases w,
{
    if w > 0 {
        let v = (w - 1) as nat;
        let da = text::digit((a % 10) as int);
        let db = text::digit((b % 10) as int);
        let p = digits(a / 10, v);
        let q = digits(b / 10, v);
        assert(digits(a, w) + x =~= p + (seq![da] + x));
        assert(digits(b, w) + y =~= q + (seq![db] + y));
        if a / 10 < b / 10 {
            lemma_digits_order(a / 10, b / 10, v, seq![da] + x, seq![db] + y);
        } else {
            assert(a / 10 == b / 10);
            lemma_same_front(p, seq![da] + x, seq![db] + y);
            assert(da < db);
            assert((seq![da] + x)[0] == da);
            assert((seq![db] + y)[0] == db);
        }
    }
}

/// The names of snapshots sort by the time at which they were taken, and within a millisecond
/// by their number.
pub proof fn refs_sort_by_time(
    m1: nat,
    s1: nat,
    c1: Seq<char>,
    m2: nat,
    s2: nat,
    c2: Seq<char>,
)
    requires
        m1 < m2 || (m1 == m2 && s1 < s2),
        m2 < pow10(16),
        s1 < pow10(6),
        s2 < pow10(6),
    ensures
        text::text_before(ref_view(m1, s1, c1), ref_view(m2, s2, c2)),
{
    let front = SNAPSHOT_REF_PREFIX@ + "/"@;
    let r1 = padded(s1, 6) + "-"@ + short_hash(c1);
    let r2 = padded(s2, 6) + "-"@ + short_hash(c2);
    lemma_padded(m1, 16);
    lemma_padded(m2, 16);
    lemma_padded(s1, 6);
    lemma_padded(s2, 6);
    let t1 = "-"@ + r1;
    let t2 = "-"@ + r2;
    assert(ref_view(m1, s1, c1) =~= front + (padded(m1, 16) + t1));
    assert(ref_view(m2, s2, c2) =~= front + (padded(m2, 16) + t2));
    lemma_same_front(front, padded(m1, 16) + t1, padded(m2, 16) + t2);
    if m1 < m2 {
        lemma_digits_order(m1, m2, 16, t1, t2);
    } else {
        lemma_same_front(padded(m1, 16), t1, t2);
        lemma_same_front("-"@, r1, r2);
        let e1 = "-"@ + short_hash(c1);
        let e2 = "-"@ + short_hash(c2);
        assert(r1 =~= digits(s1, 6) + e1);
        assert(r2 =~= digits(s2, 6) + e2);
        lemma_digits_order(s1, s2, 6, e1, e2);
    }
}

/// A line of two parts with a NUL between them.
pub open spec fn two_parts(line: Seq<char>) -> Option<(Seq<char>, Seq<char>)> {
    let i = text::find(line, '\0', 0);
    if i >= line.len() {
        None
    } else {
        Some((line.take(i), line.skip(i + 1)))
    }
}

fn split_once_nul(line: &str) -> (r: Option<(String, String)>)
    ensures
        (match r {
            Some((a, b)) => Some((a@, b@)),
            None => None,
        }) == two_parts(line@),
{
    let v = chars_of(line);
    let n: usize = v.len();
    let i: usize = find_char(&v, '\0', 0);
    if i >= n {
        return None;
    }
    let a = string_of(&v, 0, i);
    let b = string_of(&v, i + 1, n);
    assert(a@ =~= line@.take(i as int));
    assert(b@ =~= line@.skip(i + 1));
    Some((a, b))
}

/// The number that a text stands for, where `i64` holds it; zero otherwise.
pub open spec fn timestamp(s: Seq<char>) -> int {
    if s.len() > 0 && s[0] == '-' {
        let rest = s.drop_first();
        if rest.len() > 0 && rest[0] == '+' {
            0
        } else {
            match text::number(rest, 0x8000_0000_0000_0000nat) {
                Some(n) => -(n as int),
                None => 0,
            }
        }
    } else {
        match text::number(s, i64::MAX as nat) {
            Some(n) => n as int,
            None => 0,
        }
    }
}

fn read_timestamp(s: &str) -> (r: i64)
    ensures
        r == timestamp(s@),
{
    let v = chars_of(s);
    let n: usize = v.len();
    if n > 0 && v[0] == '-' {
        let rest = string_of(&v, 1, n);
        assert(rest@ =~= s@.drop_first());
        if n > 1 && v[1] == '+' {
            return 0;
        }
        match parse_number(&rest, 0x8000_0000_0000_0000) {
            Some(m) => if m == 0x8000_0000_0000_0000 {
                i64::MIN
            } else {
                -(m as i64)
            },
            None => 0,
        }
    } else {
        match parse_number(s, i64::MAX as u64) {
            Some(m) => m as i64,
            None => 0,
        }
    }
}

/// The snapshot that a line of a listing describes: id, time and label, with NULs between them.
pub open spec fn listed_snapshot(line: Seq<char>) -> Option<InfoView> {
    match two_parts(line) {
        None => None,
        Some((id, rest)) => match two_parts(rest) {
            None => None,
            Some((ts, label)) => if id.len() == 0 {
                None
            } else {
                Some(
                    InfoView {
                        id,
                        label,
                        timestamp_unix: timestamp(text::trim_view(ts)) as i64,
                    },
                )
            },
        },
    }
}

/// The snapshots that the first `n` lines describe.
pub open spec fn listed_from(ls: Seq<Seq<char>>, n: int) -> Seq<InfoView>
    decreases n,
{
    if n <= 0 {
        Seq::empty()
    } else {
        match listed_snapshot(ls[n - 1]) {
            Some(i) => listed_from(ls, n - 1).push(i),
            None => listed_from(ls, n - 1),
        }
    }
}

fn read_snapshot(line: &str) -> (r: Option<SnapshotInfo>)
    ensures
        (match r {
            Some(i) => Some(i@),
            None => None,
        }) == listed_snapshot(line@),
{
    let (id, rest) = match split_once_nul(line) {
        Some(p) => p,
        None => {
            return None;
        },
    };
    let (ts, label) = match split_once_nul(&rest) {
        Some(p) => p,
        None => {
            return None;
        },
    };
    if id.as_str().is_empty() {
        return None;
    }
    Some(SnapshotInfo { id: SnapshotId(id), label, timestamp_unix: read_timestamp(&trim(&ts)) })
}

/// The snapshots that git's listing describes, in its order.
pub fn parse_snapshots(listing: &str) -> (r: Vec<SnapshotInfo>)
    ensures
        text::views(r@) == listed_from(
            text::lines_view(listing@),
            text::lines_view(listing@).len() as int,
        ),
{
    let ls = lines(listing);
    let ghost lv = text::lines_view(listing@);
    let mut out: Vec<SnapshotInfo> = Vec::new();
    let mut i: usize = 0;
    proof {
        text::lemma_views_empty(out@);
    }
    while i < ls.len()
        invariant
            i <= ls.len(),
            text::views(ls@) == lv,
            text::views(out@) == listed_from(lv, i as int),
        decreases ls.len() - i,
    {
        broadcast use text::lemma_views_push;

        assert(lv[i as int] == ls@[i as int]@);
        if let Some(info) = read_snapshot(&ls[i]) {
            out.push(info);
        }
        i += 1;
    }
    assert(lv.len() == ls@.len());
    out
}

/// The refs that the first `n` lines of a listing name, each with its commit.
pub open spec fn refs_from(ls: Seq<Seq<char>>, n: int) -> Seq<(Seq<char>, Seq<char>)>
    decreases n,
{
    if n <= 0 {
        Seq::empty()
    } else {
        match two_parts(ls[n - 1]) {
            Some(p) => refs_from(ls, n - 1).push(p),
            None => refs_from(ls, n - 1),
        }
    }
}

/// The refs that a listing names, each with its commit.
pub open spec fn refs_view(listing: Seq<char>) -> Seq<(Seq<char>, Seq<char>)> {
    refs_from(text::lines_view(listing), text::lines_view(listing).len() as int)
}

/// Pairs of texts.
pub open spec fn pairs(v: Seq<(String, String)>) -> Seq<(Seq<char>, Seq<char>)> {
    v.map_values(|p: (String, String)| (p.0@, p.1@))
}

/// The refs that git's listing names, each with its commit.
pub fn parse_refs(listing: &str) -> (r: Vec<(String, String)>)
    ensures
        pairs(r@) == refs_view(listing@),
{
    let ls = lines(listing);
    let ghost lv = text::lines_view(listing@);
    let mut out: Vec<(String, String)> = Vec::new();
    let mut i: usize = 0;
    assert(pairs(out@) =~= refs_from(lv, 0));
    while i < ls.len()
        invariant
            i <= ls.len(),
            text::views(ls@) == lv,
            pairs(out@) == refs_from(lv, i as int),
        decreases ls.len() - i,
    {
        assert(lv[i as int] == ls@[i as int]@);
        if let Some(p) = split_once_nul(&ls[i]) {
            let ghost before = out@;
            out.push(p);
            assert(pairs(out@) =~= pairs(before).push((p.0@, p.1@)));
        }
        i += 1;
    }
    assert(lv.len() == ls@.len());
    out
}

/// The lines among the first `n` that are not empty.
pub open spec fn filled_lines(ls: Seq<Seq<char>>, n: int) -> Seq<Seq<char>>
    decreases n,
{
    if n <= 0 {
        Seq::empty()
    } else if ls[n - 1].len() == 0 {
        filled_lines(ls, n - 1)
    } else {
        filled_lines(ls, n - 1).push(ls[n - 1])
    }
}

/// The commits that a listing of pins names.
pub open spec fn pins_view(listing: Seq<char>) -> Seq<Seq<char>> {
    filled_lines(text::lines_view(listing), text::lines_view(listing).len() as int)
}

/// The commits that git's listing of pins names.
pub fn parse_pins(listing: &str) -> (r: Vec<String>)
    ensures
        text::views(r@) == pins_view(listing@),
{
    let ls = lines(listing);
    let ghost lv = text::lines_view(listing@);
    let mut out: Vec<String> = Vec::new();
    let mut i: usize = 0;
    proof {
        text::lemma_views_empty(out@);
    }
    while i < ls.len()
        invariant
            i <= ls.len(),
            text::views(ls@) == lv,
            text::views(out@) == filled_lines(lv, i as int),
        decreases ls.len() - i,
    {
        broadcast use text::lemma_views_push;

        assert(lv[i as int] == ls@[i as int]@);
        if !ls[i].as_str().is_empty() {
            out.push(own(&ls[i]));
        }
        i += 1;
    }
    assert(lv.len() == ls@.len());
    out
}

/// The refs, among the first `n`, that are to go: those behind the `keep_last` newest ones whose
/// commit is not pinned.
pub open spec fn stale_from(
    refs: Seq<(Seq<char>, Seq<char>)>,
    keep_last: int,
    pinned: Seq<Seq<char>>,
    n: int,
) -> Seq<Seq<char>>
    decreases n,
{
    if n <= keep_last || n <= 0 {
        Seq::empty()
    } else if pinned.contains(refs[n - 1].1) {
        stale_from(refs, keep_last, pinned, n - 1)
    } else {
        stale_from(refs, keep_last, pinned, n - 1).push(refs[n - 1].0)
    }
}

/// The refs that are to go; `refs` has the newest first.
pub fn stale_refs(refs: &Vec<(String, String)>, keep_last: usize, pinned: &Vec<String>) -> (r: Vec<
    String,
>)
    ensures
        text::views(r@) == stale_from(
            pairs(refs@),
            keep_last as int,
            text::views(pinned@),
            refs@.len() as int,
        ),
{
    let ghost rv = pairs(refs@);
    let ghost pv = text::views(pinned@);
    let mut out: Vec<String> = Vec::new();
    proof {
        text::lemma_views_empty(out@);
    }
    if refs.len() <= keep_last {
        return out;
    }
    let mut i: usize = keep_last;
    while i < refs.len()
        invariant
            keep_last <= i <= refs.len(),
            rv == pairs(refs@),
            pv == text::views(pinned@),
            text::views(out@) == stale_from(rv, keep_last as int, pv, i as int),
        decreases refs.len() - i,
    {
        broadcast use text::lemma_views_push;

        assert(rv[i as int] == (refs@[i as int].0@, refs@[i as int].1@));
        if !list_has(pinned, &refs[i].1) {
            out.push(own(&refs[i].0));
        }
        i += 1;
    }
    out
}

pub proof fn lemma_stale(
    refs: Seq<(Seq<char>, Seq<char>)>,
    keep_last: int,
    pinned: Seq<Seq<char>>,
    n: int,
    name: Seq<char>,
)
    requires
        0 <= n <= refs.len(),
        keep_last >= 0,
    ensures
        stale_from(refs, keep_last, pinned, n).contains(name) <==> exists|i: int|
            keep_last <= i < n && (#[trigger] refs[i]).0 == name && !pinned.contains(refs[i].1),
    decreases n,
{
    if n > keep_last && n > 0 {
        lemma_stale(refs, keep_last, pinned, n - 1, name);
        let before = stale_from(refs, keep_last, pinned, n - 1);
        let x = refs[n - 1].0;
        assert(before.push(x).contains(name) <==> (before.contains(name) || name == x)) by {
            if before.contains(name) {
                let i = choose|i: int| 0 <= i < before.len() && before[i] == name;
                assert(before.push(x)[i] == name);
            }
            assert(before.push(x)[before.len() as int] == x);
        }
    }
}

/// What goes is behind the newest ones and holds no pinned commit; the newest ones and the
/// pinned ones stay.
pub proof fn pruning_spares_the_newest_and_the_pinned(
    refs: Seq<(Seq<char>, Seq<char>)>,
    keep_last: int,
    pinned: Seq<Seq<char>>,
    i: int,
)
    requires
        keep_last >= 0,
        0 <= i < refs.len(),
        forall|a: int, b: int|
            0 <= a < b < refs.len() ==> (#[trigger] refs[a]).0 != (#[trigger] refs[b]).0,
    ensures
        stale_from(refs, keep_last, pinned, refs.len() as int).contains(refs[i].0) <==> (i
            >= keep_last && !pinned.contains(refs[i].1)),
{
    lemma_stale(refs, keep_last, pinned, refs.len() as int, refs[i].0);
}

} // verus!
