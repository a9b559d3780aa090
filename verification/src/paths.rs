//! Paths as the system reads them: their separators, what they start from, when two of them name
//! the same place, and how one is taken below another.

use vstd::prelude::*;

use crate::text;
use crate::text::{
    cat, cat3, chars_of, find_char, join, list_has, own, same, split, starts_with, string_of,
};

verus! {

/// Whether a character parts a path: the slash, and on Windows the backslash too.
pub open spec fn separates(c: char, windows: bool) -> bool {
    c == '/' || windows && c == '\\'
}

/// A path with a slash for each separator.
pub open spec fn slashed(path: Seq<char>, windows: bool) -> Seq<char> {
    Seq::new(
        path.len(),
        |i: int|
            if separates(path[i], windows) {
                '/'
            } else {
                path[i]
            },
    )
}

/// The pieces between the separators of a path.
pub open spec fn pieces(path: Seq<char>, windows: bool) -> Seq<Seq<char>> {
    text::split_view(slashed(path, windows), '/')
}

/// Whether a path begins with a separator.
pub open spec fn starts_separated(path: Seq<char>, windows: bool) -> bool {
    path.len() > 0 && separates(path[0], windows)
}

/// Whether a path ends with a separator.
pub open spec fn ends_separated(path: Seq<char>, windows: bool) -> bool {
    path.len() > 0 && separates(path.last(), windows)
}

/// Whether a character is a letter of ASCII.
pub open spec fn is_letter(c: char) -> bool {
    'a' <= c <= 'z' || 'A' <= c <= 'Z'
}

/// The upper case of a letter of ASCII.
pub open spec fn upper(c: char) -> char {
    if 'a' <= c <= 'z' {
        (c as u8 - 32) as char
    } else {
        c
    }
}

/// Whether a path begins with the letter of a drive, as Windows writes it.
pub open spec fn has_letter(path: Seq<char>) -> bool {
    path.len() >= 2 && is_letter(path[0]) && path[1] == ':'
}

/// Whether a path starts anywhere but in the directory that it is taken from: at a separator, or
/// at a drive.
pub open spec fn anchored(path: Seq<char>, windows: bool) -> bool {
    starts_separated(path, windows) || windows && has_letter(path)
}

/// Whether a path goes up.
pub open spec fn climbs(path: Seq<char>, windows: bool) -> bool {
    pieces(path, windows).contains(".."@)
}

/// What a path of Windows begins with. A verbatim path is taken as it stands: only the backslash
/// parts it.
#[derive(Debug)]
pub enum Prefix {
    /// Nothing of that kind.
    Plain,
    /// The letter of a drive, in upper case: `C:`.
    Drive(char),
    /// A server and what it shares: `\\server\share`.
    Share { server: String, share: String },
    /// A device: `\\.\name`.
    Device(String),
    /// A verbatim name: `\\?\name`.
    Verbatim(String),
    /// A verbatim drive: `\\?\C:`.
    VerbatimDrive(char),
    /// A verbatim server and what it shares: `\\?\UNC\server\share`.
    VerbatimShare { server: String, share: String },
}

/// What a [`Prefix`] stands for.
#[verifier::ext_equal]
pub enum PrefixView {
    Plain,
    Drive(char),
    Share { server: Seq<char>, share: Seq<char> },
    Device(Seq<char>),
    Verbatim(Seq<char>),
    VerbatimDrive(char),
    VerbatimShare { server: Seq<char>, share: Seq<char> },
}

impl View for Prefix {
    type V = PrefixView;

    open spec fn view(&self) -> PrefixView {
        match self {
            Prefix::Plain => PrefixView::Plain,
            Prefix::Drive(c) => PrefixView::Drive(*c),
            Prefix::Share { server, share } => PrefixView::Share { server: server@, share: share@ },
            Prefix::Device(name) => PrefixView::Device(name@),
            Prefix::Verbatim(name) => PrefixView::Verbatim(name@),
            Prefix::VerbatimDrive(c) => PrefixView::VerbatimDrive(*c),
            Prefix::VerbatimShare { server, share } => PrefixView::VerbatimShare {
                server: server@,
                share: share@,
            },
        }
    }
}

/// A path with a backslash for each slash.
pub open spec fn backslashed(path: Seq<char>) -> Seq<char> {
    Seq::new(
        path.len(),
        |i: int|
            if path[i] == '/' {
                '\\'
            } else {
                path[i]
            },
    )
}

/// Where the first name of a path ends.
pub open spec fn name_end(path: Seq<char>, verbatim: bool) -> int {
    if verbatim {
        text::find(path, '\\', 0)
    } else {
        text::find(slashed(path, true), '/', 0)
    }
}

/// The first name of a path.
pub open spec fn first_name(path: Seq<char>, verbatim: bool) -> Seq<char> {
    path.take(name_end(path, verbatim))
}

/// What follows the first name of a path and its separator.
pub open spec fn after_name(path: Seq<char>, verbatim: bool) -> Seq<char> {
    let n = name_end(path, verbatim);
    if n < path.len() {
        path.skip(n + 1)
    } else {
        Seq::empty()
    }
}

/// What a path behind `\\?\` begins with.
pub open spec fn verbatim_prefix(rest: Seq<char>) -> PrefixView {
    if text::starts(backslashed(rest), "UNC\\"@) {
        let named = rest.skip(4);
        PrefixView::VerbatimShare {
            server: first_name(named, true),
            share: first_name(after_name(named, true), true),
        }
    } else if has_letter(rest) && (rest.len() == 2 || separates(rest[2], true)) {
        PrefixView::VerbatimDrive(upper(rest[0]))
    } else {
        PrefixView::Verbatim(first_name(rest, true))
    }
}

/// What a path behind two separators begins with.
pub open spec fn share_prefix(rest: Seq<char>) -> PrefixView {
    let server = first_name(rest, false);
    let share = first_name(after_name(rest, false), false);
    if server.len() > 0 && share.len() > 0 {
        PrefixView::Share { server, share }
    } else {
        PrefixView::Plain
    }
}

/// What a path begins with; only Windows knows any of it.
pub open spec fn prefix(path: Seq<char>, windows: bool) -> PrefixView {
    let back = backslashed(path);
    if !windows {
        PrefixView::Plain
    } else if text::starts(path, "\\\\?\\"@) {
        verbatim_prefix(path.skip(4))
    } else if text::starts(back, "\\\\.\\"@) {
        PrefixView::Device(first_name(path.skip(4), false))
    } else if text::starts(back, "\\\\"@) {
        share_prefix(path.skip(2))
    } else if has_letter(path) {
        PrefixView::Drive(upper(path[0]))
    } else {
        PrefixView::Plain
    }
}

/// How long the text of a prefix is.
pub open spec fn prefix_len(p: PrefixView) -> nat {
    match p {
        PrefixView::Plain => 0,
        PrefixView::Drive(_) => 2,
        PrefixView::Share { server, share } => 3 + server.len() + share.len(),
        PrefixView::Device(name) => 4 + name.len(),
        PrefixView::Verbatim(name) => 4 + name.len(),
        PrefixView::VerbatimDrive(_) => 6,
        PrefixView::VerbatimShare { server, share } => if share.len() > 0 {
            9 + server.len() + share.len()
        } else {
            8 + server.len()
        },
    }
}

/// Whether a path is taken as it stands.
pub open spec fn is_verbatim(p: PrefixView) -> bool {
    p is Verbatim || p is VerbatimDrive || p is VerbatimShare
}

/// What follows the prefix of a path.
pub open spec fn beyond_prefix(path: Seq<char>, windows: bool) -> Seq<char> {
    path.skip(prefix_len(prefix(path, windows)) as int)
}

/// Whether the root is written in a path, behind its prefix.
pub open spec fn writes_root(path: Seq<char>, windows: bool) -> bool {
    starts_separated(beyond_prefix(path, windows), windows)
}

/// Whether a path names one place, whatever directory it is taken from. On Windows the root alone
/// is not enough: it is that of some drive. A drive alone is not enough either.
pub open spec fn absolute(path: Seq<char>, windows: bool) -> bool {
    if windows {
        match prefix(path, windows) {
            PrefixView::Plain => false,
            PrefixView::Drive(_) => writes_root(path, windows),
            _ => true,
        }
    } else {
        writes_root(path, windows)
    }
}

/// Whether a piece of a path counts: a verbatim path keeps those that stand for the same
/// directory.
pub open spec fn counts(piece: Seq<char>, verbatim: bool) -> bool {
    piece.len() > 0 && (verbatim || piece != "."@)
}

/// The pieces, among the first `n`, that count.
pub open spec fn counted(pieces: Seq<Seq<char>>, verbatim: bool, n: int) -> Seq<Seq<char>>
    decreases n,
{
    if n <= 0 {
        Seq::empty()
    } else if counts(pieces[n - 1], verbatim) {
        counted(pieces, verbatim, n - 1).push(pieces[n - 1])
    } else {
        counted(pieces, verbatim, n - 1)
    }
}

/// The parts of a path without a prefix, without empty ones and those that stand for the same
/// directory.
pub open spec fn parts_view(path: Seq<char>, windows: bool) -> Seq<Seq<char>> {
    let all = pieces(path, windows);
    counted(all, false, all.len() as int)
}

/// The names of a path, behind its prefix and root. Those that stand for the same directory do
/// not count, but for one that begins a path without a prefix and a root, and in a verbatim path.
pub open spec fn components(path: Seq<char>, windows: bool) -> Seq<Seq<char>> {
    let p = prefix(path, windows);
    let rest = beyond_prefix(path, windows);
    if is_verbatim(p) {
        let all = text::split_view(
            if writes_root(path, windows) {
                rest.skip(1)
            } else {
                rest
            },
            '\\',
        );
        counted(all, true, all.len() as int)
    } else if p is Plain && pieces(rest, windows)[0] == "."@ {
        seq!["."@] + parts_view(rest, windows)
    } else {
        parts_view(rest, windows)
    }
}

/// The place that a path names: two paths are the same where they begin with the same, both have
/// a root or none, and their components are equal. Nothing on disk is looked at.
#[derive(Debug)]
pub struct Place {
    pub prefix: Prefix,
    pub rooted: bool,
    pub parts: Vec<String>,
}

/// What a [`Place`] stands for.
#[verifier::ext_equal]
pub struct PlaceView {
    pub prefix: PrefixView,
    pub rooted: bool,
    pub parts: Seq<Seq<char>>,
}

impl View for Place {
    type V = PlaceView;

    open spec fn view(&self) -> PlaceView {
        PlaceView {
            prefix: self.prefix@,
            rooted: self.rooted,
            parts: text::views(self.parts@),
        }
    }
}

/// The place that a path names. A share and a device have a root though none is written.
pub open spec fn place(path: Seq<char>, windows: bool) -> PlaceView {
    let p = prefix(path, windows);
    PlaceView {
        prefix: p,
        rooted: writes_root(path, windows) || p is Share || p is Device,
        parts: components(path, windows),
    }
}

/// Names after the first `n` of further ones: `..` takes the last one back.
pub open spec fn climbed(start: Seq<Seq<char>>, names: Seq<Seq<char>>, n: int) -> Seq<Seq<char>>
    decreases n,
{
    if n <= 0 {
        start
    } else {
        let before = climbed(start, names, n - 1);
        let name = names[n - 1];
        if name == "."@ {
            before
        } else if name == ".."@ {
            if before.len() > 0 && before.last() != "."@ && before.last() != ".."@ {
                before.drop_last()
            } else {
                before
            }
        } else {
            before.push(name)
        }
    }
}

/// `path` below a verbatim `base`: nothing in it stands for the same directory or the one above.
pub open spec fn joined_verbatim(base: Seq<char>, path: Seq<char>) -> Seq<char> {
    let names = components(path, true);
    let start = if writes_root(path, true) {
        Seq::empty()
    } else {
        components(base, true)
    };
    let all = climbed(start, names, names.len() as int);
    let front = base.take(prefix_len(prefix(base, true)) as int);
    if all.len() > 0 || writes_root(path, true) || writes_root(base, true) {
        front + "\\"@ + text::join_view(all, "\\"@)
    } else {
        front
    }
}

/// `path` below `base`. One that has its own prefix stands alone; one that has the root alone is
/// taken from the root of `base`.
pub open spec fn joined(base: Seq<char>, path: Seq<char>, windows: bool) -> Seq<char> {
    let b = prefix(base, windows);
    if !(prefix(path, windows) is Plain) {
        path
    } else if is_verbatim(b) && path.len() > 0 {
        joined_verbatim(base, path)
    } else if writes_root(path, windows) {
        base.take(prefix_len(b) as int) + path
    } else if base.len() == 0 || ends_separated(base, windows) || b is Drive && base.len() == 2 {
        base + path
    } else if windows {
        base + "\\"@ + path
    } else {
        base + "/"@ + path
    }
}

/// Whether a character parts a path.
pub fn is_separator(c: char, windows: bool) -> (r: bool)
    ensures
        r == separates(c, windows),
{
    c == '/' || windows && c == '\\'
}

fn with_slashes(path: &str, windows: bool) -> (r: String)
    ensures
        r@ == slashed(path@, windows),
{
    let chars = chars_of(path);
    let mut out: Vec<char> = Vec::new();
    let mut i: usize = 0;
    while i < chars.len()
        invariant
            i <= chars.len(),
            chars@ == path@,
            out@ == slashed(path@, windows).take(i as int),
        decreases chars.len() - i,
    {
        let c = chars[i];
        if is_separator(c, windows) {
            out.push('/');
        } else {
            out.push(c);
        }
        i += 1;
        assert(out@ =~= slashed(path@, windows).take(i as int));
    }
    let n: usize = out.len();
    let r = string_of(&out, 0, n);
    assert(r@ =~= slashed(path@, windows));
    r
}

fn with_backslashes(path: &str) -> (r: String)
    ensures
        r@ == backslashed(path@),
{
    let chars = chars_of(path);
    let mut out: Vec<char> = Vec::new();
    let mut i: usize = 0;
    while i < chars.len()
        invariant
            i <= chars.len(),
            chars@ == path@,
            out@ == backslashed(path@).take(i as int),
        decreases chars.len() - i,
    {
        let c = chars[i];
        if c == '/' {
            out.push('\\');
        } else {
            out.push(c);
        }
        i += 1;
        assert(out@ =~= backslashed(path@).take(i as int));
    }
    let n: usize = out.len();
    let r = string_of(&out, 0, n);
    assert(r@ =~= backslashed(path@));
    r
}

/// The pieces between the separators of a path.
pub fn pieces_of(path: &str, windows: bool) -> (r: Vec<String>)
    ensures
        text::views(r@) == pieces(path@, windows),
{
    split(&with_slashes(path, windows), '/')
}

fn begins_separated(path: &str, windows: bool) -> (r: bool)
    ensures
        r == starts_separated(path@, windows),
{
    let chars = chars_of(path);
    chars.len() > 0 && is_separator(chars[0], windows)
}

fn begins_with_letter(path: &str) -> (r: bool)
    ensures
        r == has_letter(path@),
{
    let chars = chars_of(path);
    chars.len() >= 2 && (('a' <= chars[0] && chars[0] <= 'z') || ('A' <= chars[0] && chars[0]
        <= 'Z')) && chars[1] == ':'
}

/// Whether a path starts anywhere but in the directory that it is taken from.
pub fn is_anchored(path: &str, windows: bool) -> (r: bool)
    ensures
        r == anchored(path@, windows),
{
    begins_separated(path, windows) || windows && begins_with_letter(path)
}

/// Whether a path goes up.
pub fn goes_up(path: &str, windows: bool) -> (r: bool)
    ensures
        r == climbs(path@, windows),
{
    list_has(&pieces_of(path, windows), "..")
}

/// The end of a text, from a position on.
fn text_from(path: &str, n: usize) -> (r: String)
    requires
        n <= path@.len(),
    ensures
        r@ == path@.skip(n as int),
{
    let chars = chars_of(path);
    let m: usize = chars.len();
    let r = string_of(&chars, n, m);
    assert(r@ =~= path@.skip(n as int));
    r
}

/// The start of a text, up to a position.
fn text_to(path: &str, n: usize) -> (r: String)
    requires
        n <= path@.len(),
    ensures
        r@ == path@.take(n as int),
{
    let chars = chars_of(path);
    let r = string_of(&chars, 0, n);
    assert(r@ =~= path@.take(n as int));
    r
}

proof fn lemma_name_end(path: Seq<char>, verbatim: bool)
    ensures
        0 <= name_end(path, verbatim) <= path.len(),
{
    text::lemma_find(path, '\\', 0);
    text::lemma_find(slashed(path, true), '/', 0);
}

/// The first name of a path, and what follows it and its separator.
fn cut_name(path: &str, verbatim: bool) -> (r: (String, String))
    ensures
        r.0@ == first_name(path@, verbatim),
        r.1@ == after_name(path@, verbatim),
{
    let chars = if verbatim {
        chars_of(path)
    } else {
        chars_of(&with_slashes(path, true))
    };
    let n: usize = find_char(
        &chars,
        if verbatim {
            '\\'
        } else {
            '/'
        },
        0,
    );
    let name = text_to(path, n);
    if n < chars.len() {
        (name, text_from(path, n + 1))
    } else {
        let none = String::new();
        assert(none@ =~= Seq::<char>::empty());
        (name, none)
    }
}

fn upper_of(c: char) -> (r: char)
    requires
        is_letter(c),
    ensures
        r == upper(c),
{
    if 'a' <= c && c <= 'z' {
        (c as u8 - 32) as char
    } else {
        c
    }
}

fn verbatim_prefix_of(rest: &str) -> (r: Prefix)
    ensures
        r@ == verbatim_prefix(rest@),
{
    let chars = chars_of(rest);
    proof {
        reveal_strlit("UNC\\");
    }
    if starts_with(&with_backslashes(rest), "UNC\\") {
        let (server, more) = cut_name(&text_from(rest, 4), true);
        let (share, _) = cut_name(&more, true);
        Prefix::VerbatimShare { server, share }
    } else if begins_with_letter(rest) && (chars.len() == 2 || is_separator(chars[2], true)) {
        Prefix::VerbatimDrive(upper_of(chars[0]))
    } else {
        let (name, _) = cut_name(rest, true);
        Prefix::Verbatim(name)
    }
}

/// What a path begins with.
pub fn prefix_of(path: &str, windows: bool) -> (r: Prefix)
    ensures
        r@ == prefix(path@, windows),
{
    proof {
        reveal_strlit("\\\\?\\");
        reveal_strlit("\\\\.\\");
        reveal_strlit("\\\\");
    }
    if !windows {
        return Prefix::Plain;
    }
    let back = with_backslashes(path);
    if starts_with(path, "\\\\?\\") {
        verbatim_prefix_of(&text_from(path, 4))
    } else if starts_with(&back, "\\\\.\\") {
        let (name, _) = cut_name(&text_from(path, 4), false);
        Prefix::Device(name)
    } else if starts_with(&back, "\\\\") {
        let (server, more) = cut_name(&text_from(path, 2), false);
        let (share, _) = cut_name(&more, false);
        if !server.as_str().is_empty() && !share.as_str().is_empty() {
            Prefix::Share { server, share }
        } else {
            Prefix::Plain
        }
    } else if begins_with_letter(path) {
        Prefix::Drive(upper_of(chars_of(path)[0]))
    } else {
        Prefix::Plain
    }
}

proof fn lemma_names_fit(rest: Seq<char>, verbatim: bool)
    ensures
        first_name(rest, verbatim).len() <= rest.len(),
        first_name(after_name(rest, verbatim), verbatim).len() > 0 ==> first_name(
            rest,
            verbatim,
        ).len() + 1 + first_name(after_name(rest, verbatim), verbatim).len() <= rest.len(),
{
    lemma_name_end(rest, verbatim);
    lemma_name_end(after_name(rest, verbatim), verbatim);
}

proof fn lemma_prefix_fits(path: Seq<char>, windows: bool)
    ensures
        0 <= prefix_len(prefix(path, windows)) <= path.len(),
{
    reveal_strlit("\\\\?\\");
    reveal_strlit("\\\\.\\");
    reveal_strlit("\\\\");
    reveal_strlit("UNC\\");
    if windows {
        if path.len() >= 8 {
            lemma_names_fit(path.skip(4).skip(4), true);
        }
        if path.len() >= 4 {
            lemma_names_fit(path.skip(4), true);
            lemma_names_fit(path.skip(4), false);
        }
        if path.len() >= 2 {
            lemma_names_fit(path.skip(2), false);
        }
    }
}

fn count(name: &str) -> (r: usize)
    ensures
        r == name@.len(),
{
    chars_of(name).len()
}

/// How long the text of the prefix of a path is.
fn prefix_length(path: &str, windows: bool) -> (r: usize)
    ensures
        r == prefix_len(prefix(path@, windows)),
        r <= path@.len(),
{
    proof {
        lemma_prefix_fits(path@, windows);
    }
    let room: usize = count(path);
    assert(prefix_len(prefix(path@, windows)) <= room);
    match prefix_of(path, windows) {
        Prefix::Plain => 0,
        Prefix::Drive(_) => 2,
        Prefix::Share { server, share } => 3 + count(&server) + count(&share),
        Prefix::Device(name) => 4 + count(&name),
        Prefix::Verbatim(name) => 4 + count(&name),
        Prefix::VerbatimDrive(_) => 6,
        Prefix::VerbatimShare { server, share } => {
            let n: usize = count(&share);
            if n > 0 {
                9 + count(&server) + n
            } else {
                8 + count(&server)
            }
        },
    }
}

/// The text of the prefix of a path.
pub fn prefix_text(path: &str, windows: bool) -> (r: String)
    ensures
        r@ == path@.take(prefix_len(prefix(path@, windows)) as int),
{
    text_to(path, prefix_length(path, windows))
}

fn rest_of(path: &str, windows: bool) -> (r: String)
    ensures
        r@ == beyond_prefix(path@, windows),
{
    text_from(path, prefix_length(path, windows))
}

/// Whether the root is written in a path, behind its prefix.
pub fn has_root(path: &str, windows: bool) -> (r: bool)
    ensures
        r == writes_root(path@, windows),
{
    begins_separated(&rest_of(path, windows), windows)
}

/// Whether a path names one place, whatever directory it is taken from.
pub fn is_absolute(path: &str, windows: bool) -> (r: bool)
    ensures
        r == absolute(path@, windows),
{
    if windows {
        match prefix_of(path, windows) {
            Prefix::Plain => false,
            Prefix::Drive(_) => has_root(path, windows),
            _ => true,
        }
    } else {
        has_root(path, windows)
    }
}

fn takes_as_it_stands(p: &Prefix) -> (r: bool)
    ensures
        r == is_verbatim(p@),
{
    match p {
        Prefix::Verbatim(_) => true,
        Prefix::VerbatimDrive(_) => true,
        Prefix::VerbatimShare { .. } => true,
        _ => false,
    }
}

fn count_pieces(all: &Vec<String>, verbatim: bool) -> (r: Vec<String>)
    ensures
        text::views(r@) == counted(text::views(all@), verbatim, all.len() as int),
{
    let ghost pv = text::views(all@);
    let mut out: Vec<String> = Vec::new();
    let mut i: usize = 0;
    proof {
        text::lemma_views_empty(out@);
    }
    while i < all.len()
        invariant
            i <= all.len(),
            text::views(all@) == pv,
            text::views(out@) == counted(pv, verbatim, i as int),
        decreases all.len() - i,
    {
        broadcast use text::lemma_views_push;

        assert(pv[i as int] == all@[i as int]@);
        if !all[i].as_str().is_empty() && (verbatim || !same(&all[i], ".")) {
            out.push(own(&all[i]));
        }
        i += 1;
    }
    out
}

/// The parts of a path without a prefix, without empty ones and those that stand for the same
/// directory.
pub fn parts_of(path: &str, windows: bool) -> (r: Vec<String>)
    ensures
        text::views(r@) == parts_view(path@, windows),
{
    let all = pieces_of(path, windows);
    assert(pieces(path@, windows).len() == all@.len());
    count_pieces(&all, false)
}

pub proof fn lemma_some_piece(path: Seq<char>, windows: bool)
    ensures
        pieces(path, windows).len() > 0,
{
    text::lemma_find(slashed(path, windows), '/', 0);
}

/// The names of a path, behind its prefix and root.
pub fn components_of(path: &str, windows: bool) -> (r: Vec<String>)
    ensures
        text::views(r@) == components(path@, windows),
{
    let p = prefix_of(path, windows);
    let rest = rest_of(path, windows);
    if takes_as_it_stands(&p) {
        let body = if has_root(path, windows) {
            text_from(&rest, 1)
        } else {
            own(&rest)
        };
        let all = split(&body, '\\');
        assert(text::views(all@).len() == all@.len());
        return count_pieces(&all, true);
    }
    let all = pieces_of(&rest, windows);
    let parts = parts_of(&rest, windows);
    proof {
        lemma_some_piece(rest@, windows);
        assert(pieces(rest@, windows)[0] == all@[0]@);
    }
    let plain = match p {
        Prefix::Plain => true,
        _ => false,
    };
    if plain && same(&all[0], ".") {
        let mut out: Vec<String> = vec![own(".")];
        let n: usize = parts.len();
        crate::text::push_range(&mut out, &parts, 0, n);
        assert(text::views(out@) =~= seq!["."@] + text::views(parts@));
        out
    } else {
        parts
    }
}

/// The place that a path names.
pub fn place_of(path: &str, windows: bool) -> (r: Place)
    ensures
        r@ == place(path@, windows),
{
    let p = prefix_of(path, windows);
    let implied = match &p {
        Prefix::Share { .. } => true,
        Prefix::Device(_) => true,
        _ => false,
    };
    let rooted = has_root(path, windows) || implied;
    Place { prefix: p, rooted, parts: components_of(path, windows) }
}

impl Prefix {
    /// Whether this is the same prefix.
    pub fn is_same(&self, other: &Prefix) -> (r: bool)
        ensures
            r == (self@ == other@),
    {
        match (self, other) {
            (Prefix::Plain, Prefix::Plain) => true,
            (Prefix::Drive(a), Prefix::Drive(b)) => *a == *b,
            (Prefix::Share { server, share }, Prefix::Share { server: s, share: t }) => same(
                server,
                s,
            ) && same(share, t),
            (Prefix::Device(a), Prefix::Device(b)) => same(a, b),
            (Prefix::Verbatim(a), Prefix::Verbatim(b)) => same(a, b),
            (Prefix::VerbatimDrive(a), Prefix::VerbatimDrive(b)) => *a == *b,
            (
                Prefix::VerbatimShare { server, share },
                Prefix::VerbatimShare { server: s, share: t },
            ) => same(server, s) && same(share, t),
            _ => false,
        }
    }
}

impl Place {
    /// Whether this is the same place.
    pub fn is_same(&self, other: &Place) -> (r: bool)
        ensures
            r == (self@ == other@),
    {
        let ghost a = text::views(self.parts@);
        let ghost b = text::views(other.parts@);
        assert(a.len() == self.parts@.len() && b.len() == other.parts@.len());
        if !self.prefix.is_same(&other.prefix) || self.rooted != other.rooted || self.parts.len()
            != other.parts.len() {
            return false;
        }
        let mut i: usize = 0;
        while i < self.parts.len()
            invariant
                i <= self.parts.len(),
                self.parts.len() == other.parts.len(),
                a == text::views(self.parts@),
                b == text::views(other.parts@),
                forall|k: int| 0 <= k < i ==> #[trigger] a[k] == b[k],
            decreases self.parts.len() - i,
        {
            assert(a[i as int] == self.parts@[i as int]@);
            assert(b[i as int] == other.parts@[i as int]@);
            if !same(&self.parts[i], &other.parts[i]) {
                return false;
            }
            i += 1;
        }
        assert(a =~= b);
        true
    }
}

/// Whether two paths are the same.
pub fn same_place(a: &str, b: &str, windows: bool) -> (r: bool)
    ensures
        r == (place(a@, windows) == place(b@, windows)),
{
    place_of(a, windows).is_same(&place_of(b, windows))
}

fn join_verbatim(base: &str, path: &str) -> (r: String)
    ensures
        r@ == joined_verbatim(base@, path@),
{
    let names = components_of(path, true);
    let ghost nv = components(path@, true);
    assert(nv.len() == names@.len());
    let mut all: Vec<String> = if has_root(path, true) {
        let none: Vec<String> = Vec::new();
        proof {
            text::lemma_views_empty(none@);
        }
        none
    } else {
        components_of(base, true)
    };
    let ghost start = text::views(all@);
    let mut i: usize = 0;
    while i < names.len()
        invariant
            i <= names.len(),
            nv == text::views(names@),
            text::views(all@) == climbed(start, nv, i as int),
        decreases names.len() - i,
    {
        broadcast use text::lemma_views_push;

        let ghost before = text::views(all@);
        assert(nv[i as int] == names@[i as int]@);
        assert(before.len() == all@.len());
        if same(&names[i], ".") {
        } else if same(&names[i], "..") {
            let m: usize = all.len();
            if m > 0 {
                assert(before.last() == all@[m - 1]@);
                if !same(&all[m - 1], ".") && !same(&all[m - 1], "..") {
                    let _ = all.pop();
                    assert(text::views(all@) =~= before.drop_last());
                }
            }
        } else {
            all.push(own(&names[i]));
        }
        i += 1;
    }
    let front = prefix_text(base, true);
    assert(text::views(all@).len() == all@.len());
    if all.len() > 0 || has_root(path, true) || has_root(base, true) {
        cat3(&front, "\\", &join(&all, "\\"))
    } else {
        front
    }
}

/// `path` below `base`; one that stands alone is not below it.
pub fn join_paths(base: &str, path: &str, windows: bool) -> (r: String)
    ensures
        r@ == joined(base@, path@, windows),
{
    let chars = chars_of(base);
    let n: usize = chars.len();
    let own_prefix = match prefix_of(path, windows) {
        Prefix::Plain => false,
        _ => true,
    };
    let b = prefix_of(base, windows);
    let bare_drive = match &b {
        Prefix::Drive(_) => n == 2,
        _ => false,
    };
    proof {
        if !windows {
            assert(!is_verbatim(b@));
        }
    }
    if own_prefix {
        own(path)
    } else if takes_as_it_stands(&b) && !path.is_empty() {
        join_verbatim(base, path)
    } else if has_root(path, windows) {
        cat(&prefix_text(base, windows), path)
    } else if n == 0 || is_separator(chars[n - 1], windows) || bare_drive {
        cat(base, path)
    } else if windows {
        cat3(base, "\\", path)
    } else {
        cat3(base, "/", path)
    }
}

/// A path that names one place stands alone.
pub proof fn absolute_paths_stand_alone(base: Seq<char>, path: Seq<char>, windows: bool)
    requires
        absolute(path, windows),
    ensures
        joined(base, path, windows) == path,
{
    if !windows {
        assert(base.take(0) + path =~= path);
    }
}

} // verus!
