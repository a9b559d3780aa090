//! Which paths leave the directory they are taken from, which of them name the same place, and how
//! one is taken below another.

use vstd::prelude::*;

use crate::laws::texts;
use crate::paths;
use crate::paths::PrefixView;
use crate::restore_paths;
use crate::text;

verus! {

/// A path is taken from elsewhere where it begins with a slash; on Windows also where it begins with
/// a backslash or with a letter and a colon.
pub proof fn anchored_paths_begin_elsewhere(path: Seq<char>)
    ensures
        paths::anchored(path, false) <==> path.len() > 0 && path[0] == '/',
        paths::anchored(path, true) <==> path.len() > 0 && (path[0] == '/' || path[0] == '\\') || (
        path.len() >= 2 && path[1] == ':' && ('a' <= path[0] <= 'z' || 'A' <= path[0] <= 'Z')),
{
}

/// Splitting a text with a separator in it is splitting what stands on either side.
pub proof fn texts_are_split_on_either_side(a: Seq<char>, c: char, b: Seq<char>)
    ensures
        text::split_view(a + seq![c] + b, c) == text::split_view(a, c) + text::split_view(b, c),
    decreases a.len(),
{
    if !a.contains(c) {
        texts::texts_are_split_at_a_character(a, c, b);
    } else {
        text::lemma_find(a, c, 0);
        let k = text::find(a, c, 0);
        if k >= a.len() {
            let i = choose|i: int| 0 <= i < a.len() && a[i] == c;
            assert(a[i] != c);
        }
        let x = a.take(k);
        let y = a.skip(k + 1);
        assert(a =~= x + seq![c] + y);
        assert(!x.contains(c)) by {
            if x.contains(c) {
                let i = choose|i: int| 0 <= i < x.len() && x[i] == c;
                assert(a[i] == c);
            }
        }
        texts_are_split_on_either_side(y, c, b);
        texts::texts_are_split_at_a_character(x, c, y);
        texts::texts_are_split_at_a_character(x, c, y + seq![c] + b);
        assert(a + seq![c] + b =~= x + seq![c] + (y + seq![c] + b));
        assert(seq![x] + (text::split_view(y, c) + text::split_view(b, c)) =~= (seq![x]
            + text::split_view(y, c)) + text::split_view(b, c));
    }
}

proof fn lemma_pieces(a: Seq<char>, sep: char, b: Seq<char>, windows: bool)
    requires
        paths::separates(sep, windows),
    ensures
        paths::pieces(a + seq![sep] + b, windows) == paths::pieces(a, windows) + paths::pieces(
            b,
            windows,
        ),
{
    let s = a + seq![sep] + b;
    assert(paths::slashed(s, windows) =~= paths::slashed(a, windows) + seq!['/'] + paths::slashed(
        b,
        windows,
    ));
    texts_are_split_on_either_side(paths::slashed(a, windows), '/', paths::slashed(b, windows));
}

/// Whether a name holds no separator.
pub open spec fn single(name: Seq<char>, windows: bool) -> bool {
    forall|i: int| 0 <= i < name.len() ==> !paths::separates(#[trigger] name[i], windows)
}

proof fn lemma_one_piece(name: Seq<char>, windows: bool)
    requires
        single(name, windows),
    ensures
        paths::pieces(name, windows) == seq![name],
{
    assert(paths::slashed(name, windows) =~= name);
    assert(!name.contains('/')) by {
        if name.contains('/') {
            let i = choose|i: int| 0 <= i < name.len() && name[i] == '/';
            assert(!paths::separates(name[i], windows));
        }
    }
    texts::texts_are_split_at_a_character(name, '/', Seq::empty());
}

/// A path climbs exactly where one of its names, between slashes, or on Windows between slashes and
/// backslashes, is two dots.
pub proof fn climbing_paths_hold_two_dots(
    a: Seq<char>,
    sep: char,
    b: Seq<char>,
    name: Seq<char>,
    windows: bool,
)
    requires
        sep == '/' || windows && sep == '\\',
        single(name, windows),
    ensures
        paths::climbs(a + seq![sep] + b, windows) <==> paths::climbs(a, windows) || paths::climbs(
            b,
            windows,
        ),
        paths::climbs(name, windows) <==> name == ".."@,
{
    lemma_pieces(a, sep, b, windows);
    lemma_one_piece(name, windows);
    let (p, q) = (paths::pieces(a, windows), paths::pieces(b, windows));
    let d = ".."@;
    if p.contains(d) {
        let i = choose|i: int| 0 <= i < p.len() && p[i] == d;
        assert((p + q)[i] == d);
    }
    if q.contains(d) {
        let i = choose|i: int| 0 <= i < q.len() && q[i] == d;
        assert((p + q)[p.len() + i] == d);
    }
    if (p + q).contains(d) {
        let i = choose|i: int| 0 <= i < (p + q).len() && (p + q)[i] == d;
        if i < p.len() {
            assert(p[i] == d);
        } else {
            assert(q[i - p.len()] == d);
        }
    }
    assert(seq![name].contains(d) <==> name == d) by {
        assert(seq![name][0] == name);
    }
}

proof fn lemma_counted_split(p: Seq<Seq<char>>, q: Seq<Seq<char>>, n: int)
    requires
        0 <= n <= q.len(),
    ensures
        paths::counted(p + q, false, p.len() + n) == paths::counted(p, false, p.len() as int)
            + paths::counted(q, false, n),
    decreases n,
{
    let s = p + q;
    if n == 0 {
        lemma_counted_front(p, s, p.len() as int);
        assert(paths::counted(p, false, p.len() as int) + paths::counted(q, false, 0)
            =~= paths::counted(p, false, p.len() as int));
    } else {
        lemma_counted_split(p, q, n - 1);
        assert(s[p.len() + n - 1] == q[n - 1]);
        assert(paths::counted(s, false, p.len() + n) =~= paths::counted(p, false, p.len() as int)
            + paths::counted(q, false, n));
    }
}

proof fn lemma_counted_front(p: Seq<Seq<char>>, s: Seq<Seq<char>>, n: int)
    requires
        n <= p.len(),
        n <= s.len(),
        forall|i: int| 0 <= i < n ==> p[i] == s[i],
    ensures
        paths::counted(s, false, n) == paths::counted(p, false, n),
    decreases n,
{
    if n > 0 {
        lemma_counted_front(p, s, n - 1);
    }
}

/// The parts of a path are its names; neither an empty one nor a single dot is a part.
pub proof fn paths_are_made_of_names(
    a: Seq<char>,
    sep: char,
    b: Seq<char>,
    name: Seq<char>,
    windows: bool,
)
    requires
        sep == '/' || windows && sep == '\\',
        single(name, windows),
    ensures
        paths::parts_view(a + seq![sep] + b, windows) == paths::parts_view(a, windows)
            + paths::parts_view(b, windows),
        name.len() > 0 && name != "."@ ==> paths::parts_view(name, windows) == seq![name],
        name.len() == 0 || name == "."@ ==> paths::parts_view(name, windows).len() == 0,
{
    lemma_pieces(a, sep, b, windows);
    let (p, q) = (paths::pieces(a, windows), paths::pieces(b, windows));
    lemma_counted_split(p, q, q.len() as int);
    lemma_one_piece(name, windows);
    reveal_with_fuel(paths::counted, 2);
    assert(Seq::<Seq<char>>::empty().push(name) =~= seq![name]);
}

/// Where there are no drives, two paths name the same place exactly where both or neither begin with
/// a slash and their parts are the same, but for a dot that a path begins with.
pub proof fn places_are_told_by_their_parts(path: Seq<char>)
    ensures
        ({
            let at = paths::place(path, false);
            &&& at.prefix is Plain
            &&& at.rooted <==> path.len() > 0 && path[0] == '/'
            &&& paths::pieces(path, false)[0] != "."@ ==> at.parts == paths::parts_view(path, false)
            &&& paths::pieces(path, false)[0] == "."@ ==> at.parts == seq!["."@]
                + paths::parts_view(path, false)
        }),
{
    assert(path.skip(0) =~= path);
}

/// A path below a directory is written behind it, with one slash between them; one that begins with
/// a slash stands alone.
pub proof fn paths_are_joined_by_a_slash(base: Seq<char>, path: Seq<char>)
    ensures
        path.len() > 0 && path[0] == '/' ==> paths::joined(base, path, false) == path,
        !(path.len() > 0 && path[0] == '/') && base.len() > 0 && base.last() != '/'
            ==> paths::joined(base, path, false) == base + "/"@ + path,
        !(path.len() > 0 && path[0] == '/') && base.len() > 0 && base.last() == '/'
            ==> paths::joined(base, path, false) == base + path,
        base.len() == 0 ==> paths::joined(base, path, false) == path,
{
    assert(path.skip(0) =~= path);
    assert(base.take(0) + path =~= path);
    if base.len() == 0 {
        assert(base + path =~= path);
    }
}

/// On Windows a path below a directory is written behind it with a backslash between them; one that
/// begins with a drive stands alone.
pub proof fn windows_paths_are_joined_by_a_backslash(base: Seq<char>, path: Seq<char>)
    requires
        paths::prefix(base, true) is Plain || paths::prefix(base, true) is Drive,
    ensures
        path.len() >= 2 && path[1] == ':' && ('a' <= path[0] <= 'z' || 'A' <= path[0] <= 'Z')
            ==> paths::joined(base, path, true) == path,
        paths::prefix(path, true) is Plain && path.len() > 0 && path[0] != '/' && path[0] != '\\'
            && base.len() > 2 && base.last() != '/' && base.last() != '\\' ==> paths::joined(
            base,
            path,
            true,
        ) == base + "\\"@ + path,
{
    assert(path.skip(0) =~= path);
    if path.len() >= 2 && path[1] == ':' && ('a' <= path[0] <= 'z' || 'A' <= path[0] <= 'Z') {
        reveal_strlit("\\\\?\\");
        reveal_strlit("\\\\.\\");
        reveal_strlit("\\\\");
        let back = paths::backslashed(path);
        assert(back[0] == path[0]);
        if text::starts(path, "\\\\?\\"@) {
            assert(path.subrange(0, 4)[0] == '\\');
        }
        if text::starts(back, "\\\\.\\"@) {
            assert(back.subrange(0, 4)[0] == '\\');
        }
        if text::starts(back, "\\\\"@) {
            assert(back.subrange(0, 2)[0] == '\\');
        }
        assert(paths::prefix(path, true) == PrefixView::Drive(paths::upper(path[0])));
    }
}

/// On Windows a letter and a colon at the beginning are a drive, whatever the case of the letter. The
/// path names one place only where a separator follows; its names are those behind the colon.
pub proof fn drives_are_letters(c: char, rest: Seq<char>)
    requires
        'a' <= c <= 'z' || 'A' <= c <= 'Z',
    ensures
        ({
            let path = seq![c, ':'] + rest;
            let at = paths::place(path, true);
            let slash = rest.len() > 0 && (rest[0] == '/' || rest[0] == '\\');
            &&& at.prefix matches PrefixView::Drive(d) && 'A' <= d <= 'Z' && (d == c || d as int
                + 32 == c as int)
            &&& at.rooted == slash
            &&& paths::absolute(path, true) == slash
            &&& at.parts == paths::parts_view(rest, true)
            &&& paths::prefix(path, false) is Plain
        }),
{
    let path = seq![c, ':'] + rest;
    reveal_strlit("\\\\?\\");
    reveal_strlit("\\\\.\\");
    reveal_strlit("\\\\");
    let back = paths::backslashed(path);
    assert(back[0] == c);
    if text::starts(path, "\\\\?\\"@) {
        assert(path.subrange(0, 4)[0] == '\\');
    }
    if text::starts(back, "\\\\.\\"@) {
        assert(back.subrange(0, 4)[0] == '\\');
    }
    if text::starts(back, "\\\\"@) {
        assert(back.subrange(0, 2)[0] == '\\');
    }
    assert(path.skip(2) =~= rest);
}

proof fn lemma_first_name(name: Seq<char>, rest: Seq<char>)
    requires
        single(name, true),
    ensures
        paths::first_name(name + seq!['\\'] + rest, false) == name,
        paths::after_name(name + seq!['\\'] + rest, false) == rest,
{
    let s = name + seq!['\\'] + rest;
    let flat = paths::slashed(s, true);
    text::lemma_find(flat, '/', 0);
    let k = text::find(flat, '/', 0);
    assert(flat[name.len() as int] == '/');
    if k < name.len() {
        assert(!paths::separates(name[k], true));
        assert(flat[k] == name[k]);
    }
    assert(s.take(k) =~= name);
    assert(s.skip(k + 1) =~= rest);
}

/// On Windows two backslashes, a server, a backslash and a name are a share, and such a path names
/// one place.
pub proof fn shares_have_a_server(server: Seq<char>, share: Seq<char>, rest: Seq<char>)
    requires
        single(server, true),
        single(share, true),
        server.len() > 0,
        share.len() > 0,
        server != "."@,
        server != "?"@,
    ensures
        ({
            let path = seq!['\\', '\\'] + (server + seq!['\\'] + (share + seq!['\\'] + rest));
            let at = paths::place(path, true);
            &&& at.prefix == (PrefixView::Share { server, share })
            &&& at.rooted
            &&& paths::absolute(path, true)
        }),
{
    let behind = server + seq!['\\'] + (share + seq!['\\'] + rest);
    let path = seq!['\\', '\\'] + behind;
    let back = paths::backslashed(path);
    reveal_strlit("\\\\?\\");
    reveal_strlit("\\\\.\\");
    reveal_strlit("\\\\");
    reveal_strlit(".");
    reveal_strlit("?");
    assert(path.skip(2) =~= behind);
    assert(path[2] == server[0]);
    assert(server.len() > 1 ==> path[3] == server[1]);
    assert(back.subrange(0, 2) =~= "\\\\"@);
    assert(!paths::separates(server[0], true));
    if server.len() > 1 {
        assert(!paths::separates(server[1], true));
    }
    if text::starts(path, "\\\\?\\"@) {
        assert(path.subrange(0, 4)[2] == '?');
        assert(path.subrange(0, 4)[3] == '\\');
        assert(server =~= "?"@);
    }
    if text::starts(back, "\\\\.\\"@) {
        assert(back.subrange(0, 4)[2] == '.');
        assert(back.subrange(0, 4)[3] == '\\');
        assert(back[2] == path[2] && back[3] == '\\');
        assert(server =~= "."@);
    }
    lemma_first_name(server, share + seq!['\\'] + rest);
    lemma_first_name(share, rest);
}

/// Whether a path lies below the directory that it is taken from, and begins with a name.
pub open spec fn inside(path: Seq<char>, windows: bool) -> bool {
    &&& !paths::anchored(path, windows)
    &&& !paths::climbs(path, windows)
    &&& paths::pieces(path, windows)[0] != "."@
}

/// Of the files that a restore lists, those are removed that lie inside the workspace: every filled
/// one whose path begins with a name and neither starts elsewhere nor climbs.
pub proof fn restores_remove_inside_the_workspace(listing: Seq<char>, p: Seq<char>, windows: bool)
    ensures
        restore_paths::removable_view(listing, windows).contains(p) <==> text::split_view(
            listing,
            '\0',
        ).contains(p) && p.len() > 0 && inside(p, windows),
{
    let raw = text::split_view(listing, '\0');
    lemma_removable(raw, raw.len() as int, p, windows);
    assert(raw.take(raw.len() as int) =~= raw);
}

proof fn lemma_removable(raw: Seq<Seq<char>>, n: int, p: Seq<char>, windows: bool)
    requires
        0 <= n <= raw.len(),
    ensures
        restore_paths::removable_from(raw, n, windows).contains(p) <==> raw.take(n).contains(p)
            && p.len() > 0 && inside(p, windows),
    decreases n,
{
    if n > 0 {
        lemma_removable(raw, n - 1, p, windows);
        let before = restore_paths::removable_from(raw, n - 1, windows);
        let now = restore_paths::removable_from(raw, n, windows);
        assert(raw.take(n) =~= raw.take(n - 1).push(raw[n - 1]));
        lemma_push_contains(raw.take(n - 1), raw[n - 1], p);
        lemma_push_contains(before, raw[n - 1], p);
    } else {
        assert(raw.take(0) =~= Seq::empty());
    }
}

/// The directories that may be left empty where files go are those above them: every proper beginning
/// of the names of a file, and nothing else; the file itself and the workspace are not among them.
pub proof fn directories_above_files_are_swept(
    files: Seq<Seq<char>>,
    d: Seq<char>,
    windows: bool,
)
    ensures
        restore_paths::swept(files, windows).contains(d) <==> exists|p: int, k: int|
            0 <= p < files.len() && 1 <= k < paths::parts_view(files[p], windows).len() && d
                == text::join_view(
                (#[trigger] paths::parts_view(files[p], windows).take(k)),
                "/"@,
            ),
{
    restore_paths::lemma_swept(files, windows);
    let n = files.len() as int;
    if restore_paths::above_some(files, n, d, windows) {
        let (p, k) = choose|p: int, k: int|
            0 <= p < n && 1 <= k < paths::parts_view(files[p], windows).len() && d
                == #[trigger] restore_paths::dir_above(files[p], k, windows);
        assert(d == text::join_view(paths::parts_view(files[p], windows).take(k), "/"@));
    }
    if exists|p: int, k: int|
        0 <= p < files.len() && 1 <= k < paths::parts_view(files[p], windows).len() && d
            == text::join_view((#[trigger] paths::parts_view(files[p], windows).take(k)), "/"@) {
        let (p, k) = choose|p: int, k: int|
            0 <= p < files.len() && 1 <= k < paths::parts_view(files[p], windows).len() && d
                == text::join_view((#[trigger] paths::parts_view(files[p], windows).take(k)), "/"@);
        assert(d == restore_paths::dir_above(files[p], k, windows));
    }
}

proof fn lemma_rooted(base: Seq<char>)
    requires
        base.len() > 0,
        base[0] == '/',
    ensures
        paths::place(base, false).parts == paths::parts_view(base, false),
        paths::place(base, false).rooted,
        paths::place(base, false).prefix is Plain,
{
    places_are_told_by_their_parts(base);
    let s = paths::slashed(base, false);
    let none = Seq::<char>::empty();
    assert(s =~= none + seq!['/'] + s.skip(1));
    texts::texts_are_split_at_a_character(none, '/', s.skip(1));
    assert(paths::pieces(base, false)[0] == none);
    reveal_strlit(".");
}

/// Where snapshots are kept below the workspace, the directory is kept out of them by its path from
/// the workspace; the workspace itself and a place beside it are told apart from that.
pub proof fn own_directories_are_excluded(workspace: Seq<char>, sub: Seq<char>, other: Seq<char>)
    requires
        workspace.len() > 0,
        workspace[0] == '/',
        paths::parts_view(sub, false).len() > 0,
        other.len() > 0,
        other[0] == '/',
    ensures
        restore_paths::exclude_view(workspace + seq!['/'] + sub, workspace, false)
            == restore_paths::ExcludeView::Pattern(
            "/"@ + text::join_view(paths::parts_view(sub, false), "/"@) + "/\n"@,
        ),
        restore_paths::exclude_view(workspace, workspace, false)
            == restore_paths::ExcludeView::Same,
        !paths::parts_view(workspace, false).is_prefix_of(paths::parts_view(other, false))
            ==> restore_paths::exclude_view(other, workspace, false)
            == restore_paths::ExcludeView::Outside,
{
    let root = workspace + seq!['/'] + sub;
    assert(root[0] == '/');
    lemma_rooted(root);
    lemma_rooted(workspace);
    lemma_rooted(other);
    paths_are_made_of_names(workspace, '/', sub, Seq::empty(), false);
    let w = paths::parts_view(workspace, false);
    let u = paths::parts_view(sub, false);
    let n = w.len() as int;
    assert((w + u).take(n) =~= w);
    assert((w + u).skip(n) =~= u);
    assert(w.take(n) =~= w);
    assert(w.skip(n) =~= Seq::empty());
    let o = paths::parts_view(other, false);
    if n <= o.len() && o.take(n) == w {
        assert(o.subrange(0, n) =~= o.take(n));
        assert(w.is_prefix_of(o));
    }
}

/// What is in a list with one more is that one or was in it.
pub proof fn lemma_push_contains<T>(s: Seq<T>, x: T, p: T)
    ensures
        s.push(x).contains(p) <==> s.contains(p) || x == p,
{
    if s.contains(p) {
        let i = choose|i: int| 0 <= i < s.len() && s[i] == p;
        assert(s.push(x)[i] == p);
    }
    assert(s.push(x)[s.len() as int] == x);
    if s.push(x).contains(p) {
        let i = choose|i: int| 0 <= i < s.push(x).len() && s.push(x)[i] == p;
        if i < s.len() {
            assert(s[i] == p);
        }
    }
}

} // verus!
