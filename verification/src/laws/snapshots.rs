//! How snapshots are taken, listed, named, pruned and restored: by which commands, and what is read
//! from their replies.

use vstd::prelude::*;

use crate::bytes;
use crate::json::JsonView;
use crate::laws::places;
use crate::laws::texts;
use crate::paths;
use crate::restore_paths;
use crate::snapshot;
use crate::snapshot::{InfoView, SnapshotConfig};
use crate::snapshot_manager;
use crate::snapshot_manager::{ActionView, ManagerView, RestoreView, TakeView, TermsView};
use crate::text;

verus! {

/// Snapshots are taken before the tools that write files, run commands or start agents, and before
/// no others.
pub proof fn mutating_tools_are_these(name: Seq<char>)
    ensures
        snapshot::mutating_tools().contains(name) <==> (name == "write_file"@ || name
            == "edit_file"@ || name == "apply_patch"@ || name == "diff_edit"@ || name == "shell"@
            || name == "exec_command"@ || name == "write_stdin"@ || name == "bash"@ || name
            == "spawn"@ || name == "spawn_agent"@ || name == "delegate"@ || name
            == "delegate_task"@),
{
    let m = snapshot::mutating_tools();
    assert(m[0] == "write_file"@ && m[1] == "edit_file"@ && m[2] == "apply_patch"@ && m[3]
        == "diff_edit"@ && m[4] == "shell"@ && m[5] == "exec_command"@ && m[6] == "write_stdin"@
        && m[7] == "bash"@ && m[8] == "spawn"@ && m[9] == "spawn_agent"@ && m[10] == "delegate"@
        && m[11] == "delegate_task"@ && m.len() == 12);
}

/// Snapshots are off unless they are turned on, and twenty are kept unless another number is given.
pub proof fn settings_have_their_defaults(on: bool, n: u64)
    requires
        n <= usize::MAX,
    ensures
        snapshot::config_of(JsonView::Object(Seq::empty())) == Some(
            SnapshotConfig { enabled: false, keep_last: 20 },
        ),
        snapshot::config_of(
            JsonView::Object(
                seq![
                    ("enabled"@, JsonView::Bool(on)),
                    ("keep_last"@, JsonView::Int(n as int)),
                ],
            ),
        ) == Some(SnapshotConfig { enabled: on, keep_last: n as usize }),
        snapshot::config_of(JsonView::Object(seq![("enabled"@, JsonView::Bool(on))])) == Some(
            SnapshotConfig { enabled: on, keep_last: 20 },
        ),
        snapshot::config_of(JsonView::Object(seq![("enabled"@, JsonView::Null)])) is None,
        snapshot::config_of(JsonView::Null) is None,
{
    reveal_strlit("enabled");
    reveal_strlit("keep_last");
    assert("enabled"@.len() != "keep_last"@.len());
    reveal_with_fuel(crate::json::member_from, 3);
}

/// An id is used only where it is a hash, whole or shortened: four to sixty-four hexadecimal digits.
pub proof fn used_ids_are_hashes(s: Seq<char>)
    ensures
        snapshot::hash_like(s) <==> 4 <= s.len() <= 64 && forall|i: int|
            0 <= i < s.len() ==> {
                let c = #[trigger] s[i];
                '0' <= c <= '9' || 'a' <= c <= 'f' || 'A' <= c <= 'F'
            },
{
    if snapshot::hash_like(s) {
        assert forall|i: int| 0 <= i < s.len() implies {
            let c = #[trigger] s[i];
            '0' <= c <= '9' || 'a' <= c <= 'f' || 'A' <= c <= 'F'
        } by {
            assert(snapshot::hex_digit(s[i]));
        }
    }
}

/// The value of a hexadecimal digit in lower case.
pub open spec fn hex_value(c: char) -> int {
    if '0' <= c <= '9' {
        c as int - '0' as int
    } else {
        c as int - 'a' as int + 10
    }
}

/// A byte is written as two hexadecimal digits in lower case, the higher one first, from which it is
/// read back.
pub proof fn bytes_are_two_digits(b: Seq<u8>, i: int)
    requires
        0 <= i < b.len(),
    ensures
        ({
            let t = snapshot::hex_text(b);
            let (x, y) = (t[2 * i], t[2 * i + 1]);
            &&& t.len() == 2 * b.len()
            &&& '0' <= x <= '9' || 'a' <= x <= 'f'
            &&& '0' <= y <= '9' || 'a' <= y <= 'f'
            &&& 16 * hex_value(x) + hex_value(y) == b[i]
        }),
{
    let t = snapshot::hex_text(b);
    assert((2 * i) / 2 == i && (2 * i) % 2 == 0);
    assert((2 * i + 1) / 2 == i && (2 * i + 1) % 2 == 1);
    let h = b[i] as int / 16;
    let l = b[i] as int % 16;
    assert(0 <= h < 16 && 0 <= l < 16 && 16 * h + l == b[i]);
    assert(t[2 * i] == snapshot::hex_char(h));
    assert(t[2 * i + 1] == snapshot::hex_char(l));
    lemma_hex(h);
    lemma_hex(l);
}

proof fn lemma_hex(n: int)
    requires
        0 <= n < 16,
    ensures
        hex_value(snapshot::hex_char(n)) == n,
        '0' <= snapshot::hex_char(n) <= '9' || 'a' <= snapshot::hex_char(n) <= 'f',
{
}

/// A label of printable characters without white space around it is kept as it is, where it takes at
/// most two hundred bytes; a blank one becomes `snapshot`.
pub proof fn labels_are_kept(label: Seq<char>)
    ensures
        label.len() > 0 && bytes::byte_len(label) <= 200 && !text::white(label[0]) && !text::white(
            label.last(),
        ) && (forall|i: int|
            0 <= i < label.len() ==> !snapshot::control(#[trigger] label[i]))
            ==> snapshot::label_view(label) == label,
        (forall|i: int|
            0 <= i < label.len() ==> #[trigger] label[i] == ' ' || snapshot::control(label[i]))
            ==> snapshot::label_view(label) == "snapshot"@,
{
    let p = snapshot::printable(label);
    let none = Seq::<char>::empty();
    if label.len() > 0 && bytes::byte_len(label) <= 200 && !text::white(label[0]) && !text::white(
        label.last(),
    ) && (forall|i: int| 0 <= i < label.len() ==> !snapshot::control(#[trigger] label[i])) {
        assert(p =~= label);
        texts::trimming_takes_white_space_alone(none, label, none);
        assert(none + label + none =~= label);
    }
    if forall|i: int|
        0 <= i < label.len() ==> #[trigger] label[i] == ' ' || snapshot::control(label[i]) {
        assert forall|i: int| 0 <= i < p.len() implies text::white(#[trigger] p[i]) by {
            assert(label[i] == ' ' || snapshot::control(label[i]));
        }
        texts::trimming_takes_white_space_alone(p, none, none);
        assert(p + none + none =~= p);
    }
}

/// A number with leading zeros has at least so many digits, and still its value.
pub proof fn padded_numbers_keep_their_value(n: nat, w: nat)
    ensures
        snapshot::padded(n, w).len() >= w,
        text::digits_value(snapshot::padded(n, w)) == Some(n),
        text::dec(n).len() <= w ==> snapshot::padded(n, w).len() == w,
{
    texts::decimals_have_their_value(n);
    let d = text::dec(n);
    if d.len() < w {
        lemma_zeros((w - d.len()) as nat, d);
    }
}

proof fn lemma_zeros(k: nat, d: Seq<char>)
    requires
        d.len() > 0,
        text::digits_value(d) is Some,
    ensures
        text::digits_value(Seq::new(k, |i: int| '0') + d) == text::digits_value(d),
    decreases d.len(),
{
    let z = Seq::new(k, |i: int| '0');
    let s = z + d;
    assert(s.drop_last() =~= z + d.drop_last());
    assert(s.last() == d.last());
    if d.len() > 1 {
        lemma_zeros(k, d.drop_last());
    } else {
        assert(d.drop_last() =~= Seq::empty());
        assert(s.drop_last() =~= z);
        lemma_only_zeros(k);
    }
}

proof fn lemma_only_zeros(k: nat)
    ensures
        text::digits_value(Seq::new(k, |i: int| '0')) == text::digits_value(Seq::empty()),
    decreases k,
{
    let z = Seq::new(k, |i: int| '0');
    if k > 0 {
        lemma_only_zeros((k - 1) as nat);
        assert(z.drop_last() =~= Seq::new((k - 1) as nat, |i: int| '0'));
        lemma_no_digits();
    } else {
        assert(z =~= Seq::empty());
    }
}

proof fn lemma_no_digits()
    ensures
        text::digits_value(Seq::empty()) == Some(0nat),
{
}

/// A snapshot is kept under a name below the snapshots, which holds its time, its number and the
/// first eight characters of its hash.
pub proof fn names_hold_time_number_and_hash(millis: nat, seq: nat, commit: Seq<char>)
    requires
        commit.len() >= 8,
    ensures
        snapshot::ref_view(millis, seq, commit) == "refs/octos/snapshots/"@ + snapshot::padded(
            millis,
            16,
        ) + "-"@ + snapshot::padded(seq, 6) + "-"@ + commit.take(8),
{
    reveal_strlit("refs/octos/snapshots/");
    reveal_strlit("refs/octos/snapshots");
    reveal_strlit("/");
    assert("refs/octos/snapshots"@ + "/"@ =~= "refs/octos/snapshots/"@);
    if commit.len() == 8 {
        assert(commit.take(8) =~= commit);
    }
    assert(snapshot::ref_view(millis, seq, commit) =~= "refs/octos/snapshots/"@ + snapshot::padded(
        millis,
        16,
    ) + "-"@ + snapshot::padded(seq, 6) + "-"@ + commit.take(8));
}

/// A line of an id, a time and a label, with NULs between them, is listed as such; a line that lacks
/// one of them, or has an empty id, is passed over.
pub proof fn listed_snapshots_are_read(id: Seq<char>, time: u32, label: Seq<char>, line: Seq<char>)
    requires
        !id.contains('\0'),
        !line.contains('\0'),
    ensures
        id.len() > 0 ==> snapshot::listed_snapshot(
            id + seq!['\0'] + text::dec(time as nat) + seq!['\0'] + label,
        ) == Some(InfoView { id, label, timestamp_unix: time as i64 }),
        id.len() == 0 ==> snapshot::listed_snapshot(
            id + seq!['\0'] + text::dec(time as nat) + seq!['\0'] + label,
        ) is None,
        snapshot::listed_snapshot(line) is None,
        snapshot::listed_snapshot(id + seq!['\0'] + line) is None,
{
    let t = text::dec(time as nat);
    texts::decimals_have_their_value(time as nat);
    texts::decimals_are_read_back(time as nat, i64::MAX as nat);
    let all = id + seq!['\0'] + t + seq!['\0'] + label;
    let rest = t + seq!['\0'] + label;
    assert(all =~= id + seq!['\0'] + rest);
    texts::texts_are_split_at_a_character(id, '\0', rest);
    assert(!t.contains('\0')) by {
        if t.contains('\0') {
            let i = choose|i: int| 0 <= i < t.len() && t[i] == '\0';
            assert(texts::is_digit(t[i]));
        }
    }
    texts::texts_are_split_at_a_character(t, '\0', label);
    assert(all.take(id.len() as int) =~= id);
    assert(all.skip(id.len() + 1 as int) =~= rest);
    assert(rest.take(t.len() as int) =~= t);
    assert(rest.skip(t.len() + 1 as int) =~= label);
    assert(texts::is_digit(t[0]) && texts::is_digit(t[t.len() - 1]));
    let none = Seq::<char>::empty();
    texts::trimming_takes_white_space_alone(none, t, none);
    assert(none + t + none =~= t);
    texts::texts_are_split_at_a_character(line, '\0', none);
    texts::texts_are_split_at_a_character(id, '\0', line);
    let half = id + seq!['\0'] + line;
    assert(half.skip(id.len() + 1 as int) =~= line);
}

/// A time before the epoch is read with its sign; what is no number is taken for zero.
pub proof fn times_are_read_with_their_sign(n: nat, s: Seq<char>, i: int)
    ensures
        n <= 0x8000_0000_0000_0000 ==> snapshot::timestamp("-"@ + text::dec(n)) == -(n as int),
        n <= i64::MAX ==> snapshot::timestamp(text::dec(n)) == n,
        0 < i < s.len() && !texts::is_digit(s[i]) ==> snapshot::timestamp(s) == 0,
{
    reveal_strlit("-");
    let d = text::dec(n);
    texts::decimals_have_their_value(n);
    texts::decimals_are_read_back(n, 0x8000_0000_0000_0000);
    texts::decimals_are_read_back(n, i64::MAX as nat);
    assert(("-"@ + d).drop_first() =~= d);
    assert(texts::is_digit(d[0]));
    if 0 < i < s.len() && !texts::is_digit(s[i]) {
        texts::other_texts_are_no_numbers(s, i64::MAX as nat, i);
        let rest = s.drop_first();
        assert(rest[i - 1] == s[i]);
        if i > 1 || rest[0] != '+' {
            texts::other_texts_are_no_numbers(rest, 0x8000_0000_0000_0000, i - 1);
        }
    }
}

/// The refs of a listing are those of its lines that hold a name and a commit with a NUL between
/// them, in order.
pub proof fn listed_refs_are_read(name: Seq<char>, commit: Seq<char>, rest: Seq<char>)
    requires
        !name.contains('\0') && !name.contains('\n'),
        !commit.contains('\n'),
        commit.len() > 0,
        commit.last() != '\r',
    ensures
        snapshot::refs_view(name + seq!['\0'] + commit + seq!['\n'] + rest) == seq![(name, commit)]
            + snapshot::refs_view(rest),
{
    let line = name + seq!['\0'] + commit;
    assert(!line.contains('\n')) by {
        if line.contains('\n') {
            let i = choose|i: int| 0 <= i < line.len() && line[i] == '\n';
            if i < name.len() {
                assert(name[i] == '\n');
            } else if i > name.len() {
                assert(commit[i - name.len() - 1] == '\n');
            }
        }
    }
    assert(line.last() == commit.last());
    texts::lines_end_at_line_feeds(line, rest);
    texts::texts_are_split_at_a_character(name, '\0', commit);
    assert(line.take(name.len() as int) =~= name);
    assert(line.skip(name.len() + 1 as int) =~= commit);
    let ls = text::lines_view(rest);
    let all = seq![line] + ls;
    assert(text::lines_view(name + seq!['\0'] + commit + seq!['\n'] + rest) == all);
    lemma_refs_shift(line, ls, ls.len() as int);
}

proof fn lemma_refs_shift(line: Seq<char>, ls: Seq<Seq<char>>, n: int)
    requires
        0 <= n <= ls.len(),
        snapshot::two_parts(line) is Some,
    ensures
        snapshot::refs_from(seq![line] + ls, n + 1) == seq![snapshot::two_parts(line)->0]
            + snapshot::refs_from(ls, n),
    decreases n,
{
    let all = seq![line] + ls;
    let p = snapshot::two_parts(line)->0;
    if n == 0 {
        assert(all[0] == line);
        reveal_with_fuel(snapshot::refs_from, 2);
        assert(Seq::<(Seq<char>, Seq<char>)>::empty().push(p) =~= seq![p]
            + snapshot::refs_from(ls, 0));
    } else {
        lemma_refs_shift(line, ls, n - 1);
        assert(all[n] == ls[n - 1]);
        assert(snapshot::refs_from(all, n + 1) =~= seq![p] + snapshot::refs_from(ls, n));
    }
}

/// The pins of a listing are its filled lines.
pub proof fn listed_pins_are_read(listing: Seq<char>, c: Seq<char>)
    ensures
        snapshot::pins_view(listing).contains(c) <==> text::lines_view(listing).contains(c)
            && c.len() > 0,
{
    let ls = text::lines_view(listing);
    lemma_filled(ls, ls.len() as int, c);
    assert(ls.take(ls.len() as int) =~= ls);
}

proof fn lemma_filled(ls: Seq<Seq<char>>, n: int, c: Seq<char>)
    requires
        0 <= n <= ls.len(),
    ensures
        snapshot::filled_lines(ls, n).contains(c) <==> ls.take(n).contains(c) && c.len() > 0,
    decreases n,
{
    if n > 0 {
        lemma_filled(ls, n - 1, c);
        assert(ls.take(n) =~= ls.take(n - 1).push(ls[n - 1]));
        places::lemma_push_contains(ls.take(n - 1), ls[n - 1], c);
        places::lemma_push_contains(snapshot::filled_lines(ls, n - 1), ls[n - 1], c);
    } else {
        assert(ls.take(0) =~= Seq::empty());
    }
}

/// The repository of a workspace's snapshots lies below those of all, under a name of its own that
/// comes of the workspace's path; at least one snapshot is kept, and objects go an hour after nothing
/// refers to them.
pub proof fn managers_keep_their_own_repository(
    git: Seq<char>,
    root: Seq<char>,
    workspace: Seq<char>,
    keep: int,
    windows: bool,
)
    ensures
        ({
            let m = snapshot_manager::managed(git, root, workspace, keep, windows);
            let name = snapshot::hex_text(
                snapshot::sha256(vstd::utf8::encode_utf8(workspace)).take(8),
            );
            &&& m.git_dir == paths::joined(root, name, windows)
            &&& m.workspace == workspace
            &&& m.git == git
            &&& m.keep_last >= 1
            &&& keep >= 1 ==> m.keep_last == keep
            &&& m.prune_expire == "1.hour.ago"@
            &&& m.seq == 0
            &&& !m.scanned
        }),
{
}

/// Every command names its own repository and work tree, and turns off hooks, signing, the user's
/// excludes and whatever else would change what is recorded.
pub proof fn commands_are_set_apart(m: ManagerView)
    ensures
        snapshot_manager::base_args(m) == seq![
            "--git-dir"@,
            m.git_dir,
            "--work-tree"@,
            m.workspace,
            "-c"@,
            "user.name=octos-snapshot"@,
            "-c"@,
            "user.email=snapshot@octos.invalid"@,
            "-c"@,
            "commit.gpgsign=false"@,
            "-c"@,
            "core.autocrlf=false"@,
            "-c"@,
            "gc.auto=0"@,
            "-c"@,
            "core.hooksPath="@ + paths::joined(m.git_dir, "_no_hooks"@, m.windows),
            "-c"@,
            "core.excludesFile="@ + (if m.windows {
                "NUL"@
            } else {
                "/dev/null"@
            }),
        ],
        snapshot_manager::scrubbed_view() == seq![
            "GIT_DIR"@,
            "GIT_WORK_TREE"@,
            "GIT_INDEX_FILE"@,
            "GIT_OBJECT_DIRECTORY"@,
            "GIT_ALTERNATE_OBJECT_DIRECTORIES"@,
            "GIT_COMMON_DIR"@,
            "GIT_NAMESPACE"@,
            "GIT_CEILING_DIRECTORIES"@,
            "GIT_TEMPLATE_DIR"@,
            "GIT_INDEX_VERSION"@,
        ],
{
}

/// A snapshot is taken by staging everything, writing it as a tree, and committing that tree under
/// the label, unless the newest snapshot holds the same tree: then it is that one.
pub proof fn snapshots_commit_the_whole_workspace(
    t: TermsView,
    a: Seq<char>,
    b: Seq<char>,
    tree: Seq<char>,
    listing: Result<Seq<char>, Seq<char>>,
    newest: Seq<char>,
    theirs: Seq<char>,
    commit: Seq<char>,
    now: nat,
)
    ensures
        ({
            let s1 = snapshot_manager::take_next(t, TakeView::Preparing, Ok(a), now);
            let s2 = snapshot_manager::take_next(t, s1, Ok(b), now);
            let s3 = snapshot_manager::take_next(t, s2, Ok(tree), now);
            let s4 = if t.scan {
                snapshot_manager::take_next(t, s3, listing, now)
            } else {
                s3
            };
            let s5 = snapshot_manager::take_next(t, s4, Ok(newest), now);
            let s6 = if text::trim_view(newest).len() > 0 {
                snapshot_manager::take_next(t, s5, Ok(theirs), now)
            } else {
                s5
            };
            let s7 = snapshot_manager::take_next(t, s6, Ok(commit), now);
            let id = text::trim_view(commit);
            let same = text::trim_view(newest).len() > 0 && text::trim_view(theirs)
                == text::trim_view(tree);
            &&& snapshot_manager::take_action(t, TakeView::Preparing) == ActionView::Prepare
            &&& snapshot_manager::take_action(t, s1) == ActionView::Git(seq!["add"@, "-A"@])
            &&& snapshot_manager::take_action(t, s2) == ActionView::Git(seq!["write-tree"@])
            &&& t.scan ==> snapshot_manager::take_action(t, s3) == ActionView::Git(
                seq!["ls-tree"@, "-r"@, text::trim_view(tree)],
            )
            &&& snapshot_manager::take_action(t, s4) == ActionView::Git(
                seq![
                    "for-each-ref"@,
                    "--count=1"@,
                    "--sort=-refname"@,
                    "--format=%(objectname)"@,
                    "refs/octos/snapshots"@,
                ],
            )
            &&& text::trim_view(newest).len() > 0 ==> snapshot_manager::take_action(t, s5)
                == ActionView::Git(seq!["rev-parse"@, text::trim_view(newest) + "^{tree}"@])
            &&& same ==> s6 == TakeView::Done(Ok(text::trim_view(newest)))
            &&& !same ==> snapshot_manager::take_action(t, s6) == ActionView::Git(
                seq!["commit-tree"@, "-m"@, t.label, text::trim_view(tree)],
            )
            &&& !same ==> snapshot_manager::take_action(t, s7) == ActionView::Git(
                seq!["update-ref"@, snapshot::ref_view(now, t.seq, id), id],
            )
        }),
{
}

/// A snapshot that is recorded is the result, whatever comes of pruning: where more are listed than
/// are kept, the refs behind the newest ones are deleted one by one, but for pinned ones, and what
/// nothing refers to is pruned.
pub proof fn recorded_snapshots_are_pruned(
    t: TermsView,
    commit: Seq<char>,
    name: Seq<char>,
    a: Seq<char>,
    listing: Seq<char>,
    pins: Seq<char>,
    e: Seq<char>,
    now: nat,
)
    ensures
        ({
            let s1 = snapshot_manager::take_next(
                t,
                TakeView::Recording { commit, name },
                Ok(a),
                now,
            );
            let s2 = snapshot_manager::take_next(t, s1, Ok(listing), now);
            let s3 = snapshot_manager::take_next(t, s2, Ok(pins), now);
            let refs = snapshot::refs_view(listing);
            let gone = snapshot::stale_from(
                refs,
                t.keep_last,
                snapshot::pins_view(pins),
                refs.len() as int,
            );
            &&& snapshot_manager::take_action(t, s1) == ActionView::Git(
                seq![
                    "for-each-ref"@,
                    "--sort=-refname"@,
                    "--format=%(refname)%00%(objectname)"@,
                    "refs/octos/snapshots"@,
                ],
            )
            &&& snapshot_manager::take_next(t, s1, Err(e), now) == TakeView::Done(Ok(commit))
            &&& refs.len() <= t.keep_last ==> s2 == TakeView::Done(Ok(commit))
            &&& refs.len() > t.keep_last ==> {
                &&& snapshot_manager::take_action(t, s2) == ActionView::Git(
                    seq!["for-each-ref"@, "--format=%(objectname)"@, "refs/octos/restore-pin"@],
                )
                &&& snapshot_manager::take_next(t, s2, Err(e), now) == TakeView::Done(Ok(commit))
                &&& gone.len() > 0 ==> s3 == (TakeView::Deleting { commit, stale: gone })
                &&& gone.len() == 0 ==> snapshot_manager::take_action(t, s3) == ActionView::Git(
                    seq!["prune"@, "--expire="@ + t.expire],
                )
            }
            &&& snapshot_manager::take_next(
                t,
                TakeView::Recording { commit, name },
                Err(e),
                now,
            ) == TakeView::Done(Err(e))
        }),
{
}

/// Stale refs are deleted in order, each by its name; then what nothing refers to is pruned. The
/// snapshot is the result, also where a deletion fails, which ends the pruning.
pub proof fn stale_refs_are_deleted_one_by_one(
    t: TermsView,
    commit: Seq<char>,
    stale: Seq<Seq<char>>,
    out: Seq<char>,
    e: Seq<char>,
    now: nat,
)
    requires
        stale.len() > 0,
    ensures
        ({
            let s = TakeView::Deleting { commit, stale };
            let next = snapshot_manager::take_next(t, s, Ok(out), now);
            &&& snapshot_manager::take_action(t, s) == ActionView::Git(
                seq!["update-ref"@, "-d"@, stale[0]],
            )
            &&& stale.len() > 1 ==> next == (TakeView::Deleting {
                commit,
                stale: stale.subrange(1, stale.len() as int),
            })
            &&& stale.len() == 1 ==> snapshot_manager::take_action(t, next) == ActionView::Git(
                seq!["prune"@, "--expire="@ + t.expire],
            )
            &&& stale.len() == 1 ==> snapshot_manager::take_next(t, next, Err(e), now)
                == TakeView::Done(Ok(commit))
            &&& snapshot_manager::take_next(t, s, Err(e), now) == TakeView::Done(Ok(commit))
        }),
{
    assert(stale.drop_first() =~= stale.subrange(1, stale.len() as int));
}

/// Nothing is recorded where the workspace cannot be staged, written or committed: the failure is
/// the result.
pub proof fn failures_before_the_commit_are_the_result(
    t: TermsView,
    tree: Seq<char>,
    e: Seq<char>,
    now: nat,
)
    ensures
        snapshot_manager::take_next(t, TakeView::Preparing, Err(e), now) == TakeView::Done(Err(e)),
        snapshot_manager::take_next(t, TakeView::Staging, Err(e), now) == TakeView::Done(
            Err("failed to stage workspace state for snapshot: "@ + e),
        ),
        snapshot_manager::take_next(t, TakeView::Writing, Err(e), now) == TakeView::Done(Err(e)),
        snapshot_manager::take_next(t, TakeView::Looking { tree }, Err(e), now) == TakeView::Done(
            Err(e),
        ),
        snapshot_manager::take_next(t, TakeView::Committing { tree }, Err(e), now)
            == TakeView::Done(Err(e)),
{
}

/// A restore resolves its target to a commit, pins that commit, and records the present state; it
/// then lists what was added since, checks out the target unless that is empty, removes the added
/// files and the directories that they leave empty, and lets the pin go.
pub proof fn restores_go_through_these_steps(
    raw: Seq<char>,
    t: TermsView,
    full: Seq<char>,
    a: Seq<char>,
    id: Seq<char>,
    take: TakeView,
    last: Result<Seq<char>, Seq<char>>,
    created: Seq<char>,
    held: Seq<char>,
    r: Result<Seq<char>, Seq<char>>,
    now: nat,
    windows: bool,
)
    requires
        snapshot_manager::take_next(t, take, last, now) == TakeView::Done(Ok(id)),
    ensures
        ({
            let target = text::trim_view(full);
            let pin = "refs/octos/restore-pin"@ + "/"@ + target;
            let files = restore_paths::removable_view(created, windows);
            let s1 = snapshot_manager::restore_next(
                raw,
                t,
                RestoreView::Resolving,
                Ok(full),
                now,
                windows,
            );
            let s2 = snapshot_manager::restore_next(raw, t, s1, Ok(a), now, windows);
            let recorded = RestoreView::Recording { full: target, terms: t, take };
            let s3 = snapshot_manager::restore_next(raw, t, recorded, last, now, windows);
            let s4 = snapshot_manager::restore_next(raw, t, s3, Ok(created), now, windows);
            let s5 = snapshot_manager::restore_next(raw, t, s4, Ok(held), now, windows);
            let s6 = if text::trim_view(held).len() > 0 {
                snapshot_manager::restore_next(raw, t, s5, Ok(a), now, windows)
            } else {
                s5
            };
            let s7 = snapshot_manager::restore_next(raw, t, s6, r, now, windows);
            let s8 = snapshot_manager::restore_next(raw, t, s7, r, now, windows);
            let s9 = snapshot_manager::restore_next(raw, t, s8, r, now, windows);
            &&& snapshot_manager::restore_action(raw, RestoreView::Resolving, windows)
                == ActionView::Git(
                seq!["rev-parse"@, "--verify"@, "--quiet"@, raw + "^{commit}"@],
            )
            &&& snapshot_manager::restore_action(raw, s1, windows) == ActionView::Git(
                seq!["update-ref"@, pin, target],
            )
            &&& s2 == (RestoreView::Recording { full: target, terms: t, take: TakeView::Preparing })
            &&& snapshot_manager::restore_action(raw, s3, windows) == ActionView::Git(
                seq!["diff"@, "--cached"@, "--name-only"@, "--diff-filter=A"@, "-z"@, target],
            )
            &&& snapshot_manager::restore_action(raw, s4, windows) == ActionView::Git(
                seq!["ls-tree"@, "--name-only"@, target],
            )
            &&& text::trim_view(held).len() > 0 ==> snapshot_manager::restore_action(
                raw,
                s5,
                windows,
            ) == ActionView::Git(seq!["checkout"@, "-f"@, target, "--"@, "."@])
            &&& snapshot_manager::restore_action(raw, s6, windows) == ActionView::RemoveFiles(files)
            &&& snapshot_manager::restore_action(raw, s7, windows) == ActionView::RemoveDirs(
                restore_paths::swept(files, windows),
            )
            &&& snapshot_manager::restore_action(raw, s8, windows) == ActionView::Git(
                seq!["update-ref"@, "-d"@, pin],
            )
            &&& s9 == RestoreView::Done(Ok(()))
        }),
{
}

/// A target that is not found fails a restore before anything is done; a failure behind the pin lets
/// the pin go first and is then the result.
pub proof fn failed_restores_let_the_pin_go(
    raw: Seq<char>,
    t: TermsView,
    full: Seq<char>,
    created: Seq<char>,
    e: Seq<char>,
    r: Result<Seq<char>, Seq<char>>,
    now: nat,
    windows: bool,
)
    ensures
        snapshot_manager::restore_next(raw, t, RestoreView::Resolving, Err(e), now, windows)
            == RestoreView::Done(Err("snapshot "@ + raw + " not found"@)),
        snapshot_manager::restore_next(
            raw,
            t,
            RestoreView::Pinning { full },
            Err(e),
            now,
            windows,
        ) matches RestoreView::Done(Err(_)),
        snapshot_manager::restore_next(
            raw,
            t,
            RestoreView::Diffing { full },
            Err(e),
            now,
            windows,
        ) == (RestoreView::Unpinning { full, result: Err(e) }),
        snapshot_manager::restore_next(
            raw,
            t,
            RestoreView::Probing { full, created },
            Err(e),
            now,
            windows,
        ) == (RestoreView::Unpinning { full, result: Err(e) }),
        snapshot_manager::restore_next(
            raw,
            t,
            RestoreView::CheckingOut { full, created },
            Err(e),
            now,
            windows,
        ) == (RestoreView::Unpinning {
            full,
            result: Err("failed to check out snapshot content: "@ + e),
        }),
        snapshot_manager::restore_next(
            raw,
            t,
            RestoreView::Unpinning { full, result: Err(e) },
            r,
            now,
            windows,
        ) == RestoreView::Done(Err(e)),
{
}

/// A snapshot goes by the label as it is kept, by the settings of its manager and by the next number;
/// repositories inside the workspace are looked for once, and a number is used up by a snapshot that
/// is recorded.
pub proof fn managers_number_their_snapshots(
    m: ManagerView,
    label: Seq<char>,
    tree: Seq<char>,
    commit: Seq<char>,
    name: Seq<char>,
)
    ensures
        ({
            let t = snapshot_manager::next_terms(m, label);
            let scanned = snapshot_manager::followed(m, t, TakeView::Scanning { tree });
            let recorded = snapshot_manager::followed(m, t, TakeView::Recording { commit, name });
            &&& t.label == snapshot::label_view(label)
            &&& t.keep_last == m.keep_last
            &&& t.expire == m.prune_expire
            &&& t.seq == m.seq
            &&& t.scan == !m.scanned
            &&& !snapshot_manager::next_terms(scanned, label).scan
            &&& scanned.seq == m.seq
            &&& m.seq < u64::MAX ==> recorded.seq == m.seq + 1
            &&& recorded.keep_last == m.keep_last && recorded.git_dir == m.git_dir
                && recorded.workspace == m.workspace
            &&& snapshot_manager::followed(m, t, TakeView::Staging) == m
        }),
{
}

/// The repositories inside a workspace are the entries of a tree listing whose mode is that of a
/// link to a commit; each is named by what stands behind the tab.
pub proof fn nested_repositories_are_named(kind: Seq<char>, path: Seq<char>, line: Seq<char>)
    requires
        !kind.contains('\t'),
        !path.contains('\t'),
    ensures
        snapshot_manager::nested_path("160000 "@ + kind + seq!['\t'] + path) == Some(path),
        !text::starts(line, "160000 "@) ==> snapshot_manager::nested_path(line) is None,
{
    reveal_strlit("160000 ");
    let front = "160000 "@ + kind;
    let s = front + seq!['\t'] + path;
    assert(s.subrange(0, 7) =~= "160000 "@);
    assert(!front.contains('\t')) by {
        if front.contains('\t') {
            let i = choose|i: int| 0 <= i < front.len() && front[i] == '\t';
            if i >= 7 {
                assert(kind[i - 7] == '\t');
            }
        }
    }
    texts::texts_are_split_at_a_character(front, '\t', path);
    texts::texts_are_split_at_a_character(path, '\t', Seq::empty());
}

/// Listed paths that each end with a NUL are read back.
pub proof fn ended_paths_are_read(path: Seq<char>, rest: Seq<char>)
    requires
        !path.contains('\0'),
    ensures
        snapshot_manager::ended_parts(path + seq!['\0'] + rest) == seq![path]
            + snapshot_manager::ended_parts(rest),
        snapshot_manager::ended_parts(Seq::empty()).len() == 0,
{
    texts::texts_are_split_at_a_character(path, '\0', rest);
    let none = Seq::<char>::empty();
    texts::texts_are_split_at_a_character(none, '\0', none);
    let q = text::split_view(rest, '\0');
    lemma_some_part(rest);
    let all = seq![path] + q;
    assert(all.last() == q.last());
    if q.last().len() == 0 {
        assert(all.drop_last() =~= seq![path] + q.drop_last());
    }
}

proof fn lemma_some_part(s: Seq<char>)
    ensures
        text::split_view(s, '\0').len() > 0,
{
}

} // verus!
