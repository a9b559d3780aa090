//! What a patch does to files: which changes are planned, in which steps they are carried out, and
//! what is reported of them.

use vstd::prelude::*;

use crate::apply_patch;
use crate::apply_patch::{
    ActionView, ApplyFailureView, AppliedView, ChangeView, Changes, DiskEntry, Event, FileRead,
    GuardFailure, OpKind, PartialNote, PartialView, PathFacts, PatchRequestView, PlannedView,
    RunView, SectionFacts,
};
use crate::bytes;
use crate::diff;
use crate::diff::HunkView;
use crate::diff_edit;
use crate::diff_edit::ExpectedVersionPolicy;
use crate::json;
use crate::json::JsonView;
use crate::laws::checks;
use crate::laws::places;
use crate::patch;
use crate::patch::{OpView, UpdateHunkView};
use crate::paths;
use crate::text;
use crate::tool::{FileAccessMode, Refusal};

verus! {

/// Whether a path names a file of the workspace: it neither starts at a root nor climbs.
pub open spec fn plain_path(path: Seq<char>, windows: bool) -> bool {
    !paths::anchored(path, windows) && !paths::climbs(path, windows)
}

/// Whether a file holding `content` at version `version` was found at `at`, or nothing was.
pub open spec fn seen_file(facts: PathFacts, at: Seq<char>, content: Seq<char>, version: Seq<char>) -> bool {
    &&& facts.found matches Ok(p) && p@ == at
    &&& facts.entry == Ok::<DiskEntry, String>(DiskEntry::File)
    &&& facts.read matches FileRead::Text { content: c, version: v } && c@ == content && v@ == version
}

/// Whether nothing was found at `at`.
pub open spec fn seen_nothing(facts: PathFacts, at: Seq<char>) -> bool {
    &&& facts.found matches Ok(p) && p@ == at
    &&& facts.entry == Ok::<DiskEntry, String>(DiskEntry::Absent)
}

/// A new file is planned to be written with its content where nothing stands, and is refused where
/// anything does.
pub proof fn additions_are_planned(
    path: Seq<char>,
    content: Seq<char>,
    facts: SectionFacts,
    overlay: Changes,
    at: Seq<char>,
    windows: bool,
)
    requires
        plain_path(path, windows),
        facts.source.found matches Ok(p) && p@ == at,
        !overlay.dom().contains(paths::place(at, windows)),
    ensures
        ({
            let r = apply_patch::planned_change(
                OpView::Add { path, content },
                facts,
                overlay,
                windows,
            );
            &&& seen_nothing(facts.source, at) ==> (r matches Ok((change, after)) && change == (
            ChangeView::Write {
                path: at,
                display: path,
                content,
                expected_content: None,
                expected_version: None,
                op: OpKind::Add,
            }) && after == overlay.insert(paths::place(at, windows), Some(content)))
            &&& facts.source.entry is Ok && facts.source.entry != Ok::<DiskEntry, String>(
                DiskEntry::Absent,
            ) ==> r is Err
        }),
{
}

/// A file is planned to be removed at the version that was seen; what is absent, a link, a directory
/// or no text is refused.
pub proof fn deletions_are_planned(
    path: Seq<char>,
    facts: SectionFacts,
    overlay: Changes,
    at: Seq<char>,
    content: Seq<char>,
    version: Seq<char>,
    windows: bool,
)
    requires
        plain_path(path, windows),
        facts.source.found matches Ok(p) && p@ == at,
        !overlay.dom().contains(paths::place(at, windows)),
    ensures
        ({
            let r = apply_patch::planned_change(OpView::Delete { path }, facts, overlay, windows);
            &&& seen_file(facts.source, at, content, version) ==> (r matches Ok((change, after))
                && change == (ChangeView::Remove {
                path: at,
                display: path,
                expected_content: content,
                expected_version: Some(version),
            }) && after == overlay.insert(paths::place(at, windows), None))
            &&& facts.source.entry != Ok::<DiskEntry, String>(DiskEntry::File) ==> r is Err
            &&& facts.source.entry == Ok::<DiskEntry, String>(DiskEntry::Symlink) ==> r == Err::<
                (ChangeView, Changes),
                Seq<char>,
            >("Symlinks are not allowed"@)
            &&& !(facts.source.read is Text) ==> r is Err
        }),
{
}

/// A file is planned to be rewritten with what its hunks make of it, and only where it still is what
/// was seen; where the hunks do not fit it is refused with their message.
pub proof fn updates_are_planned(
    path: Seq<char>,
    hunks: Seq<UpdateHunkView>,
    facts: SectionFacts,
    overlay: Changes,
    at: Seq<char>,
    content: Seq<char>,
    version: Seq<char>,
    windows: bool,
)
    requires
        plain_path(path, windows),
        seen_file(facts.source, at, content, version),
        !overlay.dom().contains(paths::place(at, windows)),
    ensures
        ({
            let r = apply_patch::planned_change(
                OpView::Update { path, move_to: None, hunks },
                facts,
                overlay,
                windows,
            );
            &&& patch::updated(content, hunks) matches Ok(fresh) ==> (r matches Ok((change, after))
                && change == (ChangeView::Write {
                path: at,
                display: path,
                content: fresh,
                expected_content: Some(content),
                expected_version: Some(version),
                op: OpKind::Update,
            }) && after == overlay.insert(paths::place(at, windows), Some(fresh)))
            &&& patch::updated(content, hunks) matches Err(e) ==> r == Err::<
                (ChangeView, Changes),
                Seq<char>,
            >(e)
        }),
{
}

/// A move writes what the hunks make of a file to its new place, which must be free, and gives up the
/// old one; a move of a file onto itself is an update.
pub proof fn moves_are_planned(
    path: Seq<char>,
    dest: Seq<char>,
    hunks: Seq<UpdateHunkView>,
    facts: SectionFacts,
    overlay: Changes,
    at: Seq<char>,
    to: Seq<char>,
    content: Seq<char>,
    version: Seq<char>,
    windows: bool,
)
    requires
        plain_path(path, windows),
        plain_path(dest, windows),
        seen_file(facts.source, at, content, version),
        facts.dest.found matches Ok(p) && p@ == to,
        !overlay.dom().contains(paths::place(at, windows)),
        !overlay.dom().contains(paths::place(to, windows)),
        patch::updated(content, hunks) is Ok,
    ensures
        ({
            let fresh = patch::updated(content, hunks)->Ok_0;
            let r = apply_patch::planned_change(
                OpView::Update { path, move_to: Some(dest), hunks },
                facts,
                overlay,
                windows,
            );
            let same = paths::place(at, windows) == paths::place(to, windows);
            &&& !same && seen_nothing(facts.dest, to) ==> (r matches Ok((change, after)) && change
                == (ChangeView::Move {
                from: at,
                from_display: path,
                to,
                to_display: dest,
                content: fresh,
                expected_content: content,
                expected_version: Some(version),
            }) && after.dom().contains(paths::place(at, windows)) && after[paths::place(
                at,
                windows,
            )] is None && after.dom().contains(paths::place(to, windows)) && after[paths::place(
                to,
                windows,
            )] == Some(fresh))
            &&& !same && facts.dest.entry is Ok && facts.dest.entry != Ok::<DiskEntry, String>(
                DiskEntry::Absent,
            ) ==> r == Err::<(ChangeView, Changes), Seq<char>>(
                "move destination already exists: "@ + dest,
            )
            &&& same ==> (r matches Ok((change, _)) && change == (ChangeView::Write {
                path: at,
                display: path,
                content: fresh,
                expected_content: Some(content),
                expected_version: Some(version),
                op: OpKind::Update,
            }))
        }),
{
}

/// A path that starts at a root or climbs is refused, whatever stands there; so is one that the
/// workspace does not resolve.
pub proof fn strange_paths_are_refused(
    path: Seq<char>,
    content: Seq<char>,
    move_to: Option<Seq<char>>,
    hunks: Seq<UpdateHunkView>,
    facts: SectionFacts,
    overlay: Changes,
    windows: bool,
)
    requires
        !plain_path(path, windows) || facts.source.found is Err,
    ensures
        apply_patch::planned_change(OpView::Add { path, content }, facts, overlay, windows) is Err,
        apply_patch::planned_change(OpView::Delete { path }, facts, overlay, windows) is Err,
        apply_patch::planned_change(
            OpView::Update { path, move_to, hunks },
            facts,
            overlay,
            windows,
        ) is Err,
{
}

/// What a section changed is what the sections behind it see, and nothing else is: of another place
/// they see what is on disk.
pub proof fn sections_change_their_own_place_alone(
    op: OpView,
    facts: SectionFacts,
    overlay: Changes,
    windows: bool,
    other: paths::PlaceView,
    there: PathFacts,
)
    requires
        apply_patch::planned_change(op, facts, overlay, windows) is Ok,
        facts.source.found matches Ok(p) ==> other != paths::place(p@, windows),
        facts.dest.found matches Ok(p) ==> other != paths::place(p@, windows),
    ensures
        ({
            let after = (apply_patch::planned_change(op, facts, overlay, windows)->Ok_0).1;
            &&& apply_patch::current(after, other, there) == apply_patch::current(
                overlay,
                other,
                there,
            )
            &&& apply_patch::occupied(after, other, there) == apply_patch::occupied(
                overlay,
                other,
                there,
            )
        }),
{
}

/// Whether every section of a patch can be carried out, each as those before it leave the files.
pub open spec fn feasible(
    ops: Seq<OpView>,
    facts: Seq<SectionFacts>,
    states: Seq<Changes>,
    windows: bool,
) -> bool {
    &&& states.len() == ops.len() + 1
    &&& states[0] == Changes::empty()
    &&& forall|i: int|
        0 <= i < ops.len() ==> (#[trigger] apply_patch::planned_change(
            ops[i],
            facts[i],
            states[i],
            windows,
        )) is Ok && states[i + 1] == (apply_patch::planned_change(
            ops[i],
            facts[i],
            states[i],
            windows,
        )->Ok_0).1
}

/// A patch is planned as a whole: section by section, in order, under its own number and label.
pub proof fn patches_are_planned_in_order(
    ops: Seq<OpView>,
    facts: Seq<SectionFacts>,
    states: Seq<Changes>,
    windows: bool,
)
    requires
        feasible(ops, facts, states, windows),
    ensures
        ({
            let plan = apply_patch::plan_view(ops, facts, windows);
            &&& plan is Ok
            &&& plan->Ok_0.len() == ops.len()
            &&& forall|i: int|
                0 <= i < ops.len() ==> #[trigger] plan->Ok_0[i] == (PlannedView {
                    section_no: (i + 1) as nat,
                    label: patch::label_view(ops[i]),
                    change: (apply_patch::planned_change(
                        ops[i],
                        facts[i],
                        states[i],
                        windows,
                    )->Ok_0).0,
                })
        }),
{
    lemma_planned(ops, facts, states, 0, windows);
}

proof fn lemma_planned(
    ops: Seq<OpView>,
    facts: Seq<SectionFacts>,
    states: Seq<Changes>,
    k: int,
    windows: bool,
)
    requires
        feasible(ops, facts, states, windows),
        0 <= k <= ops.len(),
    ensures
        ({
            let plan = apply_patch::plan_from(ops, facts, k, states[k], windows);
            &&& plan is Ok
            &&& plan->Ok_0.len() == ops.len() - k
            &&& forall|i: int|
                0 <= i < ops.len() - k ==> #[trigger] plan->Ok_0[i] == (PlannedView {
                    section_no: (k + i + 1) as nat,
                    label: patch::label_view(ops[k + i]),
                    change: (apply_patch::planned_change(
                        ops[k + i],
                        facts[k + i],
                        states[k + i],
                        windows,
                    )->Ok_0).0,
                })
        }),
    decreases ops.len() - k,
{
    if k < ops.len() {
        lemma_planned(ops, facts, states, k + 1, windows);
        let c = apply_patch::planned_change(ops[k], facts[k], states[k], windows);
        assert(c is Ok && states[k + 1] == (c->Ok_0).1);
        let rest = apply_patch::plan_from(ops, facts, k + 1, states[k + 1], windows)->Ok_0;
        let plan = apply_patch::plan_from(ops, facts, k, states[k], windows)->Ok_0;
        assert forall|i: int| 0 <= i < ops.len() - k implies #[trigger] plan[i] == (PlannedView {
            section_no: (k + i + 1) as nat,
            label: patch::label_view(ops[k + i]),
            change: (apply_patch::planned_change(
                ops[k + i],
                facts[k + i],
                states[k + i],
                windows,
            )->Ok_0).0,
        }) by {
            if i > 0 {
                assert(plan[i] == rest[i - 1]);
            }
        }
    }
}

/// Where one section cannot be carried out, nothing of the patch is: the answer names the first such
/// section by its number and label, and says that no file was modified.
pub proof fn one_refused_section_refuses_the_patch(
    ops: Seq<OpView>,
    facts: Seq<SectionFacts>,
    states: Seq<Changes>,
    k: int,
    windows: bool,
)
    requires
        0 <= k < ops.len(),
        feasible(ops.take(k), facts, states, windows),
        apply_patch::planned_change(ops[k], facts[k], states[k], windows) is Err,
    ensures
        ({
            let detail = apply_patch::planned_change(
                ops[k],
                facts[k],
                states[k],
                windows,
            )->Err_0;
            let said = "section "@ + text::dec((k + 1) as nat) + " ("@ + patch::label_view(ops[k])
                + "): "@ + detail;
            &&& apply_patch::plan_view(ops, facts, windows) == Err::<
                Seq<PlannedView>,
                Seq<char>,
            >(said)
            &&& !apply_patch::invalid(said).success
            &&& apply_patch::invalid(said).file_modified is None
            &&& text::has(apply_patch::invalid(said).output, said)
            &&& text::ends(apply_patch::invalid(said).output, ". No files were modified."@)
        }),
{
    lemma_refused(ops, facts, states, k, 0, windows);
    let detail = apply_patch::planned_change(ops[k], facts[k], states[k], windows)->Err_0;
    let said = "section "@ + text::dec((k + 1) as nat) + " ("@ + patch::label_view(ops[k]) + "): "@
        + detail;
    let out = apply_patch::invalid(said).output;
    text::lemma_has_itself(said);
    text::lemma_has_within("Patch validation failed — "@, said, ". No files were modified."@, said);
    let end = ". No files were modified."@;
    assert(out.subrange(out.len() - end.len(), out.len() as int) =~= end);
}

proof fn lemma_refused(
    ops: Seq<OpView>,
    facts: Seq<SectionFacts>,
    states: Seq<Changes>,
    k: int,
    i: int,
    windows: bool,
)
    requires
        0 <= i <= k < ops.len(),
        feasible(ops.take(k), facts, states, windows),
        apply_patch::planned_change(ops[k], facts[k], states[k], windows) is Err,
    ensures
        apply_patch::plan_from(ops, facts, i, states[i], windows) == Err::<
            Seq<PlannedView>,
            Seq<char>,
        >(
            "section "@ + text::dec((k + 1) as nat) + " ("@ + patch::label_view(ops[k]) + "): "@
                + apply_patch::planned_change(ops[k], facts[k], states[k], windows)->Err_0,
        ),
    decreases k - i,
{
    if i < k {
        lemma_refused(ops, facts, states, k, i + 1, windows);
        let t = ops.take(k);
        assert(apply_patch::planned_change(t[i], facts[i], states[i], windows) is Ok);
        assert(t[i] == ops[i]);
    }
}

/// Whether a run is about to begin a section that comes to this change.
pub open spec fn begins(run: RunView, change: ChangeView) -> bool {
    &&& run.failure is None
    &&& 0 <= run.at < run.plan.len()
    &&& run.plan[run.at].change == change
    &&& run.stage == apply_patch::stage_at(run.plan, run.at)
}

/// Whether a run has done a section and goes on to the next one, or is over where there is none.
pub open spec fn did(run: RunView, next: RunView, op: OpKind, display: Seq<char>) -> bool {
    &&& next.plan == run.plan
    &&& next.at == run.at + 1
    &&& next.failure is None
    &&& next.applied.len() == run.applied.len() + 1
    &&& next.applied.drop_last() == run.applied
    &&& next.applied.last().op == op
    &&& next.applied.last().display == display
    &&& run.at + 1 < run.plan.len() ==> begins(next, run.plan[run.at + 1].change)
    &&& run.at + 1 == run.plan.len() ==> apply_patch::next_action(next) is None
}

/// Whether a run has stopped in a section with this error; `touched` are the paths that may have been
/// modified. Nothing more is asked for, and no event changes that.
pub open spec fn gave_up(run: RunView, next: RunView, error: Seq<char>, touched: Seq<Seq<char>>) -> bool {
    &&& apply_patch::next_action(next) is None
    &&& next.applied == run.applied
    &&& next.failure matches Some(f) && f.section_no == run.plan[run.at].section_no && f.label
        == run.plan[run.at].label && f.error == error && f.partial.map_values(
        |p: PartialView| p.resolved,
    ) == touched
    &&& forall|e: Event| #[trigger] apply_patch::run_fed(next, e) == next
}

/// A new file is created with its content, once the directories above it are there; then the run goes
/// on.
pub proof fn new_files_are_created(
    run: RunView,
    path: Seq<char>,
    display: Seq<char>,
    content: Seq<char>,
    version: Option<Seq<char>>,
    op: OpKind,
    e: String,
    f: GuardFailure,
)
    requires
        begins(
            run,
            ChangeView::Write {
                path,
                display,
                content,
                expected_content: None,
                expected_version: version,
                op,
            },
        ),
    ensures
        ({
            let one = apply_patch::run_fed(run, Event::Parents(Ok(())));
            let none = apply_patch::run_fed(run, Event::Parents(Err(e)));
            &&& apply_patch::next_action(run) == Some(ActionView::MakeParents { path })
            &&& apply_patch::next_action(one) == Some(ActionView::Create { path, content })
            &&& did(run, apply_patch::run_fed(one, Event::Mutation(Ok(()))), op, display)
            &&& gave_up(
                run,
                none,
                "failed to create parent directories: "@ + e@,
                Seq::empty(),
            )
            &&& gave_up(
                run,
                apply_patch::run_fed(one, Event::Mutation(Err(f))),
                f.output@,
                if f.touched {
                    seq![path]
                } else {
                    Seq::empty()
                },
            )
        }),
{
    let one = apply_patch::run_fed(run, Event::Parents(Ok(())));
    let two = apply_patch::run_fed(one, Event::Mutation(Ok(())));
    assert(two.applied.drop_last() =~= run.applied);
    let none = apply_patch::run_fed(run, Event::Parents(Err(e)));
    assert(none.failure->0.partial.map_values(|p: PartialView| p.resolved) =~= Seq::empty());
    let bad = apply_patch::run_fed(one, Event::Mutation(Err(f)));
    assert(bad.failure->0.partial.map_values(|p: PartialView| p.resolved) =~= (if f.touched {
        seq![path]
    } else {
        Seq::empty()
    }));
}

/// A file is rewritten in one step, which is asked for with the content and the version that it must
/// still have.
pub proof fn files_are_rewritten(
    run: RunView,
    path: Seq<char>,
    display: Seq<char>,
    content: Seq<char>,
    expected: Seq<char>,
    version: Option<Seq<char>>,
    op: OpKind,
    f: GuardFailure,
)
    requires
        begins(
            run,
            ChangeView::Write {
                path,
                display,
                content,
                expected_content: Some(expected),
                expected_version: version,
                op,
            },
        ),
    ensures
        ({
            &&& apply_patch::next_action(run) == Some(
                ActionView::Rewrite {
                    path,
                    expected_content: expected,
                    expected_version: version,
                    content,
                },
            )
            &&& did(run, apply_patch::run_fed(run, Event::Mutation(Ok(()))), op, display)
            &&& gave_up(
                run,
                apply_patch::run_fed(run, Event::Mutation(Err(f))),
                f.output@,
                if f.touched {
                    seq![path]
                } else {
                    Seq::empty()
                },
            )
        }),
{
    let two = apply_patch::run_fed(run, Event::Mutation(Ok(())));
    assert(two.applied.drop_last() =~= run.applied);
    let bad = apply_patch::run_fed(run, Event::Mutation(Err(f)));
    assert(bad.failure->0.partial.map_values(|p: PartialView| p.resolved) =~= (if f.touched {
        seq![path]
    } else {
        Seq::empty()
    }));
}

/// A file is removed at the version that was planned; where none was, its version is looked up
/// first, and it is removed at that one only if its bytes still are the expected ones.
pub proof fn files_are_removed(
    run: RunView,
    path: Seq<char>,
    display: Seq<char>,
    expected: Seq<char>,
    version: Option<Seq<char>>,
    bytes: Vec<u8>,
    now: String,
    f: GuardFailure,
)
    requires
        begins(
            run,
            ChangeView::Remove {
                path,
                display,
                expected_content: expected,
                expected_version: version,
            },
        ),
    ensures
        version matches Some(v) ==> {
            &&& apply_patch::next_action(run) == Some(ActionView::Remove { path, version: v })
            &&& did(
                run,
                apply_patch::run_fed(run, Event::Mutation(Ok(()))),
                OpKind::Delete,
                display,
            )
            &&& gave_up(
                run,
                apply_patch::run_fed(run, Event::Mutation(Err(f))),
                f.output@,
                if f.touched {
                    seq![path]
                } else {
                    Seq::empty()
                },
            )
        },
        version is None ==> {
            let seen = apply_patch::run_fed(run, Event::Observed(Ok((bytes, now))));
            &&& apply_patch::next_action(run) == Some(ActionView::Observe { path })
            &&& bytes@ == vstd::utf8::encode_utf8(expected) ==> apply_patch::next_action(seen)
                == Some(ActionView::Remove { path, version: now@ }) && did(
                run,
                apply_patch::run_fed(seen, Event::Mutation(Ok(()))),
                OpKind::Delete,
                display,
            )
            &&& bytes@ != vstd::utf8::encode_utf8(expected) ==> apply_patch::next_action(seen)
                is None && seen.applied == run.applied && seen.failure is Some
                && seen.failure->0.partial.len() == 0 && seen.failure->0.error_code == Some(
                "stale_file_version"@,
            )
        },
{
    let two = apply_patch::run_fed(run, Event::Mutation(Ok(())));
    assert(version is Some ==> two.applied.drop_last() =~= run.applied);
    let bad = apply_patch::run_fed(run, Event::Mutation(Err(f)));
    assert(version is Some ==> bad.failure->0.partial.map_values(|p: PartialView| p.resolved) =~= (
    if f.touched {
        seq![path]
    } else {
        Seq::empty()
    }));
    let seen = apply_patch::run_fed(run, Event::Observed(Ok((bytes, now))));
    let three = apply_patch::run_fed(seen, Event::Mutation(Ok(())));
    if version is None && bytes@ == vstd::utf8::encode_utf8(expected) {
        assert(three.applied.drop_last() =~= run.applied);
    }
}

/// A move writes the new place first, once its directories are there, and removes the old one last,
/// at the version that was planned; where the removal fails, the new place is reported as written.
pub proof fn files_are_moved(
    run: RunView,
    from: Seq<char>,
    from_display: Seq<char>,
    to: Seq<char>,
    to_display: Seq<char>,
    content: Seq<char>,
    expected: Seq<char>,
    version: Seq<char>,
    f: GuardFailure,
)
    requires
        begins(
            run,
            ChangeView::Move {
                from,
                from_display,
                to,
                to_display,
                content,
                expected_content: expected,
                expected_version: Some(version),
            },
        ),
    ensures
        ({
            let one = apply_patch::run_fed(run, Event::Parents(Ok(())));
            let two = apply_patch::run_fed(one, Event::Mutation(Ok(())));
            let three = apply_patch::run_fed(two, Event::Mutation(Ok(())));
            &&& apply_patch::next_action(run) == Some(ActionView::MakeParents { path: to })
            &&& apply_patch::next_action(one) == Some(ActionView::Create { path: to, content })
            &&& apply_patch::next_action(two) == Some(ActionView::Remove { path: from, version })
            &&& did(run, three, OpKind::Move, to_display)
            &&& three.applied.last().from_display == Some(from_display)
            &&& three.applied.last().touched == seq![from, to]
            &&& gave_up(
                run,
                apply_patch::run_fed(one, Event::Mutation(Err(f))),
                f.output@,
                if f.touched {
                    seq![to]
                } else {
                    Seq::empty()
                },
            )
            &&& gave_up(
                run,
                apply_patch::run_fed(two, Event::Mutation(Err(f))),
                "wrote "@ + to_display + " but failed to remove "@ + from_display + ": "@
                    + f.output@,
                seq![to],
            )
            &&& apply_patch::run_fed(two, Event::Mutation(Err(f))).failure->0.partial[0].note
                == PartialNote::Written
        }),
{
    let one = apply_patch::run_fed(run, Event::Parents(Ok(())));
    let two = apply_patch::run_fed(one, Event::Mutation(Ok(())));
    let three = apply_patch::run_fed(two, Event::Mutation(Ok(())));
    assert(three.applied.drop_last() =~= run.applied);
    let bad = apply_patch::run_fed(one, Event::Mutation(Err(f)));
    assert(bad.failure->0.partial.map_values(|p: PartialView| p.resolved) =~= (if f.touched {
        seq![to]
    } else {
        Seq::empty()
    }));
    let half = apply_patch::run_fed(two, Event::Mutation(Err(f)));
    assert(half.failure->0.partial.map_values(|p: PartialView| p.resolved) =~= seq![to]);
}

/// An event that does not answer what a run asked for changes nothing.
pub proof fn strange_events_change_nothing(run: RunView, event: Event)
    requires
        apply_patch::run_ok(run),
        match apply_patch::next_action(run) {
            Some(ActionView::MakeParents { .. }) => !(event is Parents),
            Some(ActionView::Observe { .. }) => !(event is Observed),
            Some(_) => !(event is Mutation),
            None => true,
        },
    ensures
        apply_patch::run_fed(run, event) == run,
{
}

/// The words for what a section did.
pub open spec fn deed(a: AppliedView) -> Seq<char> {
    match (a.op, a.from_display) {
        (OpKind::Add, _) => "added "@ + a.display,
        (OpKind::Update, _) => "updated "@ + a.display,
        (OpKind::Delete, _) => "deleted "@ + a.display,
        (OpKind::Move, Some(from)) => "moved "@ + from + " -> "@ + a.display,
        (OpKind::Move, None) => "moved ? -> "@ + a.display,
    }
}

proof fn lemma_deed(a: AppliedView)
    ensures
        apply_patch::summary_view(a) == deed(a),
{
    reveal_strlit("moved ");
    reveal_strlit("?");
    reveal_strlit(" -> ");
    reveal_strlit("moved ? -> ");
    assert("moved "@ + "?"@ + " -> "@ + a.display =~= "moved ? -> "@ + a.display);
}

/// The report of a patch that was carried out is a success that names every file, in order, and
/// lists the paths in its metadata.
pub proof fn carried_out_patches_name_their_files(applied: Seq<AppliedView>, i: int)
    requires
        0 <= i < applied.len(),
    ensures
        ({
            let r = apply_patch::report_view(applied, None);
            &&& r.success
            &&& text::starts(r.output, "Applied patch to "@)
            &&& text::has(r.output, applied[i].display)
            &&& applied[i].from_display matches Some(from) ==> text::has(
                r.output,
                from + " -> "@ + applied[i].display,
            )
            &&& applied.len() == 1 && applied[0].from_display is None ==> r.output
                == "Applied patch to "@ + applied[0].display
            &&& applied[0].touched.len() > 0 ==> r.file_modified == Some(applied[0].touched[0])
            &&& r.structured_metadata is Some
            &&& checks::holds(
                r.structured_metadata->0,
                "modified_paths"@,
                json::texts_view(applied.map_values(|a: AppliedView| a.display)),
            )
            &&& checks::holds(
                r.structured_metadata->0,
                "codex_tool"@,
                JsonView::Text("apply_patch"@),
            )
        }),
{
    let r = apply_patch::report_view(applied, None);
    let parts = apply_patch::listing(applied);
    let lead = "Applied patch to "@;
    let body = text::join_view(parts, ", "@);
    assert(r.output.subrange(0, lead.len() as int) =~= lead);
    text::lemma_join_has(parts, ", "@, i);
    let none = Seq::<char>::empty();
    assert(r.output =~= lead + body + none);
    text::lemma_has_within(lead, body, none, parts[i]);
    let a = applied[i];
    if let Some(from) = a.from_display {
        lemma_holds_end(from + " -> "@, a.display);
        lemma_has_chain(r.output, parts[i], a.display);
    }
    if applied.len() == 1 {
        assert(parts =~= seq![apply_patch::listed_view(applied[0])]);
        reveal_with_fuel(text::join_view, 2);
    }
    let f = (r.structured_metadata->0)->Object_0;
    assert(apply_patch::displays(applied) =~= applied.map_values(|a: AppliedView| a.display));
    assert(f[0] == ("codex_tool"@, JsonView::Text("apply_patch"@)));
    assert(f[2] == (
        "modified_paths"@,
        json::texts_view(applied.map_values(|a: AppliedView| a.display)),
    ));
    assert(f.contains(f[0]) && f.contains(f[2]));
}

proof fn lemma_holds_end(a: Seq<char>, b: Seq<char>)
    ensures
        text::has(a + b, b),
{
    assert((a + b).subrange(a.len() as int, a.len() + b.len() as int) =~= b);
    assert(text::stands_at(a + b, b, a.len() as int));
}

proof fn lemma_has_chain(s: Seq<char>, m: Seq<char>, p: Seq<char>)
    requires
        text::has(s, m),
        text::has(m, p),
    ensures
        text::has(s, p),
{
    let i = choose|i: int| text::stands_at(s, m, i);
    let k = choose|k: int| text::stands_at(m, p, k);
    assert(s.subrange(i, i + m.len()) == m);
    assert(m.subrange(k, k + p.len()) == p);
    assert(s.subrange(i + k, i + k + p.len()) =~= p);
    assert(text::stands_at(s, p, i + k));
}

/// The report of a stopped patch is a failure that names the section, its label and its error; it
/// says what each section before it did and which paths were left partly modified, and that the
/// workspace is unchanged only where neither is there.
pub proof fn stopped_patches_tell_their_state(
    applied: Seq<AppliedView>,
    f: ApplyFailureView,
    i: int,
    k: int,
)
    ensures
        ({
            let r = apply_patch::report_view(applied, Some(f));
            &&& !r.success
            &&& text::starts(
                r.output,
                "Patch failed at section "@ + text::dec(f.section_no) + " ("@ + f.label + "): "@
                    + f.error + "\n"@,
            )
            &&& 0 <= i < applied.len() ==> text::has(r.output, deed(applied[i]))
            &&& 0 <= k < f.partial.len() && f.partial[k].note == PartialNote::Written ==> text::has(
                r.output,
                f.partial[k].display + " ("@ + "written"@ + ")"@,
            )
            &&& 0 <= k < f.partial.len() && f.partial[k].note == PartialNote::Unknown ==> text::has(
                r.output,
                f.partial[k].display + " ("@
                    + "may have been created, truncated, or partially written"@ + ")"@,
            )
            &&& applied.len() == 0 && f.partial.len() == 0 ==> text::ends(
                r.output,
                "No sections were applied; the workspace is unchanged."@,
            ) && r.file_modified is None
            &&& applied.len() > 0 || f.partial.len() > 0 ==> text::ends(
                r.output,
                "\nRemaining sections were NOT applied — the workspace is partially patched; re-read the affected files before retrying."@,
            )
            &&& applied.len() > 0 && applied[0].touched.len() > 0 ==> r.file_modified == Some(
                applied[0].touched[0],
            )
            &&& applied.len() == 0 && f.partial.len() > 0 ==> r.file_modified == Some(
                f.partial[0].resolved,
            )
            &&& r.structured_metadata is Some
            &&& checks::holds(
                r.structured_metadata->0,
                "failed_section"@,
                JsonView::Int(f.section_no as int),
            )
            &&& checks::holds(
                r.structured_metadata->0,
                "error_code"@,
                json::text_or_null(f.error_code),
            )
            &&& checks::holds(
                r.structured_metadata->0,
                "partial_paths"@,
                json::texts_view(f.partial.map_values(|p: PartialView| p.display)),
            )
        }),
{
    let r = apply_patch::report_view(applied, Some(f));
    let lead = "Patch failed at section "@ + text::dec(f.section_no) + " ("@ + f.label + "): "@
        + f.error + "\n"@;
    let state = apply_patch::state_text(applied, f.partial);
    let none = Seq::<char>::empty();
    assert(r.output == lead + state);
    assert(r.output =~= lead + state + none);
    assert(r.output.subrange(0, lead.len() as int) =~= lead);
    let tail = "\nRemaining sections were NOT applied — the workspace is partially patched; re-read the affected files before retrying."@;
    if applied.len() == 0 && f.partial.len() == 0 {
        let end = "No sections were applied; the workspace is unchanged."@;
        assert(r.output.subrange(r.output.len() - end.len(), r.output.len() as int) =~= end);
    } else {
        assert(r.output.subrange(r.output.len() - tail.len(), r.output.len() as int) =~= tail);
        let said = text::join_view(apply_patch::summaries(applied), ", "@);
        let halves = text::join_view(apply_patch::partial_texts(f.partial), ", "@);
        let done = if applied.len() > 0 {
            seq!["Already applied before the failure: "@ + said + "."@]
        } else {
            Seq::empty()
        };
        let half = if f.partial.len() > 0 {
            seq!["The failed section left partial state on disk: "@ + halves + "."@]
        } else {
            Seq::empty()
        };
        let parts = done + half;
        let body = text::join_view(parts, " "@);
        assert(state == body + tail);
        assert(r.output =~= lead + body + tail);
        if 0 <= i < applied.len() {
            let s = apply_patch::summaries(applied);
            lemma_deed(applied[i]);
            text::lemma_join_has(s, ", "@, i);
            assert(s[i] == deed(applied[i]));
            text::lemma_has_within("Already applied before the failure: "@, said, "."@, s[i]);
            text::lemma_join_has(parts, " "@, 0);
            assert(parts[0] == done[0]);
            text::lemma_has_within(lead, body, tail, parts[0]);
            lemma_has_chain(r.output, parts[0], s[i]);
        }
        if 0 <= k < f.partial.len() {
            let s = apply_patch::partial_texts(f.partial);
            text::lemma_join_has(s, ", "@, k);
            text::lemma_has_within(
                "The failed section left partial state on disk: "@,
                halves,
                "."@,
                s[k],
            );
            let at = done.len() as int;
            assert(parts[at] == half[0]);
            text::lemma_join_has(parts, " "@, at);
            text::lemma_has_within(lead, body, tail, parts[at]);
            lemma_has_chain(r.output, parts[at], s[k]);
        }
    }
    let m = (r.structured_metadata->0)->Object_0;
    assert(apply_patch::partial_displays(f.partial) =~= f.partial.map_values(
        |p: PartialView| p.display,
    ));
    assert(m[3] == (
        "partial_paths"@,
        json::texts_view(f.partial.map_values(|p: PartialView| p.display)),
    ));
    assert(m[4] == ("failed_section"@, JsonView::Int(f.section_no as int)));
    assert(m[5] == ("error_code"@, json::text_or_null(f.error_code)));
    assert(m.contains(m[3]) && m.contains(m[4]) && m.contains(m[5]));
}

/// The paths that a stopped patch may have modified are those of the applied sections and those that
/// were left partly modified, and no others.
pub proof fn stopped_patches_list_what_they_touched(
    applied: Seq<AppliedView>,
    f: ApplyFailureView,
    p: Seq<char>,
)
    ensures
        ({
            let r = apply_patch::report_view(applied, Some(f));
            exists|listed: Seq<Seq<char>>|
                {
                    &&& r.structured_metadata is Some
                    &&& checks::holds(
                        r.structured_metadata->0,
                        "modified_paths"@,
                        #[trigger] json::texts_view(listed),
                    )
                    &&& listed.contains(p) <==> (exists|i: int|
                        0 <= i < applied.len() && (#[trigger] applied[i]).display == p) || (exists|k: int|
                        0 <= k < f.partial.len() && (#[trigger] f.partial[k]).display == p)
                }
        }),
{
    let r = apply_patch::report_view(applied, Some(f));
    let first = apply_patch::displays(applied);
    let half = apply_patch::partial_displays(f.partial);
    let listed = apply_patch::joined_paths(first, half, half.len() as int);
    let m = (r.structured_metadata->0)->Object_0;
    assert(m[2] == ("modified_paths"@, json::texts_view(listed)));
    assert(m.contains(m[2]));
    lemma_joined(first, half, half.len() as int, p);
    assert(half.take(half.len() as int) =~= half);
    if first.contains(p) {
        let i = choose|i: int| 0 <= i < first.len() && first[i] == p;
        assert(applied[i].display == p);
    }
    if exists|i: int| 0 <= i < applied.len() && (#[trigger] applied[i]).display == p {
        let i = choose|i: int| 0 <= i < applied.len() && (#[trigger] applied[i]).display == p;
        assert(first[i] == p);
    }
    if half.contains(p) {
        let k = choose|k: int| 0 <= k < half.len() && half[k] == p;
        assert(f.partial[k].display == p);
    }
    if exists|k: int| 0 <= k < f.partial.len() && (#[trigger] f.partial[k]).display == p {
        let k = choose|k: int| 0 <= k < f.partial.len() && (#[trigger] f.partial[k]).display == p;
        assert(half[k] == p);
    }
    assert(checks::holds(
        r.structured_metadata->0,
        "modified_paths"@,
        json::texts_view(listed),
    ));
}

proof fn lemma_joined(a: Seq<Seq<char>>, b: Seq<Seq<char>>, n: int, p: Seq<char>)
    requires
        0 <= n <= b.len(),
    ensures
        apply_patch::joined_paths(a, b, n).contains(p) <==> a.contains(p) || b.take(n).contains(p),
    decreases n,
{
    if n > 0 {
        lemma_joined(a, b, n - 1, p);
        lemma_joined(a, b, n - 1, b[n - 1]);
        assert(b.take(n) =~= b.take(n - 1).push(b[n - 1]));
        places::lemma_push_contains(b.take(n - 1), b[n - 1], p);
        places::lemma_push_contains(apply_patch::joined_paths(a, b, n - 1), b[n - 1], p);
    } else {
        assert(b.take(0) =~= Seq::empty());
    }
}

/// The preview of a section tells what it did, to which path, and from which where it was a move.
pub proof fn sections_are_previewed(a: AppliedView)
    ensures
        ({
            let v = apply_patch::preview_view(a);
            &&& checks::holds(v, "path"@, JsonView::Text(a.display))
            &&& a.op == OpKind::Add ==> checks::holds(v, "op"@, JsonView::Text("add"@))
            &&& a.op == OpKind::Update ==> checks::holds(v, "op"@, JsonView::Text("update"@))
            &&& a.op == OpKind::Delete ==> checks::holds(v, "op"@, JsonView::Text("delete"@))
            &&& a.op == OpKind::Move ==> checks::holds(v, "op"@, JsonView::Text("move"@))
            &&& a.from_display matches Some(from) ==> checks::holds(
                v,
                "from"@,
                JsonView::Text(from),
            )
        }),
{
    let f = apply_patch::preview_view(a)->Object_0;
    assert(f[0].0 == "op"@ && f[1] == ("path"@, JsonView::Text(a.display)));
    assert(f.contains(f[0]) && f.contains(f[1]));
    if a.from_display is Some {
        assert(f[2] == ("from"@, JsonView::Text(a.from_display->0)));
        assert(f.contains(f[2]));
    }
}

/// A report previews every section that was applied, in order.
pub proof fn reports_preview_every_section(applied: Seq<AppliedView>, failure: Option<ApplyFailureView>)
    ensures
        ({
            let r = apply_patch::report_view(applied, failure);
            &&& r.structured_metadata is Some
            &&& checks::holds(
                r.structured_metadata->0,
                "diff_preview"@,
                JsonView::Array(applied.map_values(|a: AppliedView| apply_patch::preview_view(a))),
            )
        }),
{
    let r = apply_patch::report_view(applied, failure);
    let m = (r.structured_metadata->0)->Object_0;
    let list = applied.map_values(|a: AppliedView| apply_patch::preview_view(a));
    assert(apply_patch::previews(applied)->Array_0 =~= list);
    assert(m[1] == ("diff_preview"@, JsonView::Array(list)));
    assert(m.contains(m[1]));
}

/// A move of a file that an earlier section of the patch wrote looks up its version first, and goes on
/// with that one only if its bytes still are the expected ones.
pub proof fn moves_look_up_a_version(
    run: RunView,
    from: Seq<char>,
    from_display: Seq<char>,
    to: Seq<char>,
    to_display: Seq<char>,
    content: Seq<char>,
    expected: Seq<char>,
    bytes: Vec<u8>,
    now: String,
)
    requires
        begins(
            run,
            ChangeView::Move {
                from,
                from_display,
                to,
                to_display,
                content,
                expected_content: expected,
                expected_version: None,
            },
        ),
    ensures
        ({
            let seen = apply_patch::run_fed(run, Event::Observed(Ok((bytes, now))));
            let one = apply_patch::run_fed(seen, Event::Parents(Ok(())));
            let two = apply_patch::run_fed(one, Event::Mutation(Ok(())));
            &&& apply_patch::next_action(run) == Some(ActionView::Observe { path: from })
            &&& bytes@ == vstd::utf8::encode_utf8(expected) ==> {
                &&& apply_patch::next_action(seen) == Some(ActionView::MakeParents { path: to })
                &&& apply_patch::next_action(one) == Some(ActionView::Create { path: to, content })
                &&& apply_patch::next_action(two) == Some(
                    ActionView::Remove { path: from, version: now@ },
                )
            }
            &&& bytes@ != vstd::utf8::encode_utf8(expected) ==> apply_patch::next_action(seen)
                is None && seen.failure is Some && seen.failure->0.error_code == Some(
                "stale_file_version"@,
            ) && seen.failure->0.partial.len() == 0 && seen.applied == run.applied
        }),
{
}

/// An envelope that cannot be read is answered with the reason and with the form that is expected.
pub proof fn unreadable_patches_are_answered_with_the_form(e: Seq<char>)
    ensures
        !apply_patch::malformed(e).success,
        text::starts(apply_patch::malformed(e).output, "Failed to parse patch: "@ + e),
{
    let out = apply_patch::malformed(e).output;
    let lead = "Failed to parse patch: "@ + e;
    assert(out.subrange(0, lead.len() as int) =~= lead);
}

/// A section is called by what it does and by its path.
pub proof fn sections_are_labelled(path: Seq<char>, dest: Seq<char>, content: Seq<char>, hunks: Seq<UpdateHunkView>)
    ensures
        patch::label_view(OpView::Add { path, content }) == "Add File: "@ + path,
        patch::label_view(OpView::Delete { path }) == "Delete File: "@ + path,
        patch::label_view(OpView::Update { path, move_to: None, hunks }) == "Update File: "@ + path,
        patch::label_view(OpView::Update { path, move_to: Some(dest), hunks }) == "Update File: "@
            + path + " -> "@ + dest,
{
}

/// A tool that may only read refuses every patch; one that may write takes a diff of one file where
/// both its parts are given, else the envelope, and refuses a call without either.
pub proof fn requests_for_patches(
    patch: Option<Seq<char>>,
    path: Option<Seq<char>>,
    diff: Option<Seq<char>>,
)
    ensures
        ({
            let r = apply_patch::request_view(FileAccessMode::ReadWrite, patch, path, diff);
            &&& apply_patch::request_view(
                FileAccessMode::ReadOnly,
                patch,
                path,
                diff,
            ) matches PatchRequestView::Refuse(a) && !a.success
            &&& path is Some && diff is Some ==> r == (PatchRequestView::Unified {
                path: path->0,
                diff: diff->0,
            })
            &&& (path is None || diff is None) && patch is Some ==> r == PatchRequestView::Envelope(
                patch->0,
            )
            &&& (path is None || diff is None) && patch is None ==> (
            r matches PatchRequestView::Refuse(a) && !a.success)
        }),
{
}

/// An edit by a diff needs a tool that may write, a path in the workspace and a diff with a hunk; it
/// is then made at the place of the path, of all hunks of the diff.
pub proof fn edits_are_prepared(
    access: FileAccessMode,
    local: bool,
    path: Seq<char>,
    found: Result<String, Refusal>,
    d: Seq<char>,
)
    ensures
        ({
            let r = diff_edit::prepared(access, local, path, found, d);
            let fits = access == FileAccessMode::ReadWrite && found is Ok && diff::diff_view(d) is Ok
                && diff::diff_view(d)->Ok_0.len() > 0;
            &&& r is Ok <==> fits
            &&& r matches Ok(p) ==> {
                &&& p.path == found->Ok_0@
                &&& p.hunks == diff::diff_view(d)->Ok_0
                &&& local <==> p.policy == ExpectedVersionPolicy::OptionalNoChange
            }
            &&& r matches Err(a) ==> !a.success && a.file_modified is None
        }),
{
}

/// An edit makes of the bytes of a file what the hunks make of the text that they encode; bytes that
/// are no text, and hunks that do not fit, are refused.
pub proof fn edits_patch_the_text(content: Seq<char>, bytes: Seq<u8>, hunks: Seq<HunkView>)
    ensures
        ({
            let r = diff_edit::edited(vstd::utf8::encode_utf8(content), hunks);
            &&& diff::patched(content, hunks) matches Ok(out) ==> r == Ok::<Seq<char>, Seq<char>>(
                out,
            )
            &&& diff::patched(content, hunks) is Err ==> r is Err
        }),
        !vstd::utf8::valid_utf8(bytes) ==> diff_edit::edited(bytes, hunks) is Err,
{
    vstd::utf8::encode_utf8_valid_utf8(content);
    vstd::utf8::encode_utf8_decode_utf8(content);
}

/// The answer to an edit names its file and counts its hunks; one that was carried out reports the
/// file as modified, one that changed nothing does not.
pub proof fn edits_are_reported(
    n: nat,
    path: Seq<char>,
    at: Seq<char>,
    version: Seq<char>,
    observed: JsonView,
    note: Option<Seq<char>>,
)
    ensures
        ({
            let r = diff_edit::done_view(n, path, at, None, note);
            &&& r.success
            &&& r.file_modified == Some(at)
            &&& text::starts(r.output, "Applied "@ + text::dec(n) + " hunk(s) to "@ + path)
            &&& note is None ==> r.output == "Applied "@ + text::dec(n) + " hunk(s) to "@ + path
            &&& note matches Some(s) ==> text::ends(r.output, s)
        }),
        ({
            let r = diff_edit::no_change_view(n, path, version, observed);
            &&& r.success
            &&& r.file_modified is None
            &&& text::starts(r.output, "[no_change] path="@ + path)
            &&& text::ends(r.output, " current="@ + version)
        }),
{
    let r = diff_edit::done_view(n, path, at, None, note);
    let lead = "Applied "@ + text::dec(n) + " hunk(s) to "@ + path;
    assert(r.output.subrange(0, lead.len() as int) =~= lead);
    if let Some(s) = note {
        assert(r.output.subrange(r.output.len() - s.len(), r.output.len() as int) =~= s);
    } else {
        assert(r.output =~= lead);
    }
    let q = diff_edit::no_change_view(n, path, version, observed);
    let first = "[no_change] path="@ + path;
    let last = " current="@ + version;
    assert(q.output.subrange(0, first.len() as int) =~= first);
    assert(q.output.subrange(q.output.len() - last.len(), q.output.len() as int) =~= last);
}

} // verus!
