//! What a patch does to the files of a workspace: a model of the files, and the laws that a plan
//! and its run keep on it.

use vstd::prelude::*;

use crate::apply_patch;
use crate::apply_patch::{
    ActionView, ChangeView, Changes, DiskEntry, Event, FileRead, PathFacts, PlannedView, RunView,
    SectionFacts, StageView,
};
use crate::patch::OpView;
use crate::paths;
use crate::paths::PlaceView;

verus! {

/// The text files of a workspace, by their place.
pub type Files = Map<PlaceView, Seq<char>>;

/// The version that a content has.
pub type Stamp = spec_fn(Seq<char>) -> Seq<char>;

/// The files after a change.
pub open spec fn after(files: Files, change: ChangeView, windows: bool) -> Files {
    match change {
        ChangeView::Write { path, content, .. } => files.insert(paths::place(path, windows), content),
        ChangeView::Remove { path, .. } => files.remove(paths::place(path, windows)),
        ChangeView::Move { from, to, content, .. } => files.remove(
            paths::place(from, windows),
        ).insert(paths::place(to, windows), content),
    }
}

/// The files after the first `n` sections of a plan.
pub open spec fn after_sections(files: Files, plan: Seq<PlannedView>, n: int, windows: bool) -> Files
    decreases n,
{
    if n <= 0 {
        files
    } else {
        after(after_sections(files, plan, n - 1, windows), plan[n - 1].change, windows)
    }
}

/// Whether a file holds what is expected of it, in the version that is expected where there is
/// one.
pub open spec fn holds(
    files: Files,
    path: PlaceView,
    content: Seq<char>,
    version: Option<Seq<char>>,
    stamp: Stamp,
) -> bool {
    &&& files.dom().contains(path)
    &&& files[path] == content
    &&& version matches Some(v) ==> v == stamp(content)
}

/// Whether a change can be made to the files: what it rewrites, removes or moves is as expected,
/// and what it creates is not there.
pub open spec fn fits(files: Files, change: ChangeView, stamp: Stamp, windows: bool) -> bool {
    match change {
        ChangeView::Write { path, expected_content: Some(content), expected_version, .. } => holds(
            files,
            paths::place(path, windows),
            content,
            expected_version,
            stamp,
        ),
        ChangeView::Write { path, .. } => !files.dom().contains(paths::place(path, windows)),
        ChangeView::Remove { path, expected_content, expected_version, .. } => holds(
            files,
            paths::place(path, windows),
            expected_content,
            expected_version,
            stamp,
        ),
        ChangeView::Move { from, to, expected_content, expected_version, .. } => paths::place(from, windows) != paths::place(
            to,
            windows,
        ) && !files.dom().contains(paths::place(to, windows)) && holds(
            files,
            paths::place(from, windows),
            expected_content,
            expected_version,
            stamp,
        ),
    }
}

/// Whether what was observed at a path is so.
pub open spec fn seen(files: Files, facts: PathFacts, stamp: Stamp, windows: bool) -> bool {
    facts.found matches Ok(at) ==> match facts.entry {
        Ok(DiskEntry::Absent) => !files.dom().contains(paths::place(at@, windows)),
        Ok(DiskEntry::File) => match facts.read {
            FileRead::Text { content, version } => holds(
                files,
                paths::place(at@, windows),
                content@,
                Some(version@),
                stamp,
            ),
            _ => true,
        },
        _ => true,
    }
}

/// Whether what was observed for the sections of a patch is so.
pub open spec fn all_seen(files: Files, facts: Seq<SectionFacts>, stamp: Stamp, windows: bool) -> bool {
    forall|i: int|
        0 <= i < facts.len() ==> seen(files, (#[trigger] facts[i]).source, stamp, windows) && seen(
            files,
            facts[i].dest,
            stamp,
            windows,
        )
}

/// Whether `files` have at `p` what `base` has there with the changes that an overlay holds.
spec fn overlaid_at(
    base: Files,
    overlay: Changes,
    files: Files,
    p: PlaceView,
) -> bool {
    if overlay.dom().contains(p) {
        match overlay[p] {
            Some(content) => files.dom().contains(p) && files[p] == content,
            None => !files.dom().contains(p),
        }
    } else {
        files.dom().contains(p) == base.dom().contains(p) && (base.dom().contains(p) ==> files[p]
            == base[p])
    }
}

/// Whether `files` are those of `base` with the changes that an overlay holds.
spec fn overlaid(base: Files, overlay: Changes, files: Files) -> bool {
    forall|p: PlaceView| #[trigger] overlaid_at(base, overlay, files, p)
}

proof fn lemma_current(
    base: Files,
    files: Files,
    path: PlaceView,
    facts: PathFacts,
    overlay: Changes,
    stamp: Stamp,
    windows: bool,
)
    requires
        overlaid(base, overlay, files),
        seen(base, facts, stamp, windows),
        facts.found matches Ok(at) && paths::place(at@, windows) == path,
    ensures
        apply_patch::current(overlay, path, facts) matches Ok((content, version)) ==> holds(
            files,
            path,
            content,
            version,
            stamp,
        ),
        apply_patch::occupied(overlay, path, facts) == Ok::<bool, Seq<char>>(false)
            ==> !files.dom().contains(path),
{
    assert(overlaid_at(base, overlay, files, path));
}

proof fn lemma_overlaid(
    base: Files,
    files: Files,
    overlay: Changes,
    path: PlaceView,
    content: Seq<char>,
)
    requires
        overlaid(base, overlay, files),
    ensures
        overlaid(base, overlay.insert(path, Some(content)), files.insert(path, content)),
        overlaid(base, overlay.insert(path, None), files.remove(path)),
{
    assert forall|p: PlaceView| #[trigger]
        overlaid_at(
            base,
            overlay.insert(path, Some(content)),
            files.insert(path, content),
            p,
        ) by {
        assert(overlaid_at(base, overlay, files, p));
    }
    assert forall|p: PlaceView| #[trigger]
        overlaid_at(base, overlay.insert(path, None), files.remove(path), p) by {
        assert(overlaid_at(base, overlay, files, p));
    }
}

proof fn lemma_section_fits(
    base: Files,
    files: Files,
    op: OpView,
    facts: SectionFacts,
    overlay: Changes,
    stamp: Stamp,
    windows: bool,
)
    requires
        overlaid(base, overlay, files),
        seen(base, facts.source, stamp, windows),
        seen(base, facts.dest, stamp, windows),
    ensures
        apply_patch::planned_change(op, facts, overlay, windows) matches Ok((change, next)) ==> {
            &&& fits(files, change, stamp, windows)
            &&& overlaid(base, next, after(files, change, windows))
        },
{
    if let Ok((change, next)) = apply_patch::planned_change(op, facts, overlay, windows) {
        let at = paths::place(facts.source.found->Ok_0@, windows);
        lemma_current(base, files, at, facts.source, overlay, stamp, windows);
        match change {
            ChangeView::Write { content, .. } => {
                lemma_overlaid(base, files, overlay, at, content);
            },
            ChangeView::Remove { .. } => {
                lemma_overlaid(base, files, overlay, at, Seq::empty());
            },
            ChangeView::Move { to, content, .. } => {
                let to = paths::place(to, windows);
                lemma_current(base, files, to, facts.dest, overlay, stamp, windows);
                lemma_overlaid(base, files, overlay, at, Seq::empty());
                lemma_overlaid(
                    base,
                    files.remove(at),
                    overlay.insert(at, None),
                    to,
                    content,
                );
            },
        }
    }
}

proof fn lemma_after_shift(files: Files, plan: Seq<PlannedView>, n: int, windows: bool)
    requires
        0 <= n < plan.len(),
    ensures
        after_sections(after(files, plan[0].change, windows), plan.drop_first(), n, windows) == after_sections(
            files,
            plan,
            n + 1,
            windows,
        ),
    decreases n,
{
    if n > 0 {
        lemma_after_shift(files, plan, n - 1, windows);
        assert(plan.drop_first()[n - 1] == plan[n]);
    } else {
        assert(after_sections(files, plan, 0, windows) == files);
    }
}

proof fn lemma_plan_fits(
    base: Files,
    files: Files,
    ops: Seq<OpView>,
    facts: Seq<SectionFacts>,
    i: int,
    overlay: Changes,
    stamp: Stamp,
    windows: bool,
)
    requires
        0 <= i,
        facts.len() == ops.len(),
        overlaid(base, overlay, files),
        all_seen(base, facts, stamp, windows),
    ensures
        apply_patch::plan_from(ops, facts, i, overlay, windows) matches Ok(plan) ==> forall|k: int|
            0 <= k < plan.len() ==> fits(
                after_sections(files, plan, k, windows),
                (#[trigger] plan[k]).change,
                stamp,
                windows,
            ),
    decreases ops.len() - i,
{
    if i < ops.len() {
        if let Ok(plan) = apply_patch::plan_from(ops, facts, i, overlay, windows) {
            let (change, next) = apply_patch::planned_change(ops[i], facts[i], overlay, windows)->Ok_0;
            lemma_section_fits(base, files, ops[i], facts[i], overlay, stamp, windows);
            lemma_plan_fits(base, after(files, change, windows), ops, facts, i + 1, next, stamp, windows);
            let rest = apply_patch::plan_from(ops, facts, i + 1, next, windows)->Ok_0;
            assert(plan[0].change == change);
            assert(plan.drop_first() =~= rest);
            assert forall|k: int| 0 <= k < plan.len() implies fits(
                after_sections(files, plan, k, windows),
                (#[trigger] plan[k]).change,
                stamp,
                windows,
            ) by {
                if k > 0 {
                    lemma_after_shift(files, plan, k - 1, windows);
                    assert(rest[k - 1] == plan[k]);
                }
            }
        }
    }
}

/// Whether every section of a plan can be carried out once those before it are.
pub open spec fn plan_fits(files: Files, plan: Seq<PlannedView>, stamp: Stamp, windows: bool) -> bool {
    forall|k: int|
        0 <= k < plan.len() ==> fits(
            after_sections(files, plan, k, windows),
            (#[trigger] plan[k]).change,
            stamp,
            windows,
        )
}

/// A patch that is planned can be carried out: where what was observed is so, every section
/// finds the files as it expects them once those before it are done.
pub proof fn planned_patches_fit(
    files: Files,
    ops: Seq<OpView>,
    facts: Seq<SectionFacts>,
    stamp: Stamp,
    windows: bool,
)
    requires
        facts.len() == ops.len(),
        all_seen(files, facts, stamp, windows),
    ensures
        apply_patch::plan_view(ops, facts, windows) matches Ok(plan) ==> plan_fits(files, plan, stamp, windows),
{
    lemma_plan_fits(files, files, ops, facts, 0, Map::empty(), stamp, windows);
}

/// Whether a workspace with these files may answer an action with an event, and hold `next`
/// after it: an operation succeeds whose file is as expected, and does what it says.
pub open spec fn answered(
    files: Files,
    action: ActionView,
    event: Event,
    next: Files,
    stamp: Stamp,
    windows: bool,
) -> bool {
    match action {
        ActionView::Rewrite { path, expected_content, expected_version, content } => holds(
            files,
            paths::place(path, windows),
            expected_content,
            expected_version,
            stamp,
        ) ==> event == Event::Mutation(Ok(())) && next == files.insert(paths::place(path, windows), content),
        ActionView::MakeParents { .. } => event == Event::Parents(Ok(())) && next == files,
        ActionView::Create { path, content } => !files.dom().contains(paths::place(path, windows)) ==> event
            == Event::Mutation(Ok(())) && next == files.insert(paths::place(path, windows), content),
        ActionView::Observe { path } => next == files && (files.dom().contains(paths::place(path, windows)) ==> (
        event matches Event::Observed(Ok((bytes, version))) && bytes@ == vstd::utf8::encode_utf8(
            files[paths::place(path, windows)],
        ) && version@ == stamp(files[paths::place(path, windows)]))),
        ActionView::Remove { path, version } => holds(
            files,
            paths::place(path, windows),
            files[paths::place(path, windows)],
            Some(version),
            stamp,
        ) ==> event == Event::Mutation(Ok(())) && next == files.remove(paths::place(path, windows)),
    }
}

/// The files in the midst of a section: a move has written its destination before it removes
/// its source.
pub open spec fn midway(files: Files, change: ChangeView, stage: StageView, windows: bool) -> Files {
    match (change, stage) {
        (ChangeView::Move { to, content, .. }, StageView::Removing { .. }) => files.insert(
            paths::place(to, windows),
            content,
        ),
        _ => files,
    }
}

/// The version that a stage carries is that of the content that its section expects.
pub open spec fn stage_stamped(change: ChangeView, stage: StageView, stamp: Stamp) -> bool {
    let expected = match change {
        ChangeView::Write { content, .. } => content,
        ChangeView::Remove { expected_content, .. } => expected_content,
        ChangeView::Move { expected_content, .. } => expected_content,
    };
    match stage {
        StageView::MakingMoveParents { version } => version == stamp(expected),
        StageView::CreatingMoved { version } => version == stamp(expected),
        StageView::Removing { version } => version == stamp(expected),
        _ => true,
    }
}

/// Whether a run stands well on a workspace that began as `base` and holds `files` now: nothing
/// has failed, and the files are what the sections so far make of `base`.
pub open spec fn on_course(base: Files, run: RunView, files: Files, stamp: Stamp, windows: bool) -> bool {
    &&& apply_patch::run_ok(run)
    &&& run.failure is None
    &&& plan_fits(base, run.plan, stamp, windows)
    &&& match run.stage {
        Some(stage) => {
            &&& stage_stamped(run.plan[run.at].change, stage, stamp)
            &&& files == midway(
                after_sections(base, run.plan, run.at, windows),
                run.plan[run.at].change,
                stage,
                windows,
            )
        },
        None => files == after_sections(base, run.plan, run.at, windows),
    }
}

/// A run starts on course, where its plan fits.
pub proof fn fitting_runs_start_on_course(base: Files, plan: Seq<PlannedView>, stamp: Stamp, windows: bool)
    requires
        plan_fits(base, plan, stamp, windows),
    ensures
        on_course(base, apply_patch::run_start(plan), base, stamp, windows),
{
    if plan.len() > 0 {
        assert(fits(after_sections(base, plan, 0, windows), plan[0].change, stamp, windows));
    }
}

proof fn lemma_next_section(base: Files, run: RunView, files: Files, stamp: Stamp, windows: bool)
    requires
        apply_patch::run_ok(run),
        run.failure is None,
        plan_fits(base, run.plan, stamp, windows),
        run.stage == apply_patch::stage_at(run.plan, run.at),
        files == after_sections(base, run.plan, run.at, windows),
    ensures
        on_course(base, run, files, stamp, windows),
{
    if run.at < run.plan.len() {
        assert(fits(
            after_sections(base, run.plan, run.at, windows),
            run.plan[run.at].change,
            stamp,
            windows,
        ));
    }
}

/// A run stays on course as long as the workspace does what it is asked: no operation of it
/// fails, and each section leaves the files as planned.
pub proof fn runs_stay_on_course(
    base: Files,
    run: RunView,
    files: Files,
    event: Event,
    next: Files,
    stamp: Stamp,
    windows: bool,
)
    requires
        on_course(base, run, files, stamp, windows),
        apply_patch::next_action(run) matches Some(action) && answered(
            files,
            action,
            event,
            next,
            stamp,
            windows,
        ),
    ensures
        on_course(base, apply_patch::run_fed(run, event), next, stamp, windows),
{
    let change = run.plan[run.at].change;
    let stage = run.stage->0;
    let before = after_sections(base, run.plan, run.at, windows);
    assert(fits(before, change, stamp, windows));
    let fed = apply_patch::run_fed(run, event);
    apply_patch::run_fed_is_ok(run, event);
    if fed.at == run.at + 1 {
        match change {
            ChangeView::Move { from, to, content, .. } => {
                let from = paths::place(from, windows);
                let to = paths::place(to, windows);
                assert(before.insert(to, content).remove(from) =~= before.remove(from).insert(
                    to,
                    content,
                ));
            },
            _ => {},
        }
        assert(next == after(before, change, windows));
        assert(after_sections(base, run.plan, run.at + 1, windows) == after(before, change, windows));
        lemma_next_section(base, fed, next, stamp, windows);
    }
}

/// A run that is over and on course has carried out every section, and the files are what the
/// whole plan makes of them.
pub proof fn finished_runs_did_everything(base: Files, run: RunView, files: Files, stamp: Stamp, windows: bool)
    requires
        on_course(base, run, files, stamp, windows),
        run.stage is None,
    ensures
        run.at == run.plan.len(),
        run.applied.len() == run.plan.len(),
        files == after_sections(base, run.plan, run.plan.len() as int, windows),
{
}

/// How far a run is from its end, in steps.
pub open spec fn steps_left(run: RunView) -> int {
    match run.stage {
        None => 0,
        Some(stage) => 5 * (run.plan.len() - run.at) - (match stage {
            StageView::Rewriting => 0int,
            StageView::MakingParents => 0,
            StageView::Creating => 1,
            StageView::Observing => 0,
            StageView::MakingMoveParents { .. } => 1,
            StageView::CreatingMoved { .. } => 2,
            StageView::Removing { .. } => 3,
        }),
    }
}

/// Every run ends: an event that answers what the run asks for brings it nearer to its end,
/// whether it succeeds or fails.
pub proof fn runs_end(run: RunView, event: Event)
    requires
        apply_patch::run_ok(run),
        run.stage matches Some(stage) && apply_patch::answers(stage, event),
    ensures
        0 <= steps_left(apply_patch::run_fed(run, event)) < steps_left(run),
{
    apply_patch::run_fed_is_ok(run, event);
}

/// Whether a change is to the file at a place.
pub open spec fn touches(change: ChangeView, p: PlaceView, windows: bool) -> bool {
    match change {
        ChangeView::Write { path, .. } => paths::place(path, windows) == p,
        ChangeView::Remove { path, .. } => paths::place(path, windows) == p,
        ChangeView::Move { from, to, .. } => paths::place(from, windows) == p || paths::place(
            to,
            windows,
        ) == p,
    }
}

/// A plan leaves a file alone that none of its sections names.
pub proof fn other_files_stay(files: Files, plan: Seq<PlannedView>, n: int, p: PlaceView, windows: bool)
    requires
        0 <= n <= plan.len(),
        forall|i: int| 0 <= i < plan.len() ==> !touches((#[trigger] plan[i]).change, p, windows),
    ensures
        after_sections(files, plan, n, windows).dom().contains(p) == files.dom().contains(p),
        files.dom().contains(p) ==> after_sections(files, plan, n, windows)[p] == files[p],
    decreases n,
{
    if n > 0 {
        other_files_stay(files, plan, n - 1, p, windows);
        assert(!touches(plan[n - 1].change, p, windows));
    }
}

} // verus!
