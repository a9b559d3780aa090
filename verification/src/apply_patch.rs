//! The `apply_patch` tool: a whole patch is planned before any file is written, and what a
//! run did is reported exactly, also where it stopped in the middle.

use vstd::prelude::*;

use crate::json;
use crate::json::{Fields, Json, JsonView, opt_text_json, text_json, texts_json};
use crate::patch;
use crate::patch::{OpView, PatchOp, apply_codex_hunks, parse_patch_envelope};
use crate::paths;
use crate::paths::{goes_up, is_anchored, place_of, Place, PlaceView};
use crate::text;
use crate::text::{cat, cat3, cat4, cat5, dec_string, join, list_has};
use crate::tool;
use crate::tool::{
    ConcurrencyClass, FileAccessMode, FilesystemScope, Refusal, ToolResult, ToolResultView,
    plain_failure,
};

verus! {

/// Why a path may not stand in a patch, if it may not.
pub open spec fn unsafe_path(path: Seq<char>, windows: bool) -> Option<Seq<char>> {
    if paths::anchored(path, windows) {
        Some(
            "absolute paths are not allowed in apply_patch (use workspace-relative paths): "@
                + path,
        )
    } else if paths::climbs(path, windows) {
        Some("'..' path components are not allowed in apply_patch: "@ + path)
    } else {
        None
    }
}

/// Refuses absolute paths, those that start at a root or a drive, and `..` components.
pub fn reject_unsafe_patch_path(path: &str, windows: bool) -> (r: Result<(), String>)
    ensures
        (match r {
            Ok(()) => None,
            Err(e) => Some(e@),
        }) == unsafe_path(path@, windows),
{
    if is_anchored(path, windows) {
        return Err(
            cat(
                "absolute paths are not allowed in apply_patch (use workspace-relative paths): ",
                path,
            ),
        );
    }
    if goes_up(path, windows) {
        return Err(cat("'..' path components are not allowed in apply_patch: ", path));
    }
    Ok(())
}

/// The place of a patch path on disk.
pub open spec fn resolved(path: Seq<char>, found: Result<String, Refusal>, windows: bool) -> Result<
    Seq<char>,
    Seq<char>,
> {
    match unsafe_path(path, windows) {
        Some(e) => Err(e),
        None => match found {
            Ok(p) => Ok(p@),
            Err(Refusal::Session(reason)) => Err(reason@ + ": "@ + path),
            Err(Refusal::Workspace) => Err("Path outside working directory: "@ + path),
        },
    }
}

/// The place of a patch path on disk, given what the workspace's own resolution found.
pub fn resolve_patch_path(path: &str, found: &Result<String, Refusal>, windows: bool) -> (r: Result<
    String,
    String,
>)
    ensures
        text::text_or_text(r) == resolved(path@, *found, windows),
{
    if let Err(e) = reject_unsafe_patch_path(path, windows) {
        return Err(e);
    }
    match found {
        Ok(p) => Ok(p.clone()),
        Err(Refusal::Session(reason)) => Err(cat3(reason, ": ", path)),
        Err(Refusal::Workspace) => Err(cat("Path outside working directory: ", path)),
    }
}

/// What stands on disk at a path, links not followed.
#[derive(Debug, Clone, Copy, PartialEq, Eq, Structural)]
pub enum DiskEntry {
    Absent,
    File,
    Symlink,
    Other,
}

/// What reading a regular file gave.
#[derive(Debug)]
pub enum FileRead {
    /// The file changed while it was read.
    Changed,
    /// The file is not valid UTF-8.
    NotText,
    /// The content, and a token for the version that was read.
    Text { content: String, version: String },
}

/// What was observed of one path of a section before anything was written.
#[derive(Debug)]
pub struct PathFacts {
    pub found: Result<String, Refusal>,
    pub entry: Result<DiskEntry, String>,
    /// Of a regular file.
    pub read: FileRead,
}

/// What was observed for one section: its file and, for a move, the destination.
#[derive(Debug)]
pub struct SectionFacts {
    pub source: PathFacts,
    pub dest: PathFacts,
}

/// What a section did or will do.
#[derive(Debug, Clone, Copy, PartialEq, Eq, Structural)]
pub enum OpKind {
    Add,
    Update,
    Delete,
    Move,
}

/// The name of a kind of change.
pub open spec fn kind_view(k: OpKind) -> Seq<char> {
    match k {
        OpKind::Add => "add"@,
        OpKind::Update => "update"@,
        OpKind::Delete => "delete"@,
        OpKind::Move => "move"@,
    }
}

impl OpKind {
    /// The name of this kind of change.
    pub fn as_str(&self) -> (r: &'static str)
        ensures
            r@ == kind_view(*self),
    {
        match self {
            OpKind::Add => "add",
            OpKind::Update => "update",
            OpKind::Delete => "delete",
            OpKind::Move => "move",
        }
    }
}

/// A change that has been validated.
#[derive(Debug)]
#[allow(inconsistent_fields)]
pub enum PlannedChange {
    /// Create or rewrite `path`.
    Write {
        path: String,
        display: String,
        content: String,
        expected_content: Option<String>,
        expected_version: Option<String>,
        op: OpKind,
    },
    /// Remove the file at `path`.
    Remove {
        path: String,
        display: String,
        expected_content: String,
        expected_version: Option<String>,
    },
    /// Write `content` to `to`, then remove `from`.
    Move {
        from: String,
        from_display: String,
        to: String,
        to_display: String,
        content: String,
        expected_content: String,
        expected_version: Option<String>,
    },
}

/// What a [`PlannedChange`] stands for.
#[allow(inconsistent_fields)]
pub enum ChangeView {
    Write {
        path: Seq<char>,
        display: Seq<char>,
        content: Seq<char>,
        expected_content: Option<Seq<char>>,
        expected_version: Option<Seq<char>>,
        op: OpKind,
    },
    Remove {
        path: Seq<char>,
        display: Seq<char>,
        expected_content: Seq<char>,
        expected_version: Option<Seq<char>>,
    },
    Move {
        from: Seq<char>,
        from_display: Seq<char>,
        to: Seq<char>,
        to_display: Seq<char>,
        content: Seq<char>,
        expected_content: Seq<char>,
        expected_version: Option<Seq<char>>,
    },
}

impl View for PlannedChange {
    type V = ChangeView;

    open spec fn view(&self) -> ChangeView {
        match self {
            PlannedChange::Write {
                path,
                display,
                content,
                expected_content,
                expected_version,
                op,
            } => ChangeView::Write {
                path: path@,
                display: display@,
                content: content@,
                expected_content: text::opt(*expected_content),
                expected_version: text::opt(*expected_version),
                op: *op,
            },
            PlannedChange::Remove { path, display, expected_content, expected_version } =>
            ChangeView::Remove {
                path: path@,
                display: display@,
                expected_content: expected_content@,
                expected_version: text::opt(*expected_version),
            },
            PlannedChange::Move {
                from,
                from_display,
                to,
                to_display,
                content,
                expected_content,
                expected_version,
            } => ChangeView::Move {
                from: from@,
                from_display: from_display@,
                to: to@,
                to_display: to_display@,
                content: content@,
                expected_content: expected_content@,
                expected_version: text::opt(*expected_version),
            },
        }
    }
}

/// A validated section.
#[derive(Debug)]
pub struct PlannedSection {
    pub section_no: usize,
    pub label: String,
    pub change: PlannedChange,
}

/// What a [`PlannedSection`] stands for.
pub struct PlannedView {
    pub section_no: nat,
    pub label: Seq<char>,
    pub change: ChangeView,
}

impl View for PlannedSection {
    type V = PlannedView;

    open spec fn view(&self) -> PlannedView {
        PlannedView {
            section_no: self.section_no as nat,
            label: self.label@,
            change: self.change@,
        }
    }
}

/// What sections do to files, by the place of each.
pub type Changes = Map<PlaceView, Option<Seq<char>>>;

/// The files that the sections planned so far leave behind, by their place: `Some(content)`
/// where one creates or rewrites a file, `None` where one removes it. Others are as on disk.
pub struct Overlay {
    entries: Vec<(Place, Option<String>)>,
}

/// The state that a list of changes leaves, later ones first.
pub open spec fn entries_view(e: Seq<(Place, Option<String>)>) -> Changes
    decreases e.len(),
{
    if e.len() == 0 {
        Map::empty()
    } else {
        entries_view(e.drop_last()).insert(e.last().0@, text::opt(e.last().1))
    }
}

impl View for Overlay {
    type V = Changes;

    closed spec fn view(&self) -> Changes {
        entries_view(self.entries@)
    }
}

impl Overlay {
    /// Every path is as on disk.
    pub fn new() -> (r: Overlay)
        ensures
            r@ == Changes::empty(),
    {
        Overlay { entries: Vec::new() }
    }

    /// The state of the file at a place, where a section changed it.
    pub fn get(&self, at: &Place) -> (r: Option<Option<String>>)
        ensures
            r is Some == self@.dom().contains(at@),
            r matches Some(state) ==> text::opt(state) == self@[at@],
    {
        let mut i: usize = self.entries.len();
        assert(self.entries@.take(i as int) =~= self.entries@);
        while i > 0
            invariant
                i <= self.entries.len(),
                entries_view(self.entries@.take(i as int)).dom().contains(at@)
                    == self@.dom().contains(at@),
                self@.dom().contains(at@) ==> entries_view(
                    self.entries@.take(i as int),
                )[at@] == self@[at@],
            decreases i,
        {
            let ghost longer = self.entries@.take(i as int);
            assert(longer.drop_last() =~= self.entries@.take(i - 1));
            assert(longer.last() == self.entries@[i - 1]);
            i -= 1;
            if self.entries[i].0.is_same(at) {
                return Some(self.entries[i].1.clone());
            }
        }
        None
    }

    /// The state with the file at a place set.
    pub fn put(self, at: Place, state: Option<String>) -> (r: Overlay)
        ensures
            r@ == self@.insert(at@, text::opt(state)),
    {
        let mut entries = self.entries;
        let ghost before = entries@;
        entries.push((at, state));
        assert(entries@.drop_last() =~= before);
        Overlay { entries }
    }
}

/// The content of a section's file as the sections before it leave it, and the version on
/// disk where none of them touched it.
pub open spec fn current(
    overlay: Changes,
    at: PlaceView,
    facts: PathFacts,
) -> Result<(Seq<char>, Option<Seq<char>>), Seq<char>> {
    if overlay.dom().contains(at) {
        match overlay[at] {
            Some(content) => Ok((content, None)),
            None => Err("file not found"@),
        }
    } else {
        match facts.entry {
            Err(e) => Err(e@),
            Ok(DiskEntry::Absent) => Err("file not found"@),
            Ok(DiskEntry::Symlink) => Err("Symlinks are not allowed"@),
            Ok(DiskEntry::Other) => Err("not a regular file"@),
            Ok(DiskEntry::File) => match facts.read {
                FileRead::Changed => Err(
                    "file changed while the patch was being planned; re-read it and retry"@,
                ),
                FileRead::NotText => Err("file is not valid UTF-8"@),
                FileRead::Text { content, version } => Ok((content@, Some(version@))),
            },
        }
    }
}

/// The content of a section's file as the sections before it leave it.
fn current_content(overlay: &Overlay, at: &Place, facts: &PathFacts) -> (r: Result<
    (String, Option<String>),
    String,
>)
    ensures
        (match r {
            Ok((content, version)) => Ok((content@, text::opt(version))),
            Err(e) => Err(e@),
        }) == current(overlay@, at@, *facts),
{
    match overlay.get(at) {
        Some(Some(content)) => Ok((content, None)),
        Some(None) => Err("file not found".to_owned()),
        None => match &facts.entry {
            Err(e) => Err(e.clone()),
            Ok(DiskEntry::Absent) => Err("file not found".to_owned()),
            Ok(DiskEntry::Symlink) => Err("Symlinks are not allowed".to_owned()),
            Ok(DiskEntry::Other) => Err("not a regular file".to_owned()),
            Ok(DiskEntry::File) => match &facts.read {
                FileRead::Changed => Err(
                    "file changed while the patch was being planned; re-read it and retry"
                        .to_owned(),
                ),
                FileRead::NotText => Err("file is not valid UTF-8".to_owned()),
                FileRead::Text { content, version } => Ok((content.clone(), Some(version.clone()))),
            },
        },
    }
}

/// Whether anything occupies a path once the sections before have run.
pub open spec fn occupied(
    overlay: Changes,
    at: PlaceView,
    facts: PathFacts,
) -> Result<bool, Seq<char>> {
    if overlay.dom().contains(at) {
        Ok(overlay[at] is Some)
    } else {
        match facts.entry {
            Err(e) => Err(e@),
            Ok(entry) => Ok(entry != DiskEntry::Absent),
        }
    }
}

/// Whether anything occupies a path once the sections before have run.
fn overlay_entry_exists(overlay: &Overlay, at: &Place, facts: &PathFacts) -> (r: Result<
    bool,
    String,
>)
    ensures
        (match r {
            Ok(b) => Ok(b),
            Err(e) => Err(e@),
        }) == occupied(overlay@, at@, *facts),
{
    match overlay.get(at) {
        Some(state) => Ok(state.is_some()),
        None => match &facts.entry {
            Err(e) => Err(e.clone()),
            Ok(entry) => Ok(*entry != DiskEntry::Absent),
        },
    }
}

/// The change that a section comes to, and the overlay after it.
pub open spec fn planned_change(
    op: OpView,
    facts: SectionFacts,
    overlay: Changes,
    windows: bool,
) -> Result<(ChangeView, Changes), Seq<char>> {
    match op {
        OpView::Add { path, content } => match resolved(path, facts.source.found, windows) {
            Err(e) => Err(e),
            Ok(at) => match occupied(overlay, paths::place(at, windows), facts.source) {
                Err(e) => Err(e),
                Ok(true) => Err(
                    "file already exists (Add File requires the path to be absent)"@,
                ),
                Ok(false) => Ok(
                    (
                        ChangeView::Write {
                            path: at,
                            display: path,
                            content,
                            expected_content: None,
                            expected_version: None,
                            op: OpKind::Add,
                        },
                        overlay.insert(paths::place(at, windows), Some(content)),
                    ),
                ),
            },
        },
        OpView::Delete { path } => match resolved(path, facts.source.found, windows) {
            Err(e) => Err(e),
            Ok(at) => match current(overlay, paths::place(at, windows), facts.source) {
                Err(e) => Err(e),
                Ok((content, version)) => Ok(
                    (
                        ChangeView::Remove {
                            path: at,
                            display: path,
                            expected_content: content,
                            expected_version: version,
                        },
                        overlay.insert(paths::place(at, windows), None),
                    ),
                ),
            },
        },
        OpView::Update { path, move_to, hunks } => match resolved(path, facts.source.found, windows) {
            Err(e) => Err(e),
            Ok(at) => match current(overlay, paths::place(at, windows), facts.source) {
                Err(e) => Err(e),
                Ok((content, version)) => match patch::updated(content, hunks) {
                    Err(e) => Err(e),
                    Ok(fresh) => planned_update(
                        path,
                        at,
                        move_to,
                        content,
                        version,
                        fresh,
                        facts.dest,
                        overlay,
                        windows,
                    ),
                },
            },
        },
    }
}

/// The change that an update comes to once its hunks have been applied. A move to the file's
/// own place is an update in place.
pub open spec fn planned_update(
    path: Seq<char>,
    at: Seq<char>,
    move_to: Option<Seq<char>>,
    content: Seq<char>,
    version: Option<Seq<char>>,
    fresh: Seq<char>,
    dest: PathFacts,
    overlay: Changes,
    windows: bool,
) -> Result<(ChangeView, Changes), Seq<char>> {
    let in_place = Ok(
        (
            ChangeView::Write {
                path: at,
                display: path,
                content: fresh,
                expected_content: Some(content),
                expected_version: version,
                op: OpKind::Update,
            },
            overlay.insert(paths::place(at, windows), Some(fresh)),
        ),
    );
    match move_to {
        None => in_place,
        Some(dest_path) => match resolved(dest_path, dest.found, windows) {
            Err(e) => Err(e),
            Ok(to) => if paths::place(to, windows) == paths::place(at, windows) {
                in_place
            } else {
                match occupied(overlay, paths::place(to, windows), dest) {
                    Err(e) => Err(e),
                    Ok(true) => Err("move destination already exists: "@ + dest_path),
                    Ok(false) => Ok(
                        (
                            ChangeView::Move {
                                from: at,
                                from_display: path,
                                to,
                                to_display: dest_path,
                                content: fresh,
                                expected_content: content,
                                expected_version: version,
                            },
                            overlay.insert(paths::place(at, windows), None).insert(
                                paths::place(to, windows),
                                Some(fresh),
                            ),
                        ),
                    ),
                }
            },
        },
    }
}

/// The view of a planned change or of the message that stands in its place.
pub open spec fn change_or_text(r: Result<(PlannedChange, Overlay), String>) -> Result<
    (ChangeView, Changes),
    Seq<char>,
> {
    match r {
        Ok((c, o)) => Ok((c@, o@)),
        Err(e) => Err(e@),
    }
}

/// Plans an update once its hunks have been applied.
fn plan_update(
    path: &String,
    at: String,
    move_to: &Option<String>,
    content: String,
    version: Option<String>,
    fresh: String,
    dest: &PathFacts,
    overlay: Overlay,
    windows: bool,
) -> (r: Result<(PlannedChange, Overlay), String>)
    ensures
        change_or_text(r) == planned_update(
            path@,
            at@,
            text::opt(*move_to),
            content@,
            text::opt(version),
            fresh@,
            *dest,
            overlay@,
            windows,
        ),
{
    let key = place_of(&at, windows);
    if let Some(dest_path) = move_to {
        let to = match resolve_patch_path(dest_path, &dest.found, windows) {
            Ok(to) => to,
            Err(e) => {
                return Err(e);
            },
        };
        let dest_key = place_of(&to, windows);
        if !dest_key.is_same(&key) {
            match overlay_entry_exists(&overlay, &dest_key, dest) {
                Err(e) => {
                    return Err(e);
                },
                Ok(true) => {
                    return Err(cat("move destination already exists: ", dest_path));
                },
                Ok(false) => {},
            }
            let overlay = overlay.put(key, None).put(dest_key, Some(fresh.clone()));
            return Ok(
                (
                    PlannedChange::Move {
                        from: at,
                        from_display: path.clone(),
                        to,
                        to_display: dest_path.clone(),
                        content: fresh,
                        expected_content: content,
                        expected_version: version,
                    },
                    overlay,
                ),
            );
        }
    }
    let overlay = overlay.put(key, Some(fresh.clone()));
    Ok(
        (
            PlannedChange::Write {
                path: at,
                display: path.clone(),
                content: fresh,
                expected_content: Some(content),
                expected_version: version,
                op: OpKind::Update,
            },
            overlay,
        ),
    )
}

/// Plans one section.
fn plan_change(op: &PatchOp, facts: &SectionFacts, overlay: Overlay, windows: bool) -> (r: Result<
    (PlannedChange, Overlay),
    String,
>)
    ensures
        change_or_text(r) == planned_change(op@, *facts, overlay@, windows),
{
    let path = match op {
        PatchOp::Add { path, .. } => path,
        PatchOp::Delete { path } => path,
        PatchOp::Update { path, .. } => path,
    };
    let at = match resolve_patch_path(path, &facts.source.found, windows) {
        Ok(at) => at,
        Err(e) => {
            return Err(e);
        },
    };
    let key = place_of(&at, windows);
    match op {
        PatchOp::Add { path, content } => match overlay_entry_exists(
            &overlay,
            &key,
            &facts.source,
        ) {
            Err(e) => Err(e),
            Ok(true) => Err(
                "file already exists (Add File requires the path to be absent)".to_owned(),
            ),
            Ok(false) => {
                let overlay = overlay.put(key, Some(content.clone()));
                Ok(
                    (
                        PlannedChange::Write {
                            path: at,
                            display: path.clone(),
                            content: content.clone(),
                            expected_content: None,
                            expected_version: None,
                            op: OpKind::Add,
                        },
                        overlay,
                    ),
                )
            },
        },
        PatchOp::Delete { path } => match current_content(&overlay, &key, &facts.source) {
            Err(e) => Err(e),
            Ok((content, version)) => {
                let overlay = overlay.put(key, None);
                Ok(
                    (
                        PlannedChange::Remove {
                            path: at,
                            display: path.clone(),
                            expected_content: content,
                            expected_version: version,
                        },
                        overlay,
                    ),
                )
            },
        },
        PatchOp::Update { path, move_to, hunks } => match current_content(
            &overlay,
            &key,
            &facts.source,
        ) {
            Err(e) => Err(e),
            Ok((content, version)) => match apply_codex_hunks(&content, hunks) {
                Err(e) => Err(e),
                Ok(fresh) => plan_update(
                    path,
                    at,
                    move_to,
                    content,
                    version,
                    fresh,
                    &facts.dest,
                    overlay,
                    windows,
                ),
            },
        },
    }
}

/// The plan of the sections from number `i` on.
pub open spec fn plan_from(
    ops: Seq<OpView>,
    facts: Seq<SectionFacts>,
    i: int,
    overlay: Changes,
    windows: bool,
) -> Result<Seq<PlannedView>, Seq<char>>
    decreases ops.len() - i,
{
    if i >= ops.len() {
        Ok(Seq::empty())
    } else {
        let label = patch::label_view(ops[i]);
        let no = (i + 1) as nat;
        match planned_change(ops[i], facts[i], overlay, windows) {
            Err(detail) => Err(
                "section "@ + text::dec(no) + " ("@ + label + "): "@ + detail,
            ),
            Ok((change, after)) => match plan_from(ops, facts, i + 1, after, windows) {
                Err(e) => Err(e),
                Ok(rest) => Ok(
                    seq![PlannedView { section_no: no, label, change }] + rest,
                ),
            },
        }
    }
}

/// The plan of a patch: all of its sections, or the message for the first that cannot be
/// carried out.
pub open spec fn plan_view(ops: Seq<OpView>, facts: Seq<SectionFacts>, windows: bool) -> Result<
    Seq<PlannedView>,
    Seq<char>,
> {
    plan_from(ops, facts, 0, Map::empty(), windows)
}

/// Puts planned sections in front of what the rest of a patch comes to.
spec fn after_plan(done: Seq<PlannedView>, rest: Result<Seq<PlannedView>, Seq<char>>) -> Result<
    Seq<PlannedView>,
    Seq<char>,
> {
    match rest {
        Ok(r) => Ok(done + r),
        Err(e) => Err(e),
    }
}

/// Plans every section of a patch against what was observed on disk. Sections see what those
/// before them will have done.
pub fn plan_sections(ops: &Vec<PatchOp>, facts: &Vec<SectionFacts>, windows: bool) -> (r: Result<
    Vec<PlannedSection>,
    String,
>)
    requires
        facts.len() == ops.len(),
    ensures
        text::list_or_text(r) == plan_view(text::views(ops@), facts@, windows),
{
    broadcast use text::lemma_views_push;

    let mut overlay = Overlay::new();
    let mut plan: Vec<PlannedSection> = Vec::new();
    let mut i: usize = 0;
    let ghost ov = text::views(ops@);
    let ghost all = plan_view(ov, facts@, windows);
    proof {
        text::lemma_views_empty(plan@);
        if let Ok(r) = all {
            assert(text::views(plan@) + r =~= r);
        }
    }
    while i < ops.len()
        invariant
            i <= ops.len(),
            facts.len() == ops.len(),
            ov == text::views(ops@),
            all == plan_view(ov, facts@, windows),
            after_plan(text::views(plan@), plan_from(ov, facts@, i as int, overlay@, windows)) == all,
        decreases ops.len() - i,
    {
        let ghost before = text::views(plan@);
        let ghost rest = plan_from(ov, facts@, i as int, overlay@, windows);
        let op = &ops[i];
        assert(op@ == ov[i as int]);
        let label = op.label();
        match plan_change(op, &facts[i], overlay, windows) {
            Err(detail) => {
                let mut e = cat5("section ", &dec_string(i as u128 + 1), " (", &label, "): ");
                e.append(&detail);
                return Err(e);
            },
            Ok((change, next)) => {
                overlay = next;
                plan.push(PlannedSection { section_no: i + 1, label, change });
            },
        }
        i += 1;
        proof {
            if let Ok(r) = plan_from(ov, facts@, i as int, overlay@, windows) {
                assert(text::views(plan@) + r =~= before + (rest->Ok_0));
            }
        }
    }
    assert(text::views(plan@) + Seq::<PlannedView>::empty() =~= text::views(plan@));
    Ok(plan)
}

/// The code under which a refused mutation of a file that has changed is reported.
pub const STALE_MUTATION_CODE: &'static str = "stale_file_version";

/// How far the section in progress has come.
#[derive(Debug)]
pub enum Stage {
    /// An existing file is to be rewritten.
    Rewriting,
    /// The directories of a new file are to be made.
    MakingParents,
    /// A new file is to be written.
    Creating,
    /// The version of a file to be removed or moved is to be looked up.
    Observing,
    /// The directories of a move's destination are to be made.
    MakingMoveParents { version: String },
    /// A move's destination is to be written.
    CreatingMoved { version: String },
    /// A file is to be removed, if it still has this version.
    Removing { version: String },
}

/// What a [`Stage`] stands for.
pub enum StageView {
    Rewriting,
    MakingParents,
    Creating,
    Observing,
    MakingMoveParents { version: Seq<char> },
    CreatingMoved { version: Seq<char> },
    Removing { version: Seq<char> },
}

impl View for Stage {
    type V = StageView;

    open spec fn view(&self) -> StageView {
        match self {
            Stage::Rewriting => StageView::Rewriting,
            Stage::MakingParents => StageView::MakingParents,
            Stage::Creating => StageView::Creating,
            Stage::Observing => StageView::Observing,
            Stage::MakingMoveParents { version } => StageView::MakingMoveParents {
                version: version@,
            },
            Stage::CreatingMoved { version } => StageView::CreatingMoved { version: version@ },
            Stage::Removing { version } => StageView::Removing { version: version@ },
        }
    }
}

/// The stage in which a section starts.
pub open spec fn first_stage(change: ChangeView) -> StageView {
    match change {
        ChangeView::Write { expected_content: Some(_), .. } => StageView::Rewriting,
        ChangeView::Write { expected_content: None, .. } => StageView::MakingParents,
        ChangeView::Remove { expected_version: Some(version), .. } => StageView::Removing {
            version,
        },
        ChangeView::Remove { expected_version: None, .. } => StageView::Observing,
        ChangeView::Move { expected_version: Some(version), .. } =>
        StageView::MakingMoveParents { version },
        ChangeView::Move { expected_version: None, .. } => StageView::Observing,
    }
}

/// The stage in which a section starts.
fn start_stage(change: &PlannedChange) -> (r: Stage)
    ensures
        r@ == first_stage(change@),
{
    match change {
        PlannedChange::Write { expected_content, .. } => match expected_content {
            Some(_) => Stage::Rewriting,
            None => Stage::MakingParents,
        },
        PlannedChange::Remove { expected_version, .. } => match expected_version {
            Some(version) => Stage::Removing { version: version.clone() },
            None => Stage::Observing,
        },
        PlannedChange::Move { expected_version, .. } => match expected_version {
            Some(version) => Stage::MakingMoveParents { version: version.clone() },
            None => Stage::Observing,
        },
    }
}

/// Why a guarded file operation was refused or failed.
#[derive(Debug)]
pub struct GuardFailure {
    pub output: String,
    pub error_code: Option<String>,
    /// Whether the file may have been modified all the same.
    pub touched: bool,
}

/// What came of the action that a run asked for.
#[derive(Debug)]
pub enum Event {
    /// The directories were made, or not.
    Parents(Result<(), String>),
    /// The bytes and the version of a file, or why they could not be had.
    Observed(Result<(Vec<u8>, String), String>),
    /// The file was written or removed, or not.
    Mutation(Result<(), GuardFailure>),
}

/// Whether an event answers what a stage asks for.
pub open spec fn answers(stage: StageView, event: Event) -> bool {
    match stage {
        StageView::Rewriting => event is Mutation,
        StageView::MakingParents => event is Parents,
        StageView::Creating => event is Mutation,
        StageView::Observing => event is Observed,
        StageView::MakingMoveParents { .. } => event is Parents,
        StageView::CreatingMoved { .. } => event is Mutation,
        StageView::Removing { .. } => event is Mutation,
    }
}

/// Whether a stage belongs to a change.
pub open spec fn stage_of(change: ChangeView, stage: StageView) -> bool {
    match change {
        ChangeView::Write { expected_content: Some(_), .. } => stage is Rewriting,
        ChangeView::Write { expected_content: None, .. } => stage is MakingParents
            || stage is Creating,
        ChangeView::Remove { .. } => stage is Observing || stage is Removing,
        ChangeView::Move { .. } => stage is Observing || stage is MakingMoveParents
            || stage is CreatingMoved || stage is Removing,
    }
}

/// The state of a path that a failed section may have modified.
#[derive(Debug, Clone, Copy, PartialEq, Eq, Structural)]
pub enum PartialNote {
    /// The content was written in full.
    Written,
    /// The write may have failed partway.
    Unknown,
}

/// How a state of a path is described.
pub open spec fn note_view(n: PartialNote) -> Seq<char> {
    match n {
        PartialNote::Written => "written"@,
        PartialNote::Unknown => "may have been created, truncated, or partially written"@,
    }
}

impl PartialNote {
    /// How this state is described.
    pub fn as_str(&self) -> (r: &'static str)
        ensures
            r@ == note_view(*self),
    {
        match self {
            PartialNote::Written => "written",
            PartialNote::Unknown => "may have been created, truncated, or partially written",
        }
    }
}

/// A path that a failed section may have modified before it failed.
#[derive(Debug)]
pub struct PartialPath {
    pub display: String,
    pub resolved: String,
    pub note: PartialNote,
}

/// What a [`PartialPath`] stands for.
pub struct PartialView {
    pub display: Seq<char>,
    pub resolved: Seq<char>,
    pub note: PartialNote,
}

impl View for PartialPath {
    type V = PartialView;

    open spec fn view(&self) -> PartialView {
        PartialView { display: self.display@, resolved: self.resolved@, note: self.note }
    }
}

/// A section that was carried out.
#[derive(Debug)]
pub struct AppliedOp {
    pub op: OpKind,
    /// The path as the patch names it; for a move, that of the destination.
    pub display: String,
    /// The source of a move as the patch names it.
    pub from_display: Option<String>,
    /// The paths on disk.
    pub touched: Vec<String>,
}

/// What an [`AppliedOp`] stands for.
#[verifier::ext_equal]
pub struct AppliedView {
    pub op: OpKind,
    pub display: Seq<char>,
    pub from_display: Option<Seq<char>>,
    pub touched: Seq<Seq<char>>,
}

impl View for AppliedOp {
    type V = AppliedView;

    open spec fn view(&self) -> AppliedView {
        AppliedView {
            op: self.op,
            display: self.display@,
            from_display: text::opt(self.from_display),
            touched: text::views(self.touched@),
        }
    }
}

/// A section that failed.
#[derive(Debug)]
pub struct SectionFailure {
    pub error: String,
    pub partial: Vec<PartialPath>,
    pub error_code: Option<String>,
}

/// What a [`SectionFailure`] stands for.
#[verifier::ext_equal]
pub struct SectionFailureView {
    pub error: Seq<char>,
    pub partial: Seq<PartialView>,
    pub error_code: Option<Seq<char>>,
}

impl View for SectionFailure {
    type V = SectionFailureView;

    open spec fn view(&self) -> SectionFailureView {
        SectionFailureView {
            error: self.error@,
            partial: text::views(self.partial@),
            error_code: text::opt(self.error_code),
        }
    }
}

/// How a failed file operation fails its section: a file that may have been touched is
/// reported as such.
pub open spec fn guarded(failure: GuardFailure, display: Seq<char>, path: Seq<char>) -> SectionFailureView {
    SectionFailureView {
        error: failure.output@,
        partial: if failure.touched {
            seq![PartialView { display, resolved: path, note: PartialNote::Unknown }]
        } else {
            Seq::empty()
        },
        error_code: text::opt(failure.error_code),
    }
}

/// How a failed file operation fails its section.
fn guarded_section_failure(failure: &GuardFailure, display: &str, path: &str) -> (r: SectionFailure)
    ensures
        r@ == guarded(*failure, display@, path@),
{
    broadcast use text::lemma_views_push;

    let mut partial: Vec<PartialPath> = Vec::new();
    proof {
        text::lemma_views_empty(partial@);
    }
    if failure.touched {
        partial.push(
            PartialPath {
                display: display.to_owned(),
                resolved: path.to_owned(),
                note: PartialNote::Unknown,
            },
        );
    }
    let r = SectionFailure {
        error: failure.output.clone(),
        partial,
        error_code: failure.error_code.clone(),
    };
    assert(r@.partial =~= guarded(*failure, display@, path@).partial);
    r
}

/// A failure before anything could have been touched.
pub open spec fn clean_failure(error: Seq<char>, error_code: Option<Seq<char>>) -> SectionFailureView {
    SectionFailureView { error, partial: Seq::empty(), error_code }
}

/// A failure before anything could have been touched.
fn untouched_failure(error: String, error_code: Option<String>) -> (r: SectionFailure)
    ensures
        r@ == clean_failure(error@, text::opt(error_code)),
{
    let r = SectionFailure { error, partial: Vec::new(), error_code };
    proof {
        text::lemma_views_empty(r.partial@);
    }
    r
}

/// What an event makes of a section: it goes on, it is done, or it has failed.
#[derive(Debug)]
pub enum Outcome {
    Continue(Stage),
    Applied(AppliedOp),
    Failed(SectionFailure),
}

/// What an [`Outcome`] stands for.
pub enum OutcomeView {
    Continue(StageView),
    Applied(AppliedView),
    Failed(SectionFailureView),
}

impl View for Outcome {
    type V = OutcomeView;

    open spec fn view(&self) -> OutcomeView {
        match self {
            Outcome::Continue(s) => OutcomeView::Continue(s@),
            Outcome::Applied(a) => OutcomeView::Applied(a@),
            Outcome::Failed(f) => OutcomeView::Failed(f@),
        }
    }
}

/// The version of a file whose bytes must still be those of `expected`.
pub open spec fn matching_version(
    observed: Result<(Vec<u8>, String), String>,
    expected: Seq<char>,
) -> Result<Seq<char>, Seq<char>> {
    match observed {
        Err(e) => Err(e@),
        Ok((bytes, version)) => if bytes@ == vstd::utf8::encode_utf8(expected) {
            Ok(version@)
        } else {
            Err(
                "["@ + STALE_MUTATION_CODE@
                    + "] apply_patch refused: the planned file context changed. Re-read the affected file, review its current content, then retry with a new patch."@,
            )
        },
    }
}

/// Whether two byte rows are the same.
fn same_bytes(a: &[u8], b: &[u8]) -> (r: bool)
    ensures
        r == (a@ == b@),
{
    if a.len() != b.len() {
        return false;
    }
    let mut i: usize = 0;
    while i < a.len()
        invariant
            i <= a.len(),
            a.len() == b.len(),
            forall|k: int| 0 <= k < i ==> a@[k] == b@[k],
        decreases a.len() - i,
    {
        if a[i] != b[i] {
            return false;
        }
        i += 1;
    }
    assert(a@ =~= b@);
    true
}

/// The version of a file whose bytes must still be those of `expected`.
fn current_version_matching(
    observed: &Result<(Vec<u8>, String), String>,
    expected: &str,
) -> (r: Result<String, String>)
    ensures
        text::text_or_text(r) == matching_version(*observed, expected@),
{
    match observed {
        Err(e) => Err(e.clone()),
        Ok((bytes, version)) => {
            if same_bytes(bytes.as_slice(), expected.as_bytes()) {
                Ok(version.clone())
            } else {
                Err(
                    cat3(
                        "[",
                        STALE_MUTATION_CODE,
                        "] apply_patch refused: the planned file context changed. Re-read the affected file, review its current content, then retry with a new patch.",
                    ),
                )
            }
        },
    }
}

/// What a section looks like once it is done.
pub open spec fn applied_view(change: ChangeView) -> AppliedView {
    match change {
        ChangeView::Write { path, display, op, .. } => AppliedView {
            op,
            display,
            from_display: None,
            touched: seq![path],
        },
        ChangeView::Remove { path, display, .. } => AppliedView {
            op: OpKind::Delete,
            display,
            from_display: None,
            touched: seq![path],
        },
        ChangeView::Move { from, from_display, to, to_display, .. } => AppliedView {
            op: OpKind::Move,
            display: to_display,
            from_display: Some(from_display),
            touched: seq![from, to],
        },
    }
}

/// What a section looks like once it is done.
fn applied_op(change: &PlannedChange) -> (r: AppliedOp)
    ensures
        r@ == applied_view(change@),
{
    broadcast use text::lemma_views_push;

    let mut touched: Vec<String> = Vec::new();
    proof {
        text::lemma_views_empty(touched@);
    }
    let r = match change {
        PlannedChange::Write { path, display, op, .. } => {
            touched.push(path.clone());
            AppliedOp { op: *op, display: display.clone(), from_display: None, touched }
        },
        PlannedChange::Remove { path, display, .. } => {
            touched.push(path.clone());
            AppliedOp {
                op: OpKind::Delete,
                display: display.clone(),
                from_display: None,
                touched,
            }
        },
        PlannedChange::Move { from, from_display, to, to_display, .. } => {
            touched.push(from.clone());
            touched.push(to.clone());
            AppliedOp {
                op: OpKind::Move,
                display: to_display.clone(),
                from_display: Some(from_display.clone()),
                touched,
            }
        },
    };
    assert(r@.touched =~= applied_view(change@).touched);
    r
}

/// How a move whose source could not be removed fails: its destination has been written.
pub open spec fn half_moved(
    from_display: Seq<char>,
    to: Seq<char>,
    to_display: Seq<char>,
    failure: GuardFailure,
) -> SectionFailureView {
    SectionFailureView {
        error: "wrote "@ + to_display + " but failed to remove "@ + from_display + ": "@
            + failure.output@,
        partial: seq![
            PartialView { display: to_display, resolved: to, note: PartialNote::Written },
        ],
        error_code: text::opt(failure.error_code),
    }
}

/// What the event makes of a section of the given change and stage.
pub open spec fn advanced(change: ChangeView, stage: StageView, event: Event) -> OutcomeView {
    match (change, stage, event) {
        (
            ChangeView::Write { path, display, .. },
            StageView::Rewriting,
            Event::Mutation(done),
        ) => match done {
            Ok(()) => OutcomeView::Applied(applied_view(change)),
            Err(f) => OutcomeView::Failed(guarded(f, display, path)),
        },
        (ChangeView::Write { .. }, StageView::MakingParents, Event::Parents(made)) => match made {
            Ok(()) => OutcomeView::Continue(StageView::Creating),
            Err(e) => OutcomeView::Failed(
                clean_failure("failed to create parent directories: "@ + e@, None),
            ),
        },
        (
            ChangeView::Write { path, display, .. },
            StageView::Creating,
            Event::Mutation(done),
        ) => match done {
            Ok(()) => OutcomeView::Applied(applied_view(change)),
            Err(f) => OutcomeView::Failed(guarded(f, display, path)),
        },
        (
            ChangeView::Remove { expected_content, .. },
            StageView::Observing,
            Event::Observed(observed),
        ) => match matching_version(observed, expected_content) {
            Ok(version) => OutcomeView::Continue(StageView::Removing { version }),
            Err(e) => OutcomeView::Failed(clean_failure(e, Some(STALE_MUTATION_CODE@))),
        },
        (
            ChangeView::Remove { path, display, .. },
            StageView::Removing { .. },
            Event::Mutation(done),
        ) => match done {
            Ok(()) => OutcomeView::Applied(applied_view(change)),
            Err(f) => OutcomeView::Failed(guarded(f, display, path)),
        },
        (
            ChangeView::Move { expected_content, .. },
            StageView::Observing,
            Event::Observed(observed),
        ) => match matching_version(observed, expected_content) {
            Ok(version) => OutcomeView::Continue(StageView::MakingMoveParents { version }),
            Err(e) => OutcomeView::Failed(clean_failure(e, Some(STALE_MUTATION_CODE@))),
        },
        (
            ChangeView::Move { .. },
            StageView::MakingMoveParents { version },
            Event::Parents(made),
        ) => match made {
            Ok(()) => OutcomeView::Continue(StageView::CreatingMoved { version }),
            Err(e) => OutcomeView::Failed(
                clean_failure("failed to create parent directories: "@ + e@, None),
            ),
        },
        (
            ChangeView::Move { to, to_display, .. },
            StageView::CreatingMoved { version },
            Event::Mutation(done),
        ) => match done {
            Ok(()) => OutcomeView::Continue(StageView::Removing { version }),
            Err(f) => OutcomeView::Failed(guarded(f, to_display, to)),
        },
        (
            ChangeView::Move { from_display, to, to_display, .. },
            StageView::Removing { .. },
            Event::Mutation(done),
        ) => match done {
            Ok(()) => OutcomeView::Applied(applied_view(change)),
            Err(f) => OutcomeView::Failed(half_moved(from_display, to, to_display, f)),
        },
        _ => OutcomeView::Continue(stage),
    }
}

/// Reports a failure to make directories.
fn parents_failure(e: &str) -> (r: Outcome)
    ensures
        r@ == OutcomeView::Failed(
            clean_failure("failed to create parent directories: "@ + e@, None),
        ),
{
    Outcome::Failed(untouched_failure(cat("failed to create parent directories: ", e), None))
}

/// Reports that a file to be removed or moved has changed.
fn stale_failure(e: String) -> (r: Outcome)
    ensures
        r@ == OutcomeView::Failed(clean_failure(e@, Some(STALE_MUTATION_CODE@))),
{
    Outcome::Failed(untouched_failure(e, Some(STALE_MUTATION_CODE.to_owned())))
}

/// Reports that a move's source could not be removed.
fn half_move_failure(
    from_display: &str,
    to: &str,
    to_display: &str,
    failure: &GuardFailure,
) -> (r: SectionFailure)
    ensures
        r@ == half_moved(from_display@, to@, to_display@, *failure),
{
    broadcast use text::lemma_views_push;

    let mut error = cat5(
        "wrote ",
        to_display,
        " but failed to remove ",
        from_display,
        ": ",
    );
    error.append(&failure.output);
    let mut partial: Vec<PartialPath> = Vec::new();
    proof {
        text::lemma_views_empty(partial@);
    }
    partial.push(
        PartialPath {
            display: to_display.to_owned(),
            resolved: to.to_owned(),
            note: PartialNote::Written,
        },
    );
    let r = SectionFailure { error, partial, error_code: failure.error_code.clone() };
    assert(r@.partial =~= half_moved(from_display@, to@, to_display@, *failure).partial);
    r
}

/// What the event makes of a section of the given change and stage.
fn advance(change: &PlannedChange, stage: Stage, event: &Event) -> (r: Outcome)
    requires
        stage_of(change@, stage@),
        answers(stage@, *event),
    ensures
        r@ == advanced(change@, stage@, *event),
{
    match (stage, event) {
        (Stage::Observing, Event::Observed(observed)) => match change {
            PlannedChange::Remove { expected_content, .. } => match current_version_matching(
                observed,
                expected_content,
            ) {
                Ok(version) => Outcome::Continue(Stage::Removing { version }),
                Err(e) => stale_failure(e),
            },
            PlannedChange::Move { expected_content, .. } => match current_version_matching(
                observed,
                expected_content,
            ) {
                Ok(version) => Outcome::Continue(Stage::MakingMoveParents { version }),
                Err(e) => stale_failure(e),
            },
            _ => Outcome::Continue(Stage::Observing),
        },
        (Stage::MakingParents, Event::Parents(made)) => match made {
            Ok(()) => Outcome::Continue(Stage::Creating),
            Err(e) => parents_failure(e),
        },
        (Stage::MakingMoveParents { version }, Event::Parents(made)) => match made {
            Ok(()) => Outcome::Continue(Stage::CreatingMoved { version }),
            Err(e) => parents_failure(e),
        },
        (Stage::CreatingMoved { version }, Event::Mutation(done)) => match done {
            Ok(()) => Outcome::Continue(Stage::Removing { version }),
            Err(f) => match change {
                PlannedChange::Move { to, to_display, .. } => Outcome::Failed(
                    guarded_section_failure(f, to_display, to),
                ),
                _ => Outcome::Continue(Stage::CreatingMoved { version }),
            },
        },
        (stage, Event::Mutation(done)) => match done {
            Ok(()) => Outcome::Applied(applied_op(change)),
            Err(f) => match change {
                PlannedChange::Write { path, display, .. } => Outcome::Failed(
                    guarded_section_failure(f, display, path),
                ),
                PlannedChange::Remove { path, display, .. } => Outcome::Failed(
                    guarded_section_failure(f, display, path),
                ),
                PlannedChange::Move { from_display, to, to_display, .. } => Outcome::Failed(
                    half_move_failure(from_display, to, to_display, f),
                ),
            },
        },
        (stage, _) => Outcome::Continue(stage),
    }
}

/// The failure that stopped a patch.
#[derive(Debug)]
pub struct ApplyFailure {
    pub section_no: usize,
    pub label: String,
    pub error: String,
    /// Paths that the failed section may have modified before it failed.
    pub partial: Vec<PartialPath>,
    pub error_code: Option<String>,
}

/// What an [`ApplyFailure`] stands for.
#[verifier::ext_equal]
pub struct ApplyFailureView {
    pub section_no: nat,
    pub label: Seq<char>,
    pub error: Seq<char>,
    pub partial: Seq<PartialView>,
    pub error_code: Option<Seq<char>>,
}

impl View for ApplyFailure {
    type V = ApplyFailureView;

    open spec fn view(&self) -> ApplyFailureView {
        ApplyFailureView {
            section_no: self.section_no as nat,
            label: self.label@,
            error: self.error@,
            partial: text::views(self.partial@),
            error_code: text::opt(self.error_code),
        }
    }
}

/// The view of an optional failure.
pub open spec fn opt_failure(f: Option<ApplyFailure>) -> Option<ApplyFailureView> {
    match f {
        Some(f) => Some(f@),
        None => None,
    }
}

/// A plan that is being carried out.
pub struct Run {
    plan: Vec<PlannedSection>,
    at: usize,
    stage: Option<Stage>,
    applied: Vec<AppliedOp>,
    failure: Option<ApplyFailure>,
}

/// What a [`Run`] stands for: the plan, how many sections are done, the stage of the one in
/// progress (none where the run is over), what was applied and what stopped it.
#[verifier::ext_equal]
pub struct RunView {
    pub plan: Seq<PlannedView>,
    pub at: int,
    pub stage: Option<StageView>,
    pub applied: Seq<AppliedView>,
    pub failure: Option<ApplyFailureView>,
}

impl View for Run {
    type V = RunView;

    closed spec fn view(&self) -> RunView {
        RunView {
            plan: text::views(self.plan@),
            at: self.at as int,
            stage: match self.stage {
                Some(s) => Some(s@),
                None => None,
            },
            applied: text::views(self.applied@),
            failure: opt_failure(self.failure),
        }
    }
}

/// The stage in which section `at` of a plan starts, if there is one.
pub open spec fn stage_at(plan: Seq<PlannedView>, at: int) -> Option<StageView> {
    if 0 <= at < plan.len() {
        Some(first_stage(plan[at].change))
    } else {
        None
    }
}

/// A run in which nothing has been done.
pub open spec fn run_start(plan: Seq<PlannedView>) -> RunView {
    RunView {
        plan,
        at: 0,
        stage: stage_at(plan, 0),
        applied: Seq::empty(),
        failure: None,
    }
}

/// How a section's failure stops a patch.
pub open spec fn stopped(section: PlannedView, f: SectionFailureView) -> ApplyFailureView {
    ApplyFailureView {
        section_no: section.section_no,
        label: section.label,
        error: f.error,
        partial: f.partial,
        error_code: f.error_code,
    }
}

/// The run after an event. One that does not answer what the run asks for changes nothing.
pub open spec fn run_fed(run: RunView, event: Event) -> RunView {
    match run.stage {
        None => run,
        Some(stage) => if !answers(stage, event) {
            run
        } else {
            match advanced(run.plan[run.at].change, stage, event) {
                OutcomeView::Continue(next) => RunView { stage: Some(next), ..run },
                OutcomeView::Applied(op) => RunView {
                    at: run.at + 1,
                    stage: stage_at(run.plan, run.at + 1),
                    applied: run.applied.push(op),
                    ..run
                },
                OutcomeView::Failed(f) => RunView {
                    stage: None,
                    failure: Some(stopped(run.plan[run.at], f)),
                    ..run
                },
            }
        },
    }
}

/// The state of every run: what was applied is the first sections of the plan, in order; a
/// run that goes on is in a stage of its next section; one that failed names that section.
pub open spec fn run_ok(run: RunView) -> bool {
    &&& 0 <= run.at <= run.plan.len()
    &&& run.applied.len() == run.at
    &&& forall|i: int|
        0 <= i < run.at ==> #[trigger] run.applied[i] == applied_view(run.plan[i].change)
    &&& run.stage matches Some(stage) ==> {
        &&& run.at < run.plan.len()
        &&& stage_of(run.plan[run.at].change, stage)
        &&& run.failure is None
    }
    &&& run.stage is None ==> (run.failure is None <==> run.at == run.plan.len())
    &&& run.failure matches Some(f) ==> {
        &&& run.at < run.plan.len()
        &&& f.section_no == run.plan[run.at].section_no
        &&& f.label == run.plan[run.at].label
    }
}

/// A run starts well formed.
pub proof fn run_start_is_ok(plan: Seq<PlannedView>)
    ensures
        run_ok(run_start(plan)),
{
}

/// An event keeps a run well formed.
pub proof fn run_fed_is_ok(run: RunView, event: Event)
    requires
        run_ok(run),
    ensures
        run_ok(run_fed(run, event)),
{
    let next = run_fed(run, event);
    assert forall|i: int| 0 <= i < next.at implies #[trigger] next.applied[i] == applied_view(
        next.plan[i].change,
    ) by {
        if i < run.at {
            assert(next.applied[i] == run.applied[i]);
        }
    }
}

/// What a run asks to be done next.
#[derive(Debug)]
pub enum Action {
    /// Rewrite `path`, which must hold `expected_content`, and be at `expected_version` where
    /// one is given.
    Rewrite {
        path: String,
        expected_content: String,
        expected_version: Option<String>,
        content: String,
    },
    /// Make the directories above `path`.
    MakeParents { path: String },
    /// Create `path`, which must be absent.
    Create { path: String, content: String },
    /// Read the bytes and the version of `path`.
    Observe { path: String },
    /// Remove `path`, which must be at `version`.
    Remove { path: String, version: String },
}

/// What an [`Action`] stands for.
pub enum ActionView {
    Rewrite {
        path: Seq<char>,
        expected_content: Seq<char>,
        expected_version: Option<Seq<char>>,
        content: Seq<char>,
    },
    MakeParents { path: Seq<char> },
    Create { path: Seq<char>, content: Seq<char> },
    Observe { path: Seq<char> },
    Remove { path: Seq<char>, version: Seq<char> },
}

impl View for Action {
    type V = ActionView;

    open spec fn view(&self) -> ActionView {
        match self {
            Action::Rewrite { path, expected_content, expected_version, content } =>
            ActionView::Rewrite {
                path: path@,
                expected_content: expected_content@,
                expected_version: text::opt(*expected_version),
                content: content@,
            },
            Action::MakeParents { path } => ActionView::MakeParents { path: path@ },
            Action::Create { path, content } => ActionView::Create {
                path: path@,
                content: content@,
            },
            Action::Observe { path } => ActionView::Observe { path: path@ },
            Action::Remove { path, version } => ActionView::Remove {
                path: path@,
                version: version@,
            },
        }
    }
}

/// What a section of the given change asks for in the given stage.
pub open spec fn wanted(change: ChangeView, stage: StageView) -> Option<ActionView> {
    match (change, stage) {
        (
            ChangeView::Write {
                path,
                content,
                expected_content: Some(expected_content),
                expected_version,
                ..
            },
            StageView::Rewriting,
        ) => Some(
            ActionView::Rewrite { path, expected_content, expected_version, content },
        ),
        (ChangeView::Write { path, .. }, StageView::MakingParents) => Some(
            ActionView::MakeParents { path },
        ),
        (ChangeView::Write { path, content, .. }, StageView::Creating) => Some(
            ActionView::Create { path, content },
        ),
        (ChangeView::Remove { path, .. }, StageView::Observing) => Some(
            ActionView::Observe { path },
        ),
        (ChangeView::Remove { path, .. }, StageView::Removing { version }) => Some(
            ActionView::Remove { path, version },
        ),
        (ChangeView::Move { from, .. }, StageView::Observing) => Some(
            ActionView::Observe { path: from },
        ),
        (ChangeView::Move { to, .. }, StageView::MakingMoveParents { .. }) => Some(
            ActionView::MakeParents { path: to },
        ),
        (ChangeView::Move { to, content, .. }, StageView::CreatingMoved { .. }) => Some(
            ActionView::Create { path: to, content },
        ),
        (ChangeView::Move { from, .. }, StageView::Removing { version }) => Some(
            ActionView::Remove { path: from, version },
        ),
        _ => None,
    }
}

/// What a run asks for next; nothing once it is over.
pub open spec fn next_action(run: RunView) -> Option<ActionView> {
    match run.stage {
        Some(stage) => wanted(run.plan[run.at].change, stage),
        None => None,
    }
}

/// What a section of the given change asks for in the given stage.
fn wanted_action(change: &PlannedChange, stage: &Stage) -> (r: Option<Action>)
    ensures
        (match r {
            Some(a) => Some(a@),
            None => None,
        }) == wanted(change@, stage@),
{
    match change {
        PlannedChange::Write { path, content, expected_content, expected_version, .. } =>
        match stage {
            Stage::Rewriting => match expected_content {
                Some(expected) => Some(
                    Action::Rewrite {
                        path: path.clone(),
                        expected_content: expected.clone(),
                        expected_version: expected_version.clone(),
                        content: content.clone(),
                    },
                ),
                None => None,
            },
            Stage::MakingParents => Some(Action::MakeParents { path: path.clone() }),
            Stage::Creating => Some(
                Action::Create { path: path.clone(), content: content.clone() },
            ),
            _ => None,
        },
        PlannedChange::Remove { path, .. } => match stage {
            Stage::Observing => Some(Action::Observe { path: path.clone() }),
            Stage::Removing { version } => Some(
                Action::Remove { path: path.clone(), version: version.clone() },
            ),
            _ => None,
        },
        PlannedChange::Move { from, to, content, .. } => match stage {
            Stage::Observing => Some(Action::Observe { path: from.clone() }),
            Stage::MakingMoveParents { .. } => Some(Action::MakeParents { path: to.clone() }),
            Stage::CreatingMoved { .. } => Some(
                Action::Create { path: to.clone(), content: content.clone() },
            ),
            Stage::Removing { version } => Some(
                Action::Remove { path: from.clone(), version: version.clone() },
            ),
            _ => None,
        },
    }
}

/// Whether an event answers what a stage asks for.
fn is_answer(stage: &Stage, event: &Event) -> (r: bool)
    ensures
        r == answers(stage@, *event),
{
    match stage {
        Stage::Rewriting => matches!(event, Event::Mutation(_)),
        Stage::MakingParents => matches!(event, Event::Parents(_)),
        Stage::Creating => matches!(event, Event::Mutation(_)),
        Stage::Observing => matches!(event, Event::Observed(_)),
        Stage::MakingMoveParents { .. } => matches!(event, Event::Parents(_)),
        Stage::CreatingMoved { .. } => matches!(event, Event::Mutation(_)),
        Stage::Removing { .. } => matches!(event, Event::Mutation(_)),
    }
}

/// The stage in which section `at` starts, if there is one.
fn stage_of_section(plan: &Vec<PlannedSection>, at: usize) -> (r: Option<Stage>)
    ensures
        (match r {
            Some(s) => Some(s@),
            None => None,
        }) == stage_at(text::views(plan@), at as int),
{
    if at < plan.len() {
        assert(text::views(plan@)[at as int] == plan@[at as int]@);
        Some(start_stage(&plan[at].change))
    } else {
        None
    }
}

impl Run {
    /// Starts to carry out a plan.
    pub fn start(plan: Vec<PlannedSection>) -> (r: Run)
        ensures
            r@ == run_start(text::views(plan@)),
            run_ok(r@),
    {
        let stage = stage_of_section(&plan, 0);
        let r = Run { plan, at: 0, stage, applied: Vec::new(), failure: None };
        proof {
            text::lemma_views_empty(r.applied@);
        }
        r
    }

    /// What is to be done next; nothing once the run is over.
    pub fn action(&self) -> (r: Option<Action>)
        requires
            run_ok(self@),
        ensures
            (match r {
                Some(a) => Some(a@),
                None => None,
            }) == next_action(self@),
            r is None <==> self@.stage is None,
    {
        match &self.stage {
            Some(stage) => {
                assert(text::views(self.plan@)[self.at as int] == self.plan@[self.at as int]@);
                wanted_action(&self.plan[self.at].change, stage)
            },
            None => None,
        }
    }

    /// The run after what came of its action.
    pub fn feed(self, event: &Event) -> (r: Run)
        requires
            run_ok(self@),
        ensures
            r@ == run_fed(self@, *event),
            run_ok(r@),
    {
        broadcast use text::lemma_views_push;

        proof {
            run_fed_is_ok(self@, *event);
        }
        let Run { plan, at, stage, applied, failure } = self;
        let mut applied = applied;
        let stage = match stage {
            Some(stage) => stage,
            None => {
                return Run { plan, at, stage: None, applied, failure };
            },
        };
        if !is_answer(&stage, event) {
            return Run { plan, at, stage: Some(stage), applied, failure };
        }
        assert(at < plan.len());
        assert(text::views(plan@)[at as int] == plan@[at as int]@);
        match advance(&plan[at].change, stage, event) {
            Outcome::Continue(next) => Run { plan, at, stage: Some(next), applied, failure },
            Outcome::Applied(op) => {
                applied.push(op);
                let stage = stage_of_section(&plan, at + 1);
                Run { plan, at: at + 1, stage, applied, failure }
            },
            Outcome::Failed(f) => {
                let failure = Some(
                    ApplyFailure {
                        section_no: plan[at].section_no,
                        label: plan[at].label.clone(),
                        error: f.error,
                        partial: f.partial,
                        error_code: f.error_code,
                    },
                );
                Run { plan, at, stage: None, applied, failure }
            },
        }
    }
}

/// How an applied section is summed up.
pub open spec fn summary_view(a: AppliedView) -> Seq<char> {
    match a.op {
        OpKind::Add => "added "@ + a.display,
        OpKind::Update => "updated "@ + a.display,
        OpKind::Delete => "deleted "@ + a.display,
        OpKind::Move => "moved "@ + (match a.from_display {
            Some(from) => from,
            None => "?"@,
        }) + " -> "@ + a.display,
    }
}

/// How an applied section is listed.
pub open spec fn listed_view(a: AppliedView) -> Seq<char> {
    match a.from_display {
        Some(from) => from + " -> "@ + a.display,
        None => a.display,
    }
}

/// The preview of an applied section.
pub open spec fn preview_view(a: AppliedView) -> JsonView {
    let base = seq![
        ("op"@, JsonView::Text(kind_view(a.op))),
        ("path"@, JsonView::Text(a.display)),
    ];
    match a.from_display {
        Some(from) => JsonView::Object(base.push(("from"@, JsonView::Text(from)))),
        None => JsonView::Object(base),
    }
}

impl AppliedOp {
    /// How this section is summed up.
    pub fn summary(&self) -> (r: String)
        ensures
            r@ == summary_view(self@),
    {
        match self.op {
            OpKind::Add => cat("added ", &self.display),
            OpKind::Update => cat("updated ", &self.display),
            OpKind::Delete => cat("deleted ", &self.display),
            OpKind::Move => match &self.from_display {
                Some(from) => cat4("moved ", from, " -> ", &self.display),
                None => cat4("moved ", "?", " -> ", &self.display),
            },
        }
    }

    /// How this section is listed.
    pub fn display_for_output(&self) -> (r: String)
        ensures
            r@ == listed_view(self@),
    {
        match &self.from_display {
            Some(from) => cat3(from, " -> ", &self.display),
            None => self.display.clone(),
        }
    }

    /// The preview of this section.
    pub fn preview_entry(&self) -> (r: Json)
        ensures
            r@ == preview_view(self@),
    {
        let base = Fields::new().with("op", text_json(self.op.as_str())).with(
            "path",
            text_json(&self.display),
        );
        assert(base@ =~= seq![
            ("op"@, JsonView::Text(kind_view(self.op))),
            ("path"@, JsonView::Text(self.display@)),
        ]);
        match &self.from_display {
            Some(from) => base.with("from", text_json(from)).object(),
            None => base.object(),
        }
    }
}

/// How a partly modified path is described.
pub open spec fn partial_text(p: PartialView) -> Seq<char> {
    p.display + " ("@ + note_view(p.note) + ")"@
}

/// The summaries of applied sections.
pub open spec fn summaries(applied: Seq<AppliedView>) -> Seq<Seq<char>> {
    Seq::new(applied.len(), |i: int| summary_view(applied[i]))
}

/// The listing of applied sections.
pub open spec fn listing(applied: Seq<AppliedView>) -> Seq<Seq<char>> {
    Seq::new(applied.len(), |i: int| listed_view(applied[i]))
}

/// The paths of applied sections.
pub open spec fn displays(applied: Seq<AppliedView>) -> Seq<Seq<char>> {
    Seq::new(applied.len(), |i: int| applied[i].display)
}

/// The paths that a failed section left partly modified.
pub open spec fn partial_displays(partial: Seq<PartialView>) -> Seq<Seq<char>> {
    Seq::new(partial.len(), |i: int| partial[i].display)
}

/// The descriptions of partly modified paths.
pub open spec fn partial_texts(partial: Seq<PartialView>) -> Seq<Seq<char>> {
    Seq::new(partial.len(), |i: int| partial_text(partial[i]))
}

/// The previews of applied sections.
pub open spec fn previews(applied: Seq<AppliedView>) -> JsonView {
    JsonView::Array(Seq::new(applied.len(), |i: int| preview_view(applied[i])))
}

/// `paths` with each of the first `n` of `more` that it lacks put at its end.
pub open spec fn joined_paths(paths: Seq<Seq<char>>, more: Seq<Seq<char>>, n: int) -> Seq<Seq<char>>
    decreases n,
{
    if n <= 0 {
        paths
    } else {
        let before = joined_paths(paths, more, n - 1);
        if before.contains(more[n - 1]) {
            before
        } else {
            before.push(more[n - 1])
        }
    }
}

/// The first path that a run touched on disk, if it touched any.
pub open spec fn first_touched(
    applied: Seq<AppliedView>,
    failure: Option<ApplyFailureView>,
) -> Option<Seq<char>> {
    if applied.len() > 0 && applied[0].touched.len() > 0 {
        Some(applied[0].touched[0])
    } else {
        match failure {
            Some(f) => if f.partial.len() > 0 {
                Some(f.partial[0].resolved)
            } else {
                None
            },
            None => None,
        }
    }
}

/// The first path that a run touched on disk, if it touched any.
pub fn snapshot_seed(applied: &Vec<AppliedOp>, failure: &Option<ApplyFailure>) -> (r: Option<
    String,
>)
    ensures
        text::opt(r) == first_touched(text::views(applied@), opt_failure(*failure)),
{
    if applied.len() > 0 {
        assert(text::views(applied@)[0] == applied@[0]@);
        if applied[0].touched.len() > 0 {
            return Some(applied[0].touched[0].clone());
        }
    }
    match failure {
        Some(f) => {
            if f.partial.len() > 0 {
                Some(f.partial[0].resolved.clone())
            } else {
                None
            }
        },
        None => None,
    }
}

/// What is said of the state that a stopped patch left.
pub open spec fn state_text(applied: Seq<AppliedView>, partial: Seq<PartialView>) -> Seq<char> {
    if applied.len() == 0 && partial.len() == 0 {
        "No sections were applied; the workspace is unchanged."@
    } else {
        let done = if applied.len() > 0 {
            seq![
                "Already applied before the failure: "@ + text::join_view(
                    summaries(applied),
                    ", "@,
                ) + "."@,
            ]
        } else {
            Seq::empty()
        };
        let half = if partial.len() > 0 {
            seq![
                "The failed section left partial state on disk: "@ + text::join_view(
                    partial_texts(partial),
                    ", "@,
                ) + "."@,
            ]
        } else {
            Seq::empty()
        };
        text::join_view(done + half, " "@)
            + "\nRemaining sections were NOT applied — the workspace is partially patched; re-read the affected files before retrying."@
    }
}

/// The report of a stopped patch.
pub open spec fn failure_report(applied: Seq<AppliedView>, f: ApplyFailureView) -> ToolResultView {
    let half = partial_displays(f.partial);
    ToolResultView {
        output: "Patch failed at section "@ + text::dec(f.section_no) + " ("@ + f.label + "): "@
            + f.error + "\n"@ + state_text(applied, f.partial),
        success: false,
        file_modified: first_touched(applied, Some(f)),
        structured_metadata: Some(
            JsonView::Object(
                seq![
                    ("codex_tool"@, JsonView::Text("apply_patch"@)),
                    ("diff_preview"@, previews(applied)),
                    (
                        "modified_paths"@,
                        json::texts_view(
                            joined_paths(displays(applied), half, half.len() as int),
                        ),
                    ),
                    ("partial_paths"@, json::texts_view(half)),
                    ("failed_section"@, JsonView::Int(f.section_no as int)),
                    ("error_code"@, json::text_or_null(f.error_code)),
                ],
            ),
        ),
    }
}

/// The report of a patch that was carried out.
pub open spec fn success_report(applied: Seq<AppliedView>) -> ToolResultView {
    ToolResultView {
        output: "Applied patch to "@ + text::join_view(listing(applied), ", "@),
        success: true,
        file_modified: first_touched(applied, None),
        structured_metadata: Some(
            JsonView::Object(
                seq![
                    ("codex_tool"@, JsonView::Text("apply_patch"@)),
                    ("diff_preview"@, previews(applied)),
                    ("modified_paths"@, json::texts_view(displays(applied))),
                ],
            ),
        ),
    }
}

/// The report of a run that is over.
pub open spec fn report_view(
    applied: Seq<AppliedView>,
    failure: Option<ApplyFailureView>,
) -> ToolResultView {
    match failure {
        Some(f) => failure_report(applied, f),
        None => success_report(applied),
    }
}

/// What is said of the state that a stopped patch left.
fn describe_state(applied: &Vec<AppliedOp>, partial: &Vec<PartialPath>) -> (r: String)
    ensures
        r@ == state_text(text::views(applied@), text::views(partial@)),
{
    broadcast use text::lemma_views_push;

    if applied.len() == 0 && partial.len() == 0 {
        return "No sections were applied; the workspace is unchanged.".to_owned();
    }
    let mut parts: Vec<String> = Vec::new();
    proof {
        text::lemma_views_empty(parts@);
    }
    if applied.len() > 0 {
        let mut done: Vec<String> = Vec::new();
        let mut i: usize = 0;
        while i < applied.len()
            invariant
                i <= applied.len(),
                done.len() == i,
                forall|k: int| 0 <= k < i ==> #[trigger] done@[k]@ == summary_view(applied@[k]@),
            decreases applied.len() - i,
        {
            done.push(applied[i].summary());
            i += 1;
        }
        assert(text::views(done@) =~= summaries(text::views(applied@)));
        parts.push(cat3("Already applied before the failure: ", &join(&done, ", "), "."));
    }
    let ghost first = text::views(parts@);
    if partial.len() > 0 {
        let mut half: Vec<String> = Vec::new();
        let mut i: usize = 0;
        while i < partial.len()
            invariant
                i <= partial.len(),
                half.len() == i,
                forall|k: int| 0 <= k < i ==> #[trigger] half@[k]@ == partial_text(partial@[k]@),
            decreases partial.len() - i,
        {
            let p = &partial[i];
            half.push(cat4(&p.display, " (", p.note.as_str(), ")"));
            i += 1;
        }
        assert(text::views(half@) =~= partial_texts(text::views(partial@)));
        parts.push(
            cat3("The failed section left partial state on disk: ", &join(&half, ", "), "."),
        );
    }
    proof {
        let a = text::views(applied@);
        let p = text::views(partial@);
        let done = if a.len() > 0 {
            seq![
                "Already applied before the failure: "@ + text::join_view(summaries(a), ", "@)
                    + "."@,
            ]
        } else {
            Seq::empty()
        };
        let half = if p.len() > 0 {
            seq![
                "The failed section left partial state on disk: "@ + text::join_view(
                    partial_texts(p),
                    ", "@,
                ) + "."@,
            ]
        } else {
            Seq::empty()
        };
        assert(first =~= done);
        assert(text::views(parts@) =~= done + half);
    }
    cat(
        &join(&parts, " "),
        "\nRemaining sections were NOT applied — the workspace is partially patched; re-read the affected files before retrying.",
    )
}

/// Reports a run that is over: which sections were carried out and, where it was stopped, at
/// which section, why, and what that section may have left behind.
pub fn report(applied: &Vec<AppliedOp>, failure: &Option<ApplyFailure>) -> (r: ToolResult)
    ensures
        r@ == report_view(text::views(applied@), opt_failure(*failure)),
{
    broadcast use {text::lemma_views_push, json::lemma_array_view};

    let ghost av = text::views(applied@);
    let mut entries: Vec<Json> = Vec::new();
    let mut paths: Vec<String> = Vec::new();
    let mut listed: Vec<String> = Vec::new();
    let mut i: usize = 0;
    while i < applied.len()
        invariant
            i <= applied.len(),
            entries.len() == i,
            paths.len() == i,
            listed.len() == i,
            forall|k: int| 0 <= k < i ==> #[trigger] entries@[k]@ == preview_view(applied@[k]@),
            forall|k: int| 0 <= k < i ==> #[trigger] paths@[k]@ == applied@[k]@.display,
            forall|k: int| 0 <= k < i ==> #[trigger] listed@[k]@ == listed_view(applied@[k]@),
        decreases applied.len() - i,
    {
        entries.push(applied[i].preview_entry());
        paths.push(applied[i].display.clone());
        listed.push(applied[i].display_for_output());
        i += 1;
    }
    assert(text::views(entries@) =~= previews(av)->Array_0);
    assert(text::views(paths@) =~= displays(av));
    assert(text::views(listed@) =~= listing(av));
    let file_modified = snapshot_seed(applied, failure);
    match failure {
        Some(f) => {
            let mut half: Vec<String> = Vec::new();
            let ghost pv = text::views(f.partial@);
            let mut j: usize = 0;
            while j < f.partial.len()
                invariant
                    j <= f.partial.len(),
                    half.len() == j,
                    forall|k: int| 0 <= k < j ==> #[trigger] half@[k]@ == f.partial@[k]@.display,
                decreases f.partial.len() - j,
            {
                half.push(f.partial[j].display.clone());
                j += 1;
            }
            assert(text::views(half@) =~= partial_displays(pv));
            let mut m: usize = 0;
            while m < half.len()
                invariant
                    m <= half.len(),
                    text::views(paths@) == joined_paths(
                        displays(av),
                        text::views(half@),
                        m as int,
                    ),
                decreases half.len() - m,
            {
                assert(text::views(half@)[m as int] == half@[m as int]@);
                if !list_has(&paths, &half[m]) {
                    paths.push(half[m].clone());
                }
                m += 1;
            }
            let mut output = cat5(
                "Patch failed at section ",
                &dec_string(f.section_no as u128),
                " (",
                &f.label,
                "): ",
            );
            output.append(&f.error);
            output.append("\n");
            output.append(&describe_state(applied, &f.partial));
            let fields = Fields::new().with("codex_tool", text_json("apply_patch")).with(
                "diff_preview",
                Json::Array(entries),
            ).with("modified_paths", texts_json(&paths)).with(
                "partial_paths",
                texts_json(&half),
            ).with("failed_section", Json::Unsigned(f.section_no as u64)).with(
                "error_code",
                opt_text_json(&f.error_code),
            );
            assert(fields@ =~= failure_report(
                av,
                f@,
            ).structured_metadata->0->Object_0);
            ToolResult {
                output,
                success: false,
                file_modified,
                structured_metadata: Some(fields.object()),
            }
        },
        None => {
            let fields = Fields::new().with("codex_tool", text_json("apply_patch")).with(
                "diff_preview",
                Json::Array(entries),
            ).with("modified_paths", texts_json(&paths));
            assert(fields@ =~= success_report(av).structured_metadata->0->Object_0);
            ToolResult {
                output: cat("Applied patch to ", &join(&listed, ", ")),
                success: true,
                file_modified,
                structured_metadata: Some(fields.object()),
            }
        },
    }
}

impl Run {
    /// The sections that were carried out.
    pub fn applied(&self) -> (r: &Vec<AppliedOp>)
        ensures
            text::views(r@) == self@.applied,
    {
        &self.applied
    }

    /// What stopped the run, if anything did.
    pub fn failure(&self) -> (r: &Option<ApplyFailure>)
        ensures
            opt_failure(*r) == self@.failure,
    {
        &self.failure
    }

    /// Reports the run.
    pub fn report(&self) -> (r: ToolResult)
        ensures
            r@ == report_view(self@.applied, self@.failure),
    {
        report(&self.applied, &self.failure)
    }
}

/// The run of a plan after a row of events.
pub open spec fn run_after(plan: Seq<PlannedView>, events: Seq<Event>) -> RunView
    decreases events.len(),
{
    if events.len() == 0 {
        run_start(plan)
    } else {
        run_fed(run_after(plan, events.drop_last()), events.last())
    }
}

/// Whether a run is over.
pub open spec fn is_over(run: RunView) -> bool {
    run.stage is None
}

/// Whether an event says that a file was, or may have been, modified.
pub open spec fn modified_file(event: Event) -> bool {
    match event {
        Event::Mutation(Ok(())) => true,
        Event::Mutation(Err(f)) => f.touched,
        _ => false,
    }
}

/// Whether event `i` is one that the run took in.
pub open spec fn taken(plan: Seq<PlannedView>, events: Seq<Event>, i: int) -> bool {
    match run_after(plan, events.take(i)).stage {
        Some(stage) => answers(stage, events[i]),
        None => false,
    }
}

/// Whether a run has a trace of a modified file: a section that was applied, a path left
/// partly modified, or a move whose destination has been written.
spec fn has_trace(run: RunView) -> bool {
    ||| run.applied.len() > 0
    ||| run.failure matches Some(f) && f.partial.len() > 0
    ||| run.stage matches Some(StageView::Removing { .. }) && run.plan[run.at].change is Move
}

/// Every run is well formed, whatever comes of its actions.
pub proof fn every_run_is_ok(plan: Seq<PlannedView>, events: Seq<Event>)
    ensures
        run_ok(run_after(plan, events)),
        run_after(plan, events).plan == plan,
    decreases events.len(),
{
    if events.len() > 0 {
        every_run_is_ok(plan, events.drop_last());
        run_fed_is_ok(run_after(plan, events.drop_last()), events.last());
    }
}

proof fn lemma_trace(plan: Seq<PlannedView>, events: Seq<Event>, i: int)
    requires
        0 <= i < events.len(),
        taken(plan, events, i),
        modified_file(events[i]),
    ensures
        has_trace(run_after(plan, events)),
    decreases events.len(),
{
    let before = run_after(plan, events.drop_last());
    every_run_is_ok(plan, events.drop_last());
    if i < events.len() - 1 {
        assert(events.drop_last().take(i) =~= events.take(i));
        lemma_trace(plan, events.drop_last(), i);
    } else {
        assert(events.take(i) =~= events.drop_last());
    }
}

/// A stopped patch is reported as one that left the workspace unchanged only where no file
/// operation of the run modified a file or may have.
pub proof fn unchanged_claim_is_honest(plan: Seq<PlannedView>, events: Seq<Event>, i: int)
    requires
        is_over(run_after(plan, events)),
        run_after(plan, events).failure is Some,
        state_text(
            run_after(plan, events).applied,
            run_after(plan, events).failure->0.partial,
        ) == "No sections were applied; the workspace is unchanged."@,
        0 <= i < events.len(),
        taken(plan, events, i),
    ensures
        !modified_file(events[i]),
{
    let run = run_after(plan, events);
    if modified_file(events[i]) {
        lemma_trace(plan, events, i);
        let applied = run.applied;
        let partial = run.failure->0.partial;
        assert(applied.len() > 0 || partial.len() > 0);
        let tail = "\nRemaining sections were NOT applied — the workspace is partially patched; re-read the affected files before retrying."@;
        let t = state_text(applied, partial);
        assert(t.len() >= tail.len());
        reveal_strlit("No sections were applied; the workspace is unchanged.");
        reveal_strlit("\nRemaining sections were NOT applied — the workspace is partially patched; re-read the affected files before retrying.");
    }
}

/// The sections that a run carried out are the first ones of its plan, in order, and a run
/// that stopped names the section after them.
pub proof fn applied_sections_are_a_prefix(plan: Seq<PlannedView>, events: Seq<Event>)
    ensures
        ({
            let run = run_after(plan, events);
            &&& run.applied.len() <= plan.len()
            &&& forall|i: int|
                0 <= i < run.applied.len() ==> #[trigger] run.applied[i] == applied_view(
                    plan[i].change,
                )
            &&& is_over(run) && run.failure is None ==> run.applied.len() == plan.len()
            &&& run.failure matches Some(f) ==> run.applied.len() < plan.len() && f.section_no
                == plan[run.applied.len() as int].section_no
        }),
{
    every_run_is_ok(plan, events);
}

/// A plan has one section for each of the patch, numbered and named as the patch has them.
pub proof fn plan_covers_the_patch(ops: Seq<OpView>, facts: Seq<SectionFacts>, windows: bool)
    ensures
        plan_view(ops, facts, windows) matches Ok(plan) ==> {
            &&& plan.len() == ops.len()
            &&& forall|i: int|
                0 <= i < plan.len() ==> (#[trigger] plan[i]).section_no == i + 1 && plan[i].label
                    == patch::label_view(ops[i])
        },
{
    lemma_plan_from(ops, facts, 0, Map::empty(), windows);
}

proof fn lemma_plan_from(
    ops: Seq<OpView>,
    facts: Seq<SectionFacts>,
    i: int,
    overlay: Changes,
    windows: bool,
)
    requires
        0 <= i <= ops.len(),
    ensures
        plan_from(ops, facts, i, overlay, windows) matches Ok(plan) ==> {
            &&& plan.len() == ops.len() - i
            &&& forall|k: int|
                0 <= k < plan.len() ==> (#[trigger] plan[k]).section_no == i + k + 1
                    && plan[k].label == patch::label_view(ops[i + k])
        },
    decreases ops.len() - i,
{
    if i < ops.len() {
        if let Ok((change, after)) = planned_change(ops[i], facts[i], overlay, windows) {
            lemma_plan_from(ops, facts, i + 1, after, windows);
            if let Ok(rest) = plan_from(ops, facts, i + 1, after, windows) {
                let plan = plan_from(ops, facts, i, overlay, windows)->Ok_0;
                assert forall|k: int| 0 <= k < plan.len() implies (#[trigger] plan[k]).section_no
                    == i + k + 1 && plan[k].label == patch::label_view(ops[i + k]) by {
                    if k > 0 {
                        assert(plan[k] == rest[k - 1]);
                    }
                }
            }
        }
    }
}

/// A section sees what those before it did: a file added earlier in the patch is there to be
/// updated, with the content that it was added with, whatever stands on disk.
pub proof fn later_sections_see_earlier_ones(
    at: PlaceView,
    content: Seq<char>,
    facts: PathFacts,
    overlay: Changes,
)
    ensures
        current(overlay.insert(at, Some(content)), at, facts) == Ok::<
            (Seq<char>, Option<Seq<char>>),
            Seq<char>,
        >((content, None)),
        occupied(overlay.insert(at, Some(content)), at, facts) == Ok::<bool, Seq<char>>(true),
        current(overlay.insert(at, None), at, facts) == Err::<
            (Seq<char>, Option<Seq<char>>),
            Seq<char>,
        >("file not found"@),
        occupied(overlay.insert(at, None), at, facts) == Ok::<bool, Seq<char>>(false),
{
}

/// No section of a plan writes or removes at a path that the patch names as absolute or with
/// a `..` component.
pub proof fn unsafe_paths_are_never_planned(
    op: OpView,
    facts: SectionFacts,
    overlay: Changes,
    windows: bool,
)
    ensures
        planned_change(op, facts, overlay, windows) matches Ok((change, _)) ==> match change {
            ChangeView::Write { display, .. } => unsafe_path(display, windows) is None,
            ChangeView::Remove { display, .. } => unsafe_path(display, windows) is None,
            ChangeView::Move { from_display, to_display, .. } => unsafe_path(from_display, windows) is None
                && unsafe_path(to_display, windows) is None,
        },
{
}

/// The tool that applies patches of several files.
pub struct ApplyPatchTool {
    pub base_dir: String,
    pub filesystem_scope: FilesystemScope,
    pub file_access: FileAccessMode,
}

/// What a call asks for.
#[derive(Debug)]
pub enum PatchRequest {
    /// It is refused.
    Refuse(ToolResult),
    /// A unified diff for one file.
    Unified { path: String, diff: String },
    /// A patch envelope.
    Envelope(String),
}

/// What a [`PatchRequest`] stands for.
pub enum PatchRequestView {
    Refuse(ToolResultView),
    Unified { path: Seq<char>, diff: Seq<char> },
    Envelope(Seq<char>),
}

impl View for PatchRequest {
    type V = PatchRequestView;

    open spec fn view(&self) -> PatchRequestView {
        match self {
            PatchRequest::Refuse(r) => PatchRequestView::Refuse(r@),
            PatchRequest::Unified { path, diff } => PatchRequestView::Unified {
                path: path@,
                diff: diff@,
            },
            PatchRequest::Envelope(p) => PatchRequestView::Envelope(p@),
        }
    }
}

/// What a call with the given arguments asks for: a diff for one file goes before an
/// envelope.
pub open spec fn request_view(
    access: FileAccessMode,
    patch: Option<Seq<char>>,
    path: Option<Seq<char>>,
    diff: Option<Seq<char>>,
) -> PatchRequestView {
    if access == FileAccessMode::ReadOnly {
        PatchRequestView::Refuse(
            tool::plain_view(
                "apply_patch is not permitted by read-only filesystem access"@,
                false,
            ),
        )
    } else {
        match (path, diff, patch) {
            (Some(path), Some(diff), _) => PatchRequestView::Unified { path, diff },
            (_, _, Some(patch)) => PatchRequestView::Envelope(patch),
            (_, _, None) => PatchRequestView::Refuse(
                tool::plain_view("apply_patch requires either patch or {path,diff}"@, false),
            ),
        }
    }
}

impl ApplyPatchTool {
    /// A tool for the workspace at `base_dir`, which may change files.
    pub fn new(base_dir: &str) -> (r: Self)
        ensures
            r.base_dir@ == base_dir@,
            r.filesystem_scope == FilesystemScope::Workspace,
            r.file_access == FileAccessMode::ReadWrite,
    {
        ApplyPatchTool {
            base_dir: base_dir.to_owned(),
            filesystem_scope: FilesystemScope::Workspace,
            file_access: FileAccessMode::ReadWrite,
        }
    }

    /// The tool with another reach.
    pub fn with_filesystem_scope(self, filesystem_scope: FilesystemScope) -> (r: Self)
        ensures
            r == (ApplyPatchTool { filesystem_scope, ..self }),
    {
        ApplyPatchTool { filesystem_scope, ..self }
    }

    /// The tool with another access mode.
    pub fn with_file_access(self, file_access: FileAccessMode) -> (r: Self)
        ensures
            r == (ApplyPatchTool { file_access, ..self }),
    {
        ApplyPatchTool { file_access, ..self }
    }

    /// The name under which a model calls the tool.
    pub fn name(&self) -> (r: &'static str)
        ensures
            r@ == "apply_patch"@,
    {
        "apply_patch"
    }

    /// A patch changes several files, so calls never run side by side.
    pub fn concurrency_class(&self) -> (r: ConcurrencyClass)
        ensures
            r == ConcurrencyClass::Exclusive,
    {
        ConcurrencyClass::Exclusive
    }

    /// What a call with the given arguments asks for.
    pub fn request(
        &self,
        patch: Option<String>,
        path: Option<String>,
        diff: Option<String>,
    ) -> (r: PatchRequest)
        ensures
            r@ == request_view(
                self.file_access,
                text::opt(patch),
                text::opt(path),
                text::opt(diff),
            ),
    {
        if !self.file_access.allows_write() {
            return PatchRequest::Refuse(
                plain_failure(
                    "apply_patch is not permitted by read-only filesystem access".to_owned(),
                ),
            );
        }
        if let Some(path) = path {
            if let Some(diff) = diff {
                return PatchRequest::Unified { path, diff };
            }
        }
        match patch {
            Some(patch) => PatchRequest::Envelope(patch),
            None => PatchRequest::Refuse(
                plain_failure("apply_patch requires either patch or {path,diff}".to_owned()),
            ),
        }
    }
}

/// The answer to an envelope that cannot be parsed.
pub open spec fn malformed(e: Seq<char>) -> ToolResultView {
    tool::plain_view(
        "Failed to parse patch: "@ + e
            + "\n\nExpected envelope:\n*** Begin Patch\n*** Update File: <path>\n@@ <context marker>\n<space><context line>\n-<removed line>\n+<added line>\n*** End Patch\n(other sections: '*** Add File: <path>' with '+' lines, '*** Delete File: <path>', '*** Move to: <path>' after Update File)"@,
        false,
    )
}

/// The sections of an envelope, or the answer to one that cannot be parsed.
pub fn open_patch(patch: &str) -> (r: Result<Vec<PatchOp>, ToolResult>)
    ensures
        match (r, patch::envelope_view(patch@)) {
            (Ok(ops), Ok(v)) => text::views(ops@) == v,
            (Err(answer), Err(e)) => answer@ == malformed(e),
            _ => false,
        },
{
    match parse_patch_envelope(patch) {
        Ok(ops) => Ok(ops),
        Err(e) => Err(
            plain_failure(
                cat3(
                    "Failed to parse patch: ",
                    &e,
                    "\n\nExpected envelope:\n*** Begin Patch\n*** Update File: <path>\n@@ <context marker>\n<space><context line>\n-<removed line>\n+<added line>\n*** End Patch\n(other sections: '*** Add File: <path>' with '+' lines, '*** Delete File: <path>', '*** Move to: <path>' after Update File)",
                ),
            ),
        ),
    }
}

/// The answer to a patch that cannot be carried out.
pub open spec fn invalid(e: Seq<char>) -> ToolResultView {
    tool::plain_view(
        "Patch validation failed — "@ + e + ". No files were modified."@,
        false,
    )
}

/// Starts to carry out a patch whose every section can be, or gives the answer to one of
/// which a section cannot.
pub fn begin_patch(ops: &Vec<PatchOp>, facts: &Vec<SectionFacts>, windows: bool) -> (r: Result<Run, ToolResult>)
    requires
        facts.len() == ops.len(),
    ensures
        match (r, plan_view(text::views(ops@), facts@, windows)) {
            (Ok(run), Ok(plan)) => run@ == run_start(plan) && run_ok(run@),
            (Err(answer), Err(e)) => answer@ == invalid(e),
            _ => false,
        },
{
    match plan_sections(ops, facts, windows) {
        Ok(plan) => Ok(Run::start(plan)),
        Err(e) => Err(
            plain_failure(
                cat3("Patch validation failed — ", &e, ". No files were modified."),
            ),
        ),
    }
}

} // verus!
