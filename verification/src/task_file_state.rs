//! What a task knows of files, and what each model branch was shown of them.

use std::sync::Arc;

use vstd::prelude::*;

use crate::text::own;

verus! {

/// Whose reads are recorded.
#[derive(Debug)]
pub struct ReadReceiptOwner {
    pub workspace_id: String,
    pub task_id: String,
    pub logical_session_id: String,
    pub model_branch_id: String,
}

/// What a [`ReadReceiptOwner`] stands for.
#[verifier::ext_equal]
pub struct OwnerView {
    pub workspace_id: Seq<char>,
    pub task_id: Seq<char>,
    pub logical_session_id: Seq<char>,
    pub model_branch_id: Seq<char>,
}

impl View for ReadReceiptOwner {
    type V = OwnerView;

    open spec fn view(&self) -> OwnerView {
        OwnerView {
            workspace_id: self.workspace_id@,
            task_id: self.task_id@,
            logical_session_id: self.logical_session_id@,
            model_branch_id: self.model_branch_id@,
        }
    }
}

/// Whether every part of an owner is known.
pub open spec fn complete(o: OwnerView) -> bool {
    &&& o.workspace_id.len() > 0
    &&& o.task_id.len() > 0
    &&& o.logical_session_id.len() > 0
    &&& o.model_branch_id.len() > 0
}

impl ReadReceiptOwner {
    /// An owner, where every part of it is known.
    pub fn new(workspace_id: &str, task_id: &str, session_id: &str, branch_id: &str) -> (r: Option<
        Self,
    >)
        ensures
            ({
                let o = OwnerView {
                    workspace_id: workspace_id@,
                    task_id: task_id@,
                    logical_session_id: session_id@,
                    model_branch_id: branch_id@,
                };
                &&& r is Some <==> complete(o)
                &&& r matches Some(owner) ==> owner@ == o
            }),
    {
        if workspace_id.is_empty() || task_id.is_empty() || session_id.is_empty()
            || branch_id.is_empty() {
            return None;
        }
        Some(
            ReadReceiptOwner {
                workspace_id: own(workspace_id),
                task_id: own(task_id),
                logical_session_id: own(session_id),
                model_branch_id: own(branch_id),
            },
        )
    }
}

/// What a model branch was shown: its owner, and the receipts in a store of its own.
#[derive(Debug)]
pub struct ReceiptStore<R> {
    pub owner: ReadReceiptOwner,
    pub receipts: Vec<R>,
}

/// What a task knows of files: the ledger of their versions, which branches share.
#[derive(Debug)]
pub struct TaskFileState<L> {
    workspace_id: String,
    ledger: Arc<L>,
}

impl<L> TaskFileState<L> {
    /// The id of the workspace.
    pub closed spec fn workspace(&self) -> Seq<char> {
        self.workspace_id@
    }

    /// The ledger.
    pub closed spec fn book(&self) -> Arc<L> {
        self.ledger
    }

    /// The state of a task in a workspace, with an empty ledger. The id is the path that the
    /// workspace has without links.
    pub fn for_local_workspace(workspace_id: &str, empty: L) -> (r: Self)
        ensures
            r.workspace() == workspace_id@,
            *r.book() == empty,
    {
        TaskFileState { workspace_id: own(workspace_id), ledger: Arc::new(empty) }
    }

    /// The state of a task in a workspace, with a ledger that is there.
    pub fn with_ledger_for_local_workspace(workspace_id: &str, ledger: Arc<L>) -> (r: Self)
        ensures
            r.workspace() == workspace_id@,
            r.book() == ledger,
    {
        TaskFileState { workspace_id: own(workspace_id), ledger }
    }

    /// The state of the same task in another workspace.
    pub fn for_workspace(&self, workspace_id: &str) -> (r: Self)
        ensures
            r.workspace() == workspace_id@,
            r.book() == self.book(),
    {
        TaskFileState { workspace_id: own(workspace_id), ledger: self.ledger.clone() }
    }

    /// The state of a model branch, where its owner is known: the task's ledger, and a store of
    /// receipts that is its own and empty.
    pub fn for_branch<R>(&self, task_id: &str, session_id: &str, branch_id: &str) -> (r: Option<
        ModelBranchFileState<L, R>,
    >)
        ensures
            ({
                let o = OwnerView {
                    workspace_id: self.workspace(),
                    task_id: task_id@,
                    logical_session_id: session_id@,
                    model_branch_id: branch_id@,
                };
                &&& r is Some <==> complete(o)
                &&& r matches Some(b) ==> {
                    &&& b.task().workspace() == self.workspace()
                    &&& b.task().book() == self.book()
                    &&& b.store().owner@ == o
                    &&& b.store().receipts@ == Seq::<R>::empty()
                }
            }),
    {
        match ReadReceiptOwner::new(&self.workspace_id, task_id, session_id, branch_id) {
            Some(owner) => Some(
                ModelBranchFileState {
                    task: TaskFileState {
                        workspace_id: own(&self.workspace_id),
                        ledger: self.ledger.clone(),
                    },
                    receipts: Arc::new(ReceiptStore { owner, receipts: Vec::new() }),
                },
            ),
            None => None,
        }
    }

    /// The id of the workspace.
    pub fn workspace_id(&self) -> (r: &str)
        ensures
            r@ == self.workspace(),
    {
        self.workspace_id.as_str()
    }

    /// The ledger.
    pub fn ledger(&self) -> (r: &Arc<L>)
        ensures
            *r == self.book(),
    {
        &self.ledger
    }
}

/// What a model branch knows of files, and what it was shown.
#[derive(Debug)]
pub struct ModelBranchFileState<L, R> {
    task: TaskFileState<L>,
    receipts: Arc<ReceiptStore<R>>,
}

impl<L, R> ModelBranchFileState<L, R> {
    /// The state of the task.
    pub closed spec fn task(&self) -> TaskFileState<L> {
        self.task
    }

    /// The receipts.
    pub closed spec fn store(&self) -> ReceiptStore<R> {
        *self.receipts
    }

    /// The state of the task.
    pub fn task_state(&self) -> (r: &TaskFileState<L>)
        ensures
            *r == self.task(),
    {
        &self.task
    }

    /// The ledger that the task's branches share.
    pub fn ledger(&self) -> (r: &Arc<L>)
        ensures
            *r == self.task().book(),
    {
        self.task.ledger()
    }

    /// The receipts of this branch.
    pub fn receipts(&self) -> (r: &Arc<ReceiptStore<R>>)
        ensures
            **r == self.store(),
    {
        &self.receipts
    }
}

} // verus!
