//! What tasks and model branches share, and the phases of a prompt.

use std::sync::Arc;

use octos_agent::prompt_context::{
    PromptContextManager, PromptContextPhase, PromptContextReport, PromptContextRequest,
};
use octos_agent::task_file_state::{ModelBranchFileState, TaskFileState};

fn branch(task: &TaskFileState<u32>, t: &str, s: &str, b: &str) -> Option<ModelBranchFileState<u32, u8>> {
    task.for_branch(t, s, b)
}

#[test]
fn branches_share_only_the_version_ledger() {
    let task = TaskFileState::for_local_workspace("/work", 0u32);
    let parent = branch(&task, "task", "session", "root").unwrap();
    let child = branch(&task, "task-child", "session-child", "child").unwrap();

    assert!(Arc::ptr_eq(parent.ledger(), child.ledger()));
    assert!(!Arc::ptr_eq(parent.receipts(), child.receipts()));
    assert_ne!(parent.receipts().owner.task_id, child.receipts().owner.task_id);
    assert!(child.receipts().receipts.is_empty());
    assert_eq!(child.task_state().workspace_id(), "/work");
}

#[test]
fn incomplete_branch_owner_disables_receipts() {
    let task = TaskFileState::for_local_workspace("/work", 0u32);
    assert!(branch(&task, "", "session", "root").is_none());
    assert!(branch(&task, "task", "", "root").is_none());
    assert!(branch(&task, "task", "session", "").is_none());
}

#[test]
fn workspace_rebind_keeps_ledger_but_changes_owner() {
    let parent = TaskFileState::for_local_workspace("/parent", 0u32);
    let child = parent.for_workspace("/child");
    assert!(Arc::ptr_eq(parent.ledger(), child.ledger()));
    assert_ne!(parent.workspace_id(), child.workspace_id());
    let again = TaskFileState::with_ledger_for_local_workspace("/x", parent.ledger().clone());
    assert!(Arc::ptr_eq(parent.ledger(), again.ledger()));
}

struct Plain;

impl PromptContextManager<String> for Plain {
    fn prepare_prompt(
        &self,
        request: PromptContextRequest,
        messages: &mut Vec<String>,
    ) -> Result<PromptContextReport, String> {
        messages.push(request.phase.as_str().to_string());
        Ok(PromptContextReport::default())
    }
}

#[test]
fn phases_have_names() {
    assert_eq!(PromptContextPhase::TurnStart.as_str(), "turn_start");
    assert_eq!(PromptContextPhase::Iteration.as_str(), "iteration");
    assert_eq!(PromptContextPhase::Retry.as_str(), "retry");

    let mut messages = Vec::new();
    let request = PromptContextRequest {
        phase: PromptContextPhase::Retry,
        iteration: 2,
        provider_name: "p".to_string(),
        model_id: "m".to_string(),
        context_window: 1000,
    };
    let report = Plain.prepare_prompt(request, &mut messages).unwrap();
    assert!(!report.prompt_replaced && report.generation.is_none());
    assert_eq!(messages, vec!["retry".to_string()]);
    assert!(Plain.prompt_cache_epoch_id().is_none());
    assert!(Plain.tool_output_projection_policy_id().is_none());
    Plain.observe_effective_provider_route("p", "m");
}
