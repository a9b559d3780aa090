//! The hook by which a session prepares the prompt of a model call.

use vstd::prelude::*;

verus! {

/// When a prompt is prepared.
#[derive(Debug, Clone, Copy, PartialEq, Eq, Structural)]
pub enum PromptContextPhase {
    /// Before the first call of a turn.
    TurnStart,
    /// Before a later call of it.
    Iteration,
    /// Before a call that is tried again.
    Retry,
}

/// The name of a phase.
pub open spec fn phase_name(p: PromptContextPhase) -> Seq<char> {
    match p {
        PromptContextPhase::TurnStart => "turn_start"@,
        PromptContextPhase::Iteration => "iteration"@,
        PromptContextPhase::Retry => "retry"@,
    }
}

impl PromptContextPhase {
    /// The phase's name.
    pub fn as_str(self) -> (r: &'static str)
        ensures
            r@ == phase_name(self),
    {
        match self {
            PromptContextPhase::TurnStart => "turn_start",
            PromptContextPhase::Iteration => "iteration",
            PromptContextPhase::Retry => "retry",
        }
    }
}

/// What prompt is prepared.
#[derive(Debug)]
pub struct PromptContextRequest {
    pub phase: PromptContextPhase,
    pub iteration: u32,
    pub provider_name: String,
    pub model_id: String,
    pub context_window: u32,
}

/// What came of it.
#[derive(Debug, Clone, Copy, PartialEq, Eq, Structural)]
pub struct PromptContextReport {
    /// Whether the messages were replaced.
    pub prompt_replaced: bool,
    /// Whether the conversation was shortened.
    pub compaction_performed: bool,
    pub messages_before: usize,
    pub messages_after: usize,
    pub token_estimate: Option<usize>,
    pub generation: Option<u64>,
}

impl Default for PromptContextReport {
    fn default() -> (r: Self)
        ensures
            r == (PromptContextReport {
                prompt_replaced: false,
                compaction_performed: false,
                messages_before: 0,
                messages_after: 0,
                token_estimate: None,
                generation: None,
            }),
    {
        PromptContextReport {
            prompt_replaced: false,
            compaction_performed: false,
            messages_before: 0,
            messages_after: 0,
            token_estimate: None,
            generation: None,
        }
    }
}

/// A session that prepares prompts, over messages of its own type.
pub trait PromptContextManager<Message> {
    /// Prepares the messages of a call.
    fn prepare_prompt(&self, request: PromptContextRequest, messages: &mut Vec<Message>) -> Result<
        PromptContextReport,
        String,
    >;

    /// The epoch of the prompt cache, where the session keeps one.
    fn prompt_cache_epoch_id(&self) -> (r: Option<String>)
        default_ensures
            r is None,
    {
        None
    }

    /// The policy by which tool output is shown to the model, where the session has one.
    fn tool_output_projection_policy_id(&self) -> (r: Option<String>)
        default_ensures
            r is None,
    {
        None
    }

    /// Learns which provider answered a call.
    fn observe_effective_provider_route(&self, provider_name: &str, model_id: &str) {
    }
}

} // verus!
