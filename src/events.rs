//! Events the turn worker delivers to the display layer, in order.
use vstd::prelude::*;
use crate::message::{Message, TodoItem, ToolCall};

verus! {

/// One state change delivered to the display layer.
#[derive(Debug, Clone)]
pub enum AppEvent {
    NewMessage(Message),
    /// A streamed piece of the reply's text.
    Token(String),
    /// A streamed piece of the model's reasoning.
    ThinkingToken(String),
    StatusUpdate(String),
    TodoUpdate(Vec<TodoItem>),
    Error(String),
    Finished,
    /// Question, options, call id, and a command waiting on the answer.
    PlanningRequest(String, Vec<String>, String, Option<(ToolCall, String)>),
    /// Plan text and call id.
    ConfirmationRequest(String, String),
    BashApprovalRequest(ToolCall, String),
    WebSearchApprovalRequest(ToolCall, String),
    /// From role, to role.
    RoleSwitch(String, String),
    /// Prompt tokens, completion tokens.
    UsageUpdate(usize, usize),
    /// Persona name and a streamed piece of its answer.
    MegamindToken(String, String),
    /// Persona name and its whole answer.
    MegamindAgentDone(String, String),
    MegamindComplete(String),
    /// Pause length in seconds.
    RateLimitPause(u64),
    RateLimitResume,
}

} // verus!
