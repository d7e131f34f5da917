//! What a permission check answers, and what the agent does with the answer.
use vstd::prelude::*;

use crate::tool::concat_str;

verus! {

/// What the permission rules say of a tool call.
#[derive(Clone, Copy, Debug, PartialEq, Eq, Structural)]
pub enum PermissionBehavior {
    Allow,
    Deny,
    Ask,
}

/// The answer of a permission check, with the reason for it.
#[derive(Debug)]
pub struct PermissionDecision {
    pub behavior: PermissionBehavior,
    pub reason: String,
}

/// What the agent does next with a tool call.
#[derive(Debug)]
pub enum PermissionStep {
    /// Run the tool.
    Run,
    /// Do not run it; this text stands as its result.
    Refuse(String),
    /// Ask the user first.
    AskUser,
}

/// The next step for a tool call on which the permission check gave `decision`.
pub fn permission_step(decision: &PermissionDecision) -> (r: PermissionStep)
    ensures
        match decision.behavior {
            PermissionBehavior::Allow => r is Run,
            PermissionBehavior::Ask => r is AskUser,
            PermissionBehavior::Deny => r is Refuse && r->Refuse_0@ == "Permission denied: "@ + decision.reason@,
        },
{
    match decision.behavior {
        PermissionBehavior::Allow => PermissionStep::Run,
        PermissionBehavior::Ask => PermissionStep::AskUser,
        PermissionBehavior::Deny => PermissionStep::Refuse(concat_str("Permission denied: ", decision.reason.as_str())),
    }
}

/// The result that stands for the tool `name` when the user refuses to run it.
pub fn user_denied_output(name: &str) -> (r: String)
    ensures
        r@ == "Permission denied by user for : "@ + name@,
{
    concat_str("Permission denied by user for : ", name)
}

} // verus!
