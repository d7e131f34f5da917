//! The tool that shows one persistent task.
use vstd::prelude::*;

use crate::json::JsonValue;
use crate::tool::{optional_u64, u64_argument, ToolError};

verus! {

/// Shows the full details of a task, kept by the manager `M`.
pub struct TaskGetTool<M> {
    manager: M,
}

impl<M> TaskGetTool<M> {
    /// The manager that keeps the tasks.
    pub closed spec fn spec_manager(&self) -> M {
        self.manager
    }

    /// A tool that reads its tasks from `manager`.
    pub fn new(manager: M) -> (r: Self)
        ensures
            r.spec_manager() == manager,
    {
        TaskGetTool { manager }
    }

    /// The manager that keeps the tasks.
    pub fn manager(&self) -> (r: &M)
        ensures
            *r == self.spec_manager(),
    {
        &self.manager
    }

    /// The name the model calls this tool by.
    pub fn name(&self) -> (r: &'static str)
        ensures
            r@ == "task_get"@,
    {
        "task_get"
    }

    /// The id of the task to show.
    pub fn task_id(&self, input: &JsonValue) -> (r: Result<u64, ToolError>)
        ensures
            match r {
                Ok(id) => u64_argument(*input, "task_id"@) == Some(id),
                Err(e) => u64_argument(*input, "task_id"@) is None && e is InvalidArgument && e->InvalidArgument_0@ == "task_id"@,
            },
    {
        match optional_u64(input, "task_id") {
            Some(id) => Ok(id),
            None => Err(ToolError::InvalidArgument(String::from_str("task_id"))),
        }
    }
}

} // verus!
