//! The tool that creates a persistent task.
use vstd::prelude::*;

use crate::json::JsonValue;
use crate::text::{trim_text, trimmed};
use crate::tool::{optional_text, required_text, text_argument, ToolError};

verus! {

/// Creates a task in the manager `M`.
pub struct TaskCreateTool<M> {
    manager: M,
}

/// The description given to a new task: the trimmed description argument,
/// when that is not empty.
pub open spec fn task_description(input: JsonValue) -> Option<Seq<char>> {
    match text_argument(input, "description"@) {
        Some(d) => if trimmed(d).len() > 0 { Some(trimmed(d)) } else { None },
        None => None,
    }
}

impl<M> TaskCreateTool<M> {
    /// The manager that keeps the tasks.
    pub closed spec fn spec_manager(&self) -> M {
        self.manager
    }

    /// A tool that creates its tasks in `manager`.
    pub fn new(manager: M) -> (r: Self)
        ensures
            r.spec_manager() == manager,
    {
        TaskCreateTool { manager }
    }

    /// The manager that keeps the tasks.
    pub fn manager(&self) -> (r: &M)
        ensures
            *r == self.spec_manager(),
    {
        &self.manager
    }

    /// The name the model calls this tool by.
    pub fn name(&self) -> (r: &'static str)
        ensures
            r@ == "task_create"@,
    {
        "task_create"
    }

    /// The subject of the new task.
    pub fn subject(&self, input: &JsonValue) -> (r: Result<String, ToolError>)
        ensures
            match r {
                Ok(s) => text_argument(*input, "subject"@) == Some(s@),
                Err(e) => text_argument(*input, "subject"@) is None && e is InvalidArgument && e->InvalidArgument_0@ == "subject"@,
            },
    {
        required_text(input, "subject")
    }

    /// The description of the new task, if a non-blank one is given.
    pub fn description(&self, input: &JsonValue) -> (r: Option<String>)
        ensures
            match r {
                Some(d) => task_description(*input) == Some(d@),
                None => task_description(*input) is None,
            },
    {
        match optional_text(input, "description") {
            Some(d) => {
                let t = trim_text(d.as_str());
                if t.is_empty() {
                    None
                } else {
                    Some(t.to_owned())
                }
            },
            None => None,
        }
    }
}

} // verus!
