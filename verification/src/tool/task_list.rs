//! The tool that lists the persistent tasks.
use vstd::prelude::*;

verus! {

/// Lists all tasks, kept by the manager `M`, with a summary of their status.
pub struct TaskListTool<M> {
    manager: M,
}

impl<M> TaskListTool<M> {
    /// The manager that keeps the tasks.
    pub closed spec fn spec_manager(&self) -> M {
        self.manager
    }

    /// A tool that lists the tasks of `manager`.
    pub fn new(manager: M) -> (r: Self)
        ensures
            r.spec_manager() == manager,
    {
        TaskListTool { manager }
    }

    /// The manager that keeps the tasks.
    pub fn manager(&self) -> (r: &M)
        ensures
            *r == self.spec_manager(),
    {
        &self.manager
    }

    /// The name the model calls this tool by.
    pub fn name(&self) -> (r: &'static str)
        ensures
            r@ == "task_list"@,
    {
        "task_list"
    }
}

} // verus!
