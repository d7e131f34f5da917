//! The tool that hands a task to a sub-agent with a fresh conversation.
use vstd::prelude::*;

use crate::json::{members_view, JsonValue, JsonView};
use crate::tool::{
    described, described_value, object_schema, object_value, optional_text, push_member,
    required_text, text_argument, typed, typed_value, ToolDescription, ToolDescriptionView,
    ToolError,
};

verus! {

/// Rounds a sub-agent may take.
pub const SUBAGENT_MAX_ROUNDS: usize = 30;

/// Spawns a sub-agent that shares the skill registry `R` and the memory `M`
/// but not the conversation.
pub struct SubAgentTool<R, M> {
    registry: R,
    memory_manager: M,
}

/// How the tool `task` presents itself to the model.
pub open spec fn task_description() -> ToolDescriptionView {
    ToolDescriptionView {
        name: "task"@,
        description: "Spawn a subagent with fresh context. It shares the filesystem but not conversation history."@,
        input_schema: object_schema(seq![("prompt"@, typed("string"@)), ("description"@, described("string"@, "Short description of the task"@))], seq!["prompt"@]),
    }
}

impl<R, M> SubAgentTool<R, M> {
    /// How this tool presents itself to the model.
    pub fn tool_spec(&self) -> (r: ToolDescription)
        ensures
            r@ == task_description(),
    {
        let mut props: Vec<(String, JsonValue)> = Vec::new();
        push_member(&mut props, "prompt", typed_value("string"));
        push_member(&mut props, "description", described_value("string", "Short description of the task"));
        assert(members_view(props@) =~= seq![("prompt"@, typed("string"@)), ("description"@, described("string"@, "Short description of the task"@))]);
        let required: [&str; 1] = ["prompt"];
        assert(required@.map_values(|x: &str| x@) =~= seq!["prompt"@]);
        ToolDescription {
            name: String::from_str("task"),
            description: String::from_str("Spawn a subagent with fresh context. It shares the filesystem but not conversation history."),
            input_schema: object_value(props, &required),
        }
    }

    /// The skills that the sub-agent can load.
    pub closed spec fn spec_registry(&self) -> R {
        self.registry
    }

    /// The memory that the sub-agent shares.
    pub closed spec fn spec_memory_manager(&self) -> M {
        self.memory_manager
    }

    /// A tool whose sub-agents use `registry` and `memory_manager`.
    pub fn new(registry: R, memory_manager: M) -> (r: Self)
        ensures
            r.spec_registry() == registry,
            r.spec_memory_manager() == memory_manager,
    {
        SubAgentTool { registry, memory_manager }
    }

    /// The skills that the sub-agent can load.
    pub fn registry(&self) -> (r: &R)
        ensures
            *r == self.spec_registry(),
    {
        &self.registry
    }

    /// The memory that the sub-agent shares.
    pub fn memory_manager(&self) -> (r: &M)
        ensures
            *r == self.spec_memory_manager(),
    {
        &self.memory_manager
    }

    /// The name the model calls this tool by.
    pub fn name(&self) -> (r: &'static str)
        ensures
            r@ == "task"@,
    {
        "task"
    }

    /// The prompt that starts the sub-agent.
    pub fn prompt(&self, input: &JsonValue) -> (r: Result<String, ToolError>)
        ensures
            match r {
                Ok(p) => text_argument(*input, "prompt"@) == Some(p@),
                Err(e) => text_argument(*input, "prompt"@) is None && e is InvalidArgument && e->InvalidArgument_0@ == "prompt"@,
            },
    {
        required_text(input, "prompt")
    }

    /// The short description of the task, if one is given.
    pub fn description(&self, input: &JsonValue) -> (r: Option<String>)
        ensures
            match r {
                Some(d) => text_argument(*input, "description"@) == Some(d@),
                None => text_argument(*input, "description"@) is None,
            },
    {
        optional_text(input, "description")
    }

    /// The line that announces a sub-agent started on `prompt`.
    pub fn announcement(&self, prompt: &str, description: &Option<String>) -> (r: String)
        ensures
            r@ == "> task - ("@ + (match description {
                Some(d) => d@,
                None => Seq::<char>::empty(),
            }) + "): "@ + prompt@,
    {
        let mut r = String::from_str("> task - (");
        match description {
            Some(d) => r.append(d.as_str()),
            None => {},
        }
        r.append("): ");
        r.append(prompt);
        proof {
            match description {
                Some(d) => {},
                None => {
                    assert("> task - ("@ + Seq::<char>::empty() =~= "> task - ("@);
                },
            }
        }
        r
    }
}

} // verus!
