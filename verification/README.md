# demo_cc

The core of a small command-line coding agent, verified with Verus.

The agent keeps a conversation with a language model, sends it the tools it
may call, runs the calls the model asks for, and feeds their results back.
`src/` holds the logic of that loop with its contracts and proofs; `app/` holds
the program around it: the model client, the terminal, processes and files.

## Library (`src/`)

- `json.rs`: a plain model of JSON values, as tools receive them.
- `message.rs`: messages, content blocks and their views.
- `conversation.rs`: how the recorded conversation becomes the message list
  sent to the model. Proved: senders alternate, every tool request is followed
  by a user message, and that message opens with exactly one result per
  request, in order, holding no other result; normalizing that list again
  changes nothing.
- `agent.rs`: the loop state and the bound on rounds per turn; rounds of tool
  calls and their answers; the plan reminder; the system prompt and its parts;
  what the user's input asks for.
- `hook.rs`, `permission.rs`: the registered hooks of each kind, in order; the
  first blocking hook ending a run; what permission checks answer, and what the loop does with it.
- `prompt.rs`: prompts, their values, the registry of named templates, the
  system prompt and its builder; rendering goes through the `tera` template
  engine, which is handed plain templates only (tags made of words: values,
  conditions, loops).
- `tool/`: the argument handling, refusals, reports and descriptions of each
  tool, the session plan (at most 12 items, at most one in progress), and
  whether a path lies in the workspace.
- `text.rs`: the string operations taken from std, with their contracts, and
  a few written and proved here (decimal writing, text equality).

## Program (`app/`)

`app/main.rs` runs the agent in the terminal. Project instructions are read
from `AGENTS.md` files (in the workspace, the current directory and
`~/.agents/`). No permission rules are configured: in auto mode every call
runs, in the other modes the user is asked. Conversation compaction, memory
and skills are not part of this project.
