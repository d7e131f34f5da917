//! Core logic of a small coding agent: the conversation model sent to the
//! language model, the rules that keep that conversation well formed, the
//! session plan, the system prompt and the argument handling of each tool.
pub mod json;
pub mod text;
pub mod message;
pub mod conversation;
pub mod tool;
pub mod hook;
pub mod permission;
pub mod agent;
pub mod prompt;
