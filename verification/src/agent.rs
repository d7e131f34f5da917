//! The decisions of the agent loop: what it records of each response, when it
//! runs tools, how it answers them, and when it reminds the model of its plan.
//! Talking to the model, running the tools and the hooks is left to the caller.
use vstd::prelude::*;

use crate::conversation::{
    content_text, extract_text, lemma_result_ids_concat, lemma_result_ids_of_answers,
    normalize_messages, normalized, result_ids, tool_use_ids,
    tool_use_ids_of_blocks,
};
use crate::hook::{HookControl, ToolUse, ToolUseView};
use crate::message::{
    blocks_view, messages_view, BlockView, ContentBlock, ContentView, Message, MessageContent,
    MessageView, Role, StopReason,
};
use crate::prompt::{built, SystemPrompt, SystemPromptBuilderView};
use crate::text::{join_lines, join_with_newlines, split_words, str_eq, strings_view, trim_text, trimmed, words_of};
use crate::tool::{concat_str, optional_text, text_argument};

verus! {

/// Rounds without a plan update after which the model is reminded of its plan.
pub const PLAN_REMINDER_INTERVAL: usize = 3;

/// Most tokens the model may produce per response.
pub const MAX_TOKENS: u32 = 8000;

/// The text of the plan reminder.
pub open spec fn reminder_text() -> Seq<char> {
    "<reminder>Refresh your current plan before continuing.</reminder>"@
}

/// The tool calls among `bs`, in order.
pub open spec fn tool_uses_of(bs: Seq<BlockView>) -> Seq<ToolUseView>
    decreases bs.len(),
{
    if bs.len() == 0 {
        Seq::empty()
    } else {
        let rest = tool_uses_of(bs.drop_last());
        match bs.last() {
            BlockView::ToolUse { id, name, input } => rest.push(ToolUseView { id, name, input }),
            _ => rest,
        }
    }
}

/// The contents of a sequence of tool calls.
pub open spec fn tool_uses_view(s: Seq<ToolUse>) -> Seq<ToolUseView> {
    s.map_values(|u: ToolUse| u@)
}

/// The text that reports a tool call that a pre-call hook blocked for `reason`.
pub open spec fn pre_blocked_text(reason: Seq<char>) -> Seq<char> {
    "Tool blocked by PreToolUse hook: "@ + reason
}

/// The text that reports a tool call that a post-call hook blocked for `reason`.
pub open spec fn post_blocked_text(reason: Seq<char>) -> Seq<char> {
    "Tool blocked by PostToolUse hook: "@ + reason
}

/// The answers given to the tool calls of one response, in order, and what
/// the agent must do once all are answered.
pub struct ToolRound {
    requests: Vec<ToolUse>,
    results: Vec<ContentBlock>,
    used_todo: bool,
    compact: Option<Option<String>>,
    read_paths: Vec<String>,
}

impl ToolRound {
    /// The tool calls of the response.
    pub closed spec fn spec_requests(&self) -> Seq<ToolUse> {
        self.requests@
    }

    /// The answers given so far, in order.
    pub closed spec fn spec_results(&self) -> Seq<BlockView> {
        blocks_view(self.results@)
    }

    /// Whether the plan tool was among the calls answered so far.
    pub closed spec fn spec_used_todo(&self) -> bool {
        self.used_todo
    }

    /// The compaction asked for so far, with its focus.
    pub closed spec fn spec_compact(&self) -> Option<Option<Seq<char>>> {
        match self.compact {
            Some(Some(f)) => Some(Some(f@)),
            Some(None) => Some(None),
            None => None,
        }
    }

    /// The paths of the files read so far.
    pub closed spec fn spec_read_paths(&self) -> Seq<Seq<char>> {
        strings_view(self.read_paths@)
    }

    /// Whether every call has its answer.
    pub open spec fn spec_done(&self) -> bool {
        self.spec_results().len() >= self.spec_requests().len()
    }

    /// A round for the response made of `content`, with no answer yet.
    pub fn new(content: &Vec<ContentBlock>) -> (r: ToolRound)
        ensures
            tool_uses_view(r.spec_requests()) == tool_uses_of(blocks_view(content@)),
            r.spec_results() == Seq::<BlockView>::empty(),
            !r.spec_used_todo(),
            r.spec_compact() is None,
            r.spec_read_paths() == Seq::<Seq<char>>::empty(),
    {
        let ghost bv = blocks_view(content@);
        let mut requests: Vec<ToolUse> = Vec::new();
        let mut i: usize = 0;
        while i < content.len()
            invariant
                bv == blocks_view(content@),
                i <= content@.len(),
                tool_uses_view(requests@) == tool_uses_of(bv.subrange(0, i as int)),
            decreases content@.len() - i,
        {
            proof {
                assert(bv.subrange(0, i + 1).drop_last() =~= bv.subrange(0, i as int));
                assert(bv.subrange(0, i + 1).last() == content@[i as int]@);
            }
            match &content[i] {
                ContentBlock::ToolUse { id, name, input } => {
                    let ghost before = requests@;
                    let u = ToolUse { id: id.clone(), name: name.clone(), input: input.duplicate() };
                    requests.push(u);
                    assert(tool_uses_view(requests@) =~= tool_uses_view(before).push(u@));
                },
                _ => {},
            }
            i = i + 1;
        }
        assert(bv.subrange(0, content@.len() as int) =~= bv);
        let r = ToolRound {
            requests,
            results: Vec::new(),
            used_todo: false,
            compact: None,
            read_paths: Vec::new(),
        };
        assert(r.spec_results() =~= Seq::<BlockView>::empty());
        assert(r.spec_read_paths() =~= Seq::<Seq<char>>::empty());
        r
    }

    /// The next call that waits for its answer.
    pub fn next_request(&self) -> (r: Option<ToolUse>)
        ensures
            match r {
                Some(u) => !self.spec_done() && u@ == self.spec_requests()[self.spec_results().len() as int]@,
                None => self.spec_done(),
            },
    {
        let k = self.results.len();
        if k < self.requests.len() {
            Some(self.requests[k].duplicate())
        } else {
            None
        }
    }

    /// Whether the plan tool was among the calls answered so far.
    pub fn used_todo(&self) -> (r: bool)
        ensures
            r == self.spec_used_todo(),
    {
        self.used_todo
    }

    /// Whether every call has its answer.
    pub fn is_done(&self) -> (r: bool)
        ensures
            r == self.spec_done(),
    {
        self.results.len() >= self.requests.len()
    }

    /// Answers the next call, which a hook blocked before it ran, for `reason`.
    /// `tool_use_id` is the id of the call as the hooks left it.
    pub fn answer_blocked(&mut self, tool_use_id: String, reason: &str)
        requires
            !old(self).spec_done(),
        ensures
            final(self).spec_results() == old(self).spec_results().push(BlockView::ToolResult {
                tool_use_id: tool_use_id@,
                content: pre_blocked_text(reason@),
            }),
            final(self).spec_requests() == old(self).spec_requests(),
            final(self).spec_used_todo() == old(self).spec_used_todo(),
            final(self).spec_compact() == old(self).spec_compact(),
            final(self).spec_read_paths() == old(self).spec_read_paths(),
    {
        let ghost before = self.results@;
        let head = concat_str("Tool blocked by PreToolUse hook: ", reason);
        self.results.push(ContentBlock::ToolResult { tool_use_id, content: head });
        assert(blocks_view(self.results@) =~= blocks_view(before).push(self.results@.last()@));
    }

    /// Answers the next call, which ran with result `output` and whose
    /// post-call hooks answered `post_hook`.  `tool_use_id` is the id of the
    /// call as the hooks left it.  Notes a call of the plan tool, the path of a
    /// file read, and a request to compact the conversation.
    pub fn answer(&mut self, tool_use_id: String, output: String, post_hook: &HookControl)
        requires
            !old(self).spec_done(),
        ensures
            ({
                let k = old(self).spec_results().len() as int;
                let call = old(self).spec_requests()[k];
                &&& final(self).spec_results() == old(self).spec_results().push(BlockView::ToolResult {
                    tool_use_id: tool_use_id@,
                    content: match post_hook {
                        HookControl::Block(reason) => post_blocked_text(reason@),
                        HookControl::Continue => output@,
                    },
                })
                &&& final(self).spec_requests() == old(self).spec_requests()
                &&& final(self).spec_used_todo() == (old(self).spec_used_todo() || call.name@ == "todo"@)
                &&& final(self).spec_read_paths() == (if call.name@ == "read_file"@ && text_argument(call.input, "path"@) is Some {
                    old(self).spec_read_paths().push(text_argument(call.input, "path"@).unwrap())
                } else {
                    old(self).spec_read_paths()
                })
                &&& final(self).spec_compact() == (if call.name@ == "compact"@ {
                    Some(text_argument(call.input, "focus"@))
                } else {
                    old(self).spec_compact()
                })
            }),
    {
        let k = self.results.len();
        let ghost before = self.results@;
        let ghost paths0 = self.read_paths@;
        let content = match post_hook {
            HookControl::Block(reason) => {
                let c = concat_str("Tool blocked by PostToolUse hook: ", reason.as_str());
                c
            },
            HookControl::Continue => output,
        };
        self.results.push(ContentBlock::ToolResult { tool_use_id, content });
        assert(blocks_view(self.results@) =~= blocks_view(before).push(self.results@.last()@));
        let name = self.requests[k].name.as_str();
        if crate::text::str_eq(name, "todo") {
            self.used_todo = true;
        }
        if crate::text::str_eq(name, "read_file") {
            match optional_text(&self.requests[k].input, "path") {
                Some(path) => {
                    self.read_paths.push(path);
                    assert(strings_view(self.read_paths@) =~= strings_view(paths0).push(self.read_paths@.last()@));
                },
                None => {},
            }
        }
        if crate::text::str_eq(name, "compact") {
            let focus = optional_text(&self.requests[k].input, "focus");
            self.compact = Some(focus);
        }
    }
}

proof fn lemma_tool_use_ids_of_calls(bs: Seq<BlockView>)
    ensures
        tool_uses_of(bs).len() == tool_use_ids_of_blocks(bs).len(),
        forall|k: int| 0 <= k < tool_uses_of(bs).len() ==> (#[trigger] tool_uses_of(bs)[k]).id == tool_use_ids_of_blocks(bs)[k],
    decreases bs.len(),
{
    if bs.len() > 0 {
        lemma_tool_use_ids_of_calls(bs.drop_last());
    }
}

/// The reply that closes a round whose answers are `results`, opened by the
/// plan reminder when `reminded`.
pub open spec fn round_reply(results: Seq<BlockView>, reminded: bool) -> MessageView {
    MessageView {
        role: Role::User,
        content: ContentView::Blocks(
            if reminded { seq![BlockView::Text { text: reminder_text() }] + results } else { results },
        ),
    }
}

/// When every tool call of an assistant response made of `content` got its
/// answer under its own id, the user message that closes the round answers
/// exactly the tool requests of that response, in their order; without the
/// plan reminder, it holds nothing else.
pub proof fn lemma_round_reply_answers_requests(content: Seq<BlockView>, results: Seq<BlockView>, reminded: bool)
    requires
        results.len() == tool_uses_of(content).len(),
        forall|k: int| 0 <= k < results.len() ==> (#[trigger] results[k] matches BlockView::ToolResult { tool_use_id, .. }
            && tool_use_id == tool_uses_of(content)[k].id),
    ensures
        ({
            let reply = round_reply(results, reminded);
            let request = MessageView { role: Role::Assistant, content: ContentView::Blocks(content) };
            &&& crate::conversation::message_result_ids(reply) == tool_use_ids(request)
            &&& !reminded ==> crate::conversation::message_results_lead(reply)
        }),
{
    lemma_tool_use_ids_of_calls(content);
    let ids = tool_use_ids_of_blocks(content);
    assert forall|k: int| 0 <= k < results.len() implies (#[trigger] results[k] matches BlockView::ToolResult { tool_use_id, .. }
        && tool_use_id == ids[k]) by {
        assert(tool_uses_of(content)[k].id == ids[k]);
    }
    lemma_result_ids_of_answers(results, ids);
    let bs = if reminded { seq![BlockView::Text { text: reminder_text() }] + results } else { results };
    if reminded {
        let t = seq![BlockView::Text { text: reminder_text() }];
        lemma_result_ids_concat(t, results);
        assert(t.drop_last() =~= Seq::<BlockView>::empty());
        assert(result_ids(Seq::<BlockView>::empty()) =~= Seq::<Seq<char>>::empty());
        assert(result_ids(t) =~= Seq::<Seq<char>>::empty());
        assert(result_ids(t) + result_ids(results) =~= result_ids(results));
    }
    if !reminded {
        assert forall|x: int, y: int| 0 <= x < y < bs.len() && (#[trigger] bs[y]) is ToolResult implies (#[trigger] bs[x]) is ToolResult by {}
    }
}

/// What the caller must do once a round is closed.
pub struct RoundFollowUp {
    /// Files read during the round, to remember as recent.
    pub read_paths: Vec<String>,
    /// A compaction of the conversation that the model asked for, with its focus.
    pub compact: Option<Option<String>>,
}

/// The state that the agent loop keeps between rounds.
pub struct LoopState {
    /// The whole conversation, as recorded.
    pub context: Vec<Message>,
    max_round: usize,
    todo_rounds_since_update: usize,
    rounds_this_turn: usize,
}

impl LoopState {
    /// The recorded conversation.
    pub closed spec fn spec_context(&self) -> Seq<Message> {
        self.context@
    }

    /// The most rounds of one turn.
    pub closed spec fn spec_max_round(&self) -> usize {
        self.max_round
    }

    /// How many rounds in a row ran without a plan update.
    pub closed spec fn spec_rounds_since_update(&self) -> usize {
        self.todo_rounds_since_update
    }

    /// How many rounds the current turn has begun.
    pub closed spec fn spec_rounds(&self) -> usize {
        self.rounds_this_turn
    }

    /// A loop with an empty conversation that runs at most `max_round` rounds per turn.
    pub fn new(max_round: usize) -> (r: LoopState)
        ensures
            r.spec_context().len() == 0,
            r.spec_max_round() == max_round,
            r.spec_rounds_since_update() == 0,
            r.spec_rounds() == 0,
    {
        LoopState { context: Vec::new(), max_round, todo_rounds_since_update: 0, rounds_this_turn: 0 }
    }

    /// Starts a turn: no round of it has begun yet.
    pub fn begin_turn(&mut self)
        ensures
            final(self).spec_rounds() == 0,
            final(self).spec_context() == old(self).spec_context(),
            final(self).spec_max_round() == old(self).spec_max_round(),
            final(self).spec_rounds_since_update() == old(self).spec_rounds_since_update(),
    {
        self.rounds_this_turn = 0;
    }

    /// Begins another round of the current turn, unless the turn has run its
    /// most rounds already; says whether it did.
    pub fn begin_round(&mut self) -> (go: bool)
        ensures
            go == (old(self).spec_rounds() < old(self).spec_max_round()),
            final(self).spec_rounds() == old(self).spec_rounds() + (if go { 1int } else { 0int }),
            final(self).spec_context() == old(self).spec_context(),
            final(self).spec_max_round() == old(self).spec_max_round(),
            final(self).spec_rounds_since_update() == old(self).spec_rounds_since_update(),
    {
        if self.rounds_this_turn < self.max_round {
            self.rounds_this_turn = self.rounds_this_turn + 1;
            true
        } else {
            false
        }
    }

    /// The most rounds of one turn.
    pub fn max_round(&self) -> (r: usize)
        ensures
            r == self.spec_max_round(),
    {
        self.max_round
    }

    /// How many rounds in a row ran without a plan update.
    pub fn rounds_since_update(&self) -> (r: usize)
        ensures
            r == self.spec_rounds_since_update(),
    {
        self.todo_rounds_since_update
    }

    /// Records what the user said.
    pub fn push_user_text(&mut self, text: String)
        ensures
            messages_view(final(self).spec_context()) == messages_view(old(self).spec_context()).push(
                MessageView { role: Role::User, content: ContentView::Text(text@) },
            ),
            final(self).spec_max_round() == old(self).spec_max_round(),
            final(self).spec_rounds_since_update() == old(self).spec_rounds_since_update(),
            final(self).spec_rounds() == old(self).spec_rounds(),
    {
        let ghost before = self.context@;
        self.context.push(Message::new_text(Role::User, text));
        assert(messages_view(self.context@) =~= messages_view(before).push(self.context@.last()@));
    }

    /// The messages to send to the model.
    pub fn normalize_messages(&self) -> (r: Vec<Message>)
        ensures
            messages_view(r@) == normalized(messages_view(self.spec_context())),
    {
        normalize_messages(&self.context)
    }

    /// Records a response of the model made of `content`; answers whether its
    /// tool calls must run, which is so unless the model stopped for another
    /// reason than a tool call.
    pub fn record_response(&mut self, content: Vec<ContentBlock>, stop_reason: Option<StopReason>) -> (r: bool)
        ensures
            messages_view(final(self).spec_context()) == messages_view(old(self).spec_context()).push(
                MessageView { role: Role::Assistant, content: ContentView::Blocks(blocks_view(content@)) },
            ),
            r == (stop_reason is None || stop_reason == Some(StopReason::ToolUse)),
            final(self).spec_max_round() == old(self).spec_max_round(),
            final(self).spec_rounds_since_update() == old(self).spec_rounds_since_update(),
            final(self).spec_rounds() == old(self).spec_rounds(),
    {
        let ghost before = self.context@;
        self.context.push(Message::new_blocks(Role::Assistant, content));
        assert(messages_view(self.context@) =~= messages_view(before).push(self.context@.last()@));
        match stop_reason {
            Some(StopReason::ToolUse) => true,
            Some(_) => false,
            None => true,
        }
    }

    /// Counts one more round without a plan update.
    fn note_round_without_update(&mut self)
        requires
            old(self).spec_rounds_since_update() < usize::MAX,
        ensures
            final(self).spec_rounds_since_update() == old(self).spec_rounds_since_update() + 1,
            final(self).spec_context() == old(self).spec_context(),
            final(self).spec_max_round() == old(self).spec_max_round(),
            final(self).spec_rounds() == old(self).spec_rounds(),
    {
        self.todo_rounds_since_update = self.todo_rounds_since_update + 1;
    }

    /// The plan reminder, once `PLAN_REMINDER_INTERVAL` rounds in a row ran
    /// without a plan update.
    pub fn reminder(&self) -> (r: Option<String>)
        ensures
            match r {
                Some(t) => self.spec_rounds_since_update() >= PLAN_REMINDER_INTERVAL && t@ == reminder_text(),
                None => self.spec_rounds_since_update() < PLAN_REMINDER_INTERVAL,
            },
    {
        if self.todo_rounds_since_update >= PLAN_REMINDER_INTERVAL {
            Some(String::from_str("<reminder>Refresh your current plan before continuing.</reminder>"))
        } else {
            None
        }
    }

    /// Closes a round whose calls all have their answer: records the answers
    /// as a user message, opened by the plan reminder when it is due, and
    /// counts the rounds without a plan update.
    pub fn finish_tool_round(&mut self, round: ToolRound) -> (r: RoundFollowUp)
        requires
            round.spec_done(),
            !round.spec_used_todo() ==> old(self).spec_rounds_since_update() < usize::MAX,
        ensures
            final(self).spec_rounds_since_update() == (if round.spec_used_todo() {
                0
            } else {
                old(self).spec_rounds_since_update() + 1
            }),
            messages_view(final(self).spec_context()) == messages_view(old(self).spec_context()).push(MessageView {
                role: Role::User,
                content: ContentView::Blocks(
                    if !round.spec_used_todo() && final(self).spec_rounds_since_update() >= PLAN_REMINDER_INTERVAL {
                        seq![BlockView::Text { text: reminder_text() }] + round.spec_results()
                    } else {
                        round.spec_results()
                    },
                ),
            }),
            final(self).spec_max_round() == old(self).spec_max_round(),
            strings_view(r.read_paths@) == round.spec_read_paths(),
            match r.compact {
                Some(Some(f)) => round.spec_compact() == Some(Some(f@)),
                Some(None) => round.spec_compact() == Some(None::<Seq<char>>),
                None => round.spec_compact() is None,
            },
            final(self).spec_rounds() == old(self).spec_rounds(),
    {
        let ToolRound { requests: _, results, used_todo, compact, read_paths } = round;
        let mut blocks: Vec<ContentBlock> = Vec::new();
        if used_todo {
            self.todo_rounds_since_update = 0;
        } else {
            self.note_round_without_update();
            match self.reminder() {
                Some(text) => {
                    blocks.push(ContentBlock::Text { text });
                },
                None => {},
            }
        }
        let ghost b0 = blocks@;
        let mut results = results;
        let ghost r0 = results@;
        blocks.append(&mut results);
        assert(blocks_view(blocks@) =~= blocks_view(b0) + blocks_view(r0));
        proof {
            if !used_todo && self.todo_rounds_since_update >= PLAN_REMINDER_INTERVAL {
                assert(blocks_view(b0) =~= seq![BlockView::Text { text: reminder_text() }]);
            } else {
                assert(blocks_view(b0) =~= Seq::<BlockView>::empty());
                assert(blocks_view(blocks@) =~= blocks_view(r0));
            }
        }
        let ghost before = self.context@;
        self.context.push(Message::new_blocks(Role::User, blocks));
        assert(messages_view(self.context@) =~= messages_view(before).push(self.context@.last()@));
        RoundFollowUp { read_paths, compact }
    }

    /// The natural-language text of `content`: the text itself, or the texts
    /// of its text blocks joined by line breaks.
    pub fn extract_text(content: &MessageContent) -> (r: String)
        ensures
            r@ == content_text(content@),
    {
        extract_text(content)
    }

    /// The mode named by a mode command `query`: its second word, when it has
    /// exactly two; otherwise the user is to choose.
    pub fn mode_argument(query: &str) -> (r: Option<String>)
        ensures
            match r {
                Some(m) => words_of(query@).len() == 2 && m@ == words_of(query@)[1],
                None => words_of(query@).len() != 2,
            },
    {
        let parts = split_words(query);
        if parts.len() == 2 {
            assert(strings_view(parts@)[1] == parts@[1]@);
            Some(parts[1].clone())
        } else {
            None
        }
    }
}

/// What the user typed at the prompt of the agent.
#[derive(Debug)]
pub enum UserInput {
    /// Nothing but whitespace.
    Empty,
    /// Leave the agent.
    Exit,
    /// List the permission rules.
    Rules,
    /// Describe the memories.
    Memory,
    /// Switch the permission mode; the trimmed command.
    Mode(String),
    /// A request for the agent; the trimmed text.
    Prompt(String),
}

/// What the line `line` typed by the user asks for.
pub open spec fn classify(line: Seq<char>) -> UserInputView {
    let t = trimmed(line);
    if t.len() == 0 {
        UserInputView::Empty
    } else if t == ".exit"@ {
        UserInputView::Exit
    } else if t == ".rules"@ {
        UserInputView::Rules
    } else if t == ".memory"@ {
        UserInputView::Memory
    } else if t.len() >= 5 && t.subrange(0, 5) == ".mode"@ {
        UserInputView::Mode(t)
    } else {
        UserInputView::Prompt(t)
    }
}

/// The content of a `UserInput`.
pub enum UserInputView {
    Empty,
    Exit,
    Rules,
    Memory,
    Mode(Seq<char>),
    Prompt(Seq<char>),
}

impl View for UserInput {
    type V = UserInputView;

    open spec fn view(&self) -> UserInputView {
        match self {
            UserInput::Empty => UserInputView::Empty,
            UserInput::Exit => UserInputView::Exit,
            UserInput::Rules => UserInputView::Rules,
            UserInput::Memory => UserInputView::Memory,
            UserInput::Mode(t) => UserInputView::Mode(t@),
            UserInput::Prompt(t) => UserInputView::Prompt(t@),
        }
    }
}

/// What the line `line` typed by the user asks for.
pub fn classify_input(line: &str) -> (r: UserInput)
    ensures
        r@ == classify(line@),
{
    let t = trim_text(line);
    if t.is_empty() {
        UserInput::Empty
    } else if str_eq(t, ".exit") {
        UserInput::Exit
    } else if str_eq(t, ".rules") {
        UserInput::Rules
    } else if str_eq(t, ".memory") {
        UserInput::Memory
    } else if t.unicode_len() >= 5 && str_eq(t.substring_char(0, 5), ".mode") {
        UserInput::Mode(t.to_owned())
    } else {
        UserInput::Prompt(t.to_owned())
    }
}

/// The lines of the project instructions read from files named `file_name`
/// and gathered from `sources`, each a label and the text found there.
pub open spec fn instruction_lines(file_name: Seq<char>, sources: Seq<(Seq<char>, Seq<char>)>) -> Seq<Seq<char>>
    decreases sources.len(),
{
    if sources.len() == 0 {
        seq!["# "@ + file_name + " instructions"@, Seq::<char>::empty()]
    } else {
        let (label, content) = sources.last();
        instruction_lines(file_name, sources.drop_last()) + seq![
            "## From "@ + label,
            Seq::<char>::empty(),
            trimmed(content),
            Seq::<char>::empty(),
        ]
    }
}

/// Whether `lines` hold, from line `2 + 4 * k` on, the section of a source
/// labelled `label` with text `content`: the label, a blank line, the text
/// trimmed, a blank line.
pub open spec fn section_at(lines: Seq<Seq<char>>, k: int, label: Seq<char>, content: Seq<char>) -> bool {
    &&& lines[2 + 4 * k] == "## From "@ + label
    &&& lines[3 + 4 * k] == Seq::<char>::empty()
    &&& lines[4 + 4 * k] == trimmed(content)
    &&& lines[5 + 4 * k] == Seq::<char>::empty()
}

/// The instruction lines open with a heading that names the file and give
/// every source, in the order of the sources, a section of four lines: its
/// label, a blank line, its text trimmed, a blank line.
pub proof fn lemma_instruction_sections(file_name: Seq<char>, sources: Seq<(Seq<char>, Seq<char>)>)
    ensures
        instruction_lines(file_name, sources).len() == 2 + 4 * sources.len(),
        instruction_lines(file_name, sources)[0] == "# "@ + file_name + " instructions"@,
        forall|k: int| 0 <= k < sources.len()
            ==> #[trigger] section_at(instruction_lines(file_name, sources), k, sources[k].0, sources[k].1),
    decreases sources.len(),
{
    if sources.len() > 0 {
        let b = sources.drop_last();
        lemma_instruction_sections(file_name, b);
        let prev = instruction_lines(file_name, b);
        let lines = instruction_lines(file_name, sources);
        let sec = seq![
            "## From "@ + sources.last().0,
            Seq::<char>::empty(),
            trimmed(sources.last().1),
            Seq::<char>::empty(),
        ];
        assert(lines =~= prev + sec);
        assert forall|k: int| 0 <= k < sources.len()
            implies #[trigger] section_at(lines, k, sources[k].0, sources[k].1) by {
            if k < b.len() {
                assert(b[k] == sources[k]);
                assert(section_at(prev, k, b[k].0, b[k].1));
                assert(lines[2 + 4 * k] == prev[2 + 4 * k]);
                assert(lines[3 + 4 * k] == prev[3 + 4 * k]);
                assert(lines[4 + 4 * k] == prev[4 + 4 * k]);
                assert(lines[5 + 4 * k] == prev[5 + 4 * k]);
            } else {
                assert(sources[k] == sources.last());
                assert(lines[2 + 4 * k] == sec[0]);
                assert(lines[3 + 4 * k] == sec[1]);
                assert(lines[4 + 4 * k] == sec[2]);
                assert(lines[5 + 4 * k] == sec[3]);
            }
        }
        assert(lines[0] == prev[0]);
    }
}

/// The project instructions read from files named `file_name` and gathered
/// from `sources`: nothing when there are none, else a heading and one
/// section per source, trimmed.
pub open spec fn instructions_text(file_name: Seq<char>, sources: Seq<(Seq<char>, Seq<char>)>) -> Seq<char> {
    if sources.len() == 0 {
        Seq::empty()
    } else {
        trimmed(join_lines(instruction_lines(file_name, sources)))
    }
}

/// The contents of a sequence of labelled texts.
pub open spec fn pairs_view(s: Seq<(String, String)>) -> Seq<(Seq<char>, Seq<char>)> {
    s.map_values(|p: (String, String)| (p.0@, p.1@))
}

/// The lines that describe where and when the agent runs.
pub open spec fn dynamic_context_lines(date: Seq<char>, workdir: Seq<char>, model: Option<Seq<char>>, platform: Seq<char>) -> Seq<Seq<char>> {
    seq![
        "# Dynamic context"@,
        "Current date: "@ + date,
        "Working directory: "@ + workdir,
        "Model: "@ + (match model {
            Some(m) => m,
            None => "unknown"@,
        }),
        "Platform: "@ + platform,
    ]
}

/// The guidelines of the agent's system prompt.
pub open spec fn agent_guidelines() -> Seq<Seq<char>> {
    seq!["Try to understand how to complete the task well before completing it."@]
}

/// The constraints of the agent's system prompt.
pub open spec fn agent_constraints() -> Seq<Seq<char>> {
    seq![
        "Think step by step"@,
        "Think before you act; respond with your thoughts before calling tools"@,
        "Do not make up any assumptions, use tools to get the information you need"@,
        "Use the provided tools to interact with the system and accomplish the task"@,
        "If you are stuck, or otherwise cannot complete the task, respond with your thoughts and stop"@,
        "If the task is completed, or otherwise cannot continue, like requiring user feedback, stop."@,
    ]
}

impl LoopState {
    /// The project instructions read from files named `file_name` and
    /// gathered from `sources`, each a label and the text found there.
    pub fn instructions_prompt(file_name: &str, sources: &Vec<(String, String)>) -> (r: String)
        ensures
            r@ == instructions_text(file_name@, pairs_view(sources@)),
    {
        let ghost pv = pairs_view(sources@);
        if sources.len() == 0 {
            return String::new();
        }
        let mut lines: Vec<String> = Vec::new();
        let mut heading = crate::tool::concat_str("# ", file_name);
        heading.append(" instructions");
        lines.push(heading);
        lines.push(String::new());
        assert(strings_view(lines@) =~= instruction_lines(file_name@, pv.subrange(0, 0)));
        let mut i: usize = 0;
        while i < sources.len()
            invariant
                pv == pairs_view(sources@),
                i <= sources@.len(),
                strings_view(lines@) == instruction_lines(file_name@, pv.subrange(0, i as int)),
            decreases sources@.len() - i,
        {
            let ghost l0 = strings_view(lines@);
            let heading = crate::tool::concat_str("## From ", sources[i].0.as_str());
            lines.push(heading);
            lines.push(String::new());
            lines.push(trim_text(sources[i].1.as_str()).to_owned());
            lines.push(String::new());
            proof {
                assert(pv.subrange(0, i + 1).drop_last() =~= pv.subrange(0, i as int));
                assert(pv.subrange(0, i + 1).last() == pv[i as int]);
                assert(strings_view(lines@) =~= l0 + seq![
                    "## From "@ + sources@[i as int].0@,
                    Seq::<char>::empty(),
                    trimmed(sources@[i as int].1@),
                    Seq::<char>::empty(),
                ]);
            }
            i = i + 1;
        }
        assert(pv.subrange(0, sources@.len() as int) =~= pv);
        let text = join_with_newlines(&lines);
        trim_text(text.as_str()).to_owned()
    }

    /// The description of where and when the agent runs.
    pub fn dynamic_context(date: &str, workdir: &str, model: Option<String>, platform: &str) -> (r: String)
        ensures
            r@ == join_lines(dynamic_context_lines(date@, workdir@, match model {
                Some(m) => Some(m@),
                None => None,
            }, platform@)),
    {
        let mut lines: Vec<String> = Vec::new();
        lines.push(String::from_str("# Dynamic context"));
        lines.push(crate::tool::concat_str("Current date: ", date));
        lines.push(crate::tool::concat_str("Working directory: ", workdir));
        let model_name = match model {
            Some(m) => m,
            None => String::from_str("unknown"),
        };
        lines.push(crate::tool::concat_str("Model: ", model_name.as_str()));
        lines.push(crate::tool::concat_str("Platform: ", platform));
        assert(strings_view(lines@) =~= dynamic_context_lines(date@, workdir@, match model {
            Some(m) => Some(m@),
            None => None,
        }, platform@));
        join_with_newlines(&lines)
    }

    /// The system prompt of the agent working in `workdir`, with the given
    /// skills, memory, project instructions, dynamic context and guidance on
    /// memory (trimmed), and the default template.
    pub fn system_prompt(
        workdir: &str,
        skills_available: String,
        memory: String,
        claude_md: String,
        dynamic_context: String,
        memory_guidance: &str,
    ) -> (r: SystemPrompt)
        ensures
            r@ == built(SystemPromptBuilderView {
                role: Some(Some("You are a coding agent operating in "@ + workdir@ + "."@)),
                skills_available: Some(Some(skills_available@)),
                memory: Some(Some(memory@)),
                claude_md: Some(Some(claude_md@)),
                dynamic_context: Some(Some(dynamic_context@)),
                memory_guidance: Some(Some(trimmed(memory_guidance@))),
                guidelines: Some(agent_guidelines()),
                constraints: Some(agent_constraints()),
                additional: None,
                template: None,
            }),
    {
        let mut role = crate::tool::concat_str("You are a coding agent operating in ", workdir);
        role.append(".");
        let guidelines: [&str; 1] = ["Try to understand how to complete the task well before completing it."];
        let constraints: [&str; 6] = [
            "Think step by step",
            "Think before you act; respond with your thoughts before calling tools",
            "Do not make up any assumptions, use tools to get the information you need",
            "Use the provided tools to interact with the system and accomplish the task",
            "If you are stuck, or otherwise cannot complete the task, respond with your thoughts and stop",
            "If the task is completed, or otherwise cannot continue, like requiring user feedback, stop.",
        ];
        let mut builder = SystemPrompt::builder();
        builder.role(role)
            .guidelines(&guidelines)
            .constraints(&constraints)
            .skills_available(skills_available)
            .memory(memory)
            .claude_md(claude_md)
            .dynamic_context(dynamic_context)
            .memory_guidance(trim_text(memory_guidance).to_owned());
        assert(guidelines@.map_values(|x: &str| x@) =~= agent_guidelines());
        assert(constraints@.map_values(|x: &str| x@) =~= agent_constraints());
        builder.build().unwrap()
    }
}

/// The text that stands as the result of a call of the tool `name`: the
/// output of the tool, a report of its error, or a note that no such tool
/// exists (`outcome` is `None`).
pub fn tool_call_output(name: &str, outcome: Option<Result<String, String>>) -> (r: String)
    ensures
        r@ == (match outcome {
            None => "Unknown tool: "@ + name@,
            Some(Ok(output)) => output@,
            Some(Err(e)) => "Error invoking tool "@ + name@ + ": "@ + e@,
        }),
{
    match outcome {
        None => concat_str("Unknown tool: ", name),
        Some(Ok(output)) => output,
        Some(Err(e)) => {
            let mut r = concat_str("Error invoking tool ", name);
            r.append(": ");
            r.append(e.as_str());
            r
        },
    }
}

} // verus!
