//! The rules that turn the recorded conversation into the message list sent to
//! the model: every tool request is answered in the very next user message,
//! tool results that answer nothing are dropped, and consecutive messages of
//! the same sender are merged.
use vstd::prelude::*;

use crate::text::{join_lines, strings_view};
use crate::message::{
    blocks_view, duplicate_blocks, messages_view, BlockView, ContentBlock, ContentView, Message,
    MessageContent, MessageView, Role,
};

verus! {

// ---------------------------------------------------------------------------
// Specification
// ---------------------------------------------------------------------------

/// The ids of the tool requests among `bs`, in order.
pub open spec fn tool_use_ids_of_blocks(bs: Seq<BlockView>) -> Seq<Seq<char>>
    decreases bs.len(),
{
    if bs.len() == 0 {
        Seq::empty()
    } else {
        let rest = tool_use_ids_of_blocks(bs.drop_last());
        match bs.last() {
            BlockView::ToolUse { id, .. } => rest.push(id),
            _ => rest,
        }
    }
}

/// The ids of the tool requests that message `m` makes: those of an assistant
/// message made of blocks.
pub open spec fn tool_use_ids(m: MessageView) -> Seq<Seq<char>> {
    if m.role == Role::Assistant {
        match m.content {
            ContentView::Blocks(bs) => tool_use_ids_of_blocks(bs),
            ContentView::Text(_) => Seq::empty(),
        }
    } else {
        Seq::empty()
    }
}

/// The texts of the text blocks among `bs`, in order.
pub open spec fn texts_of(bs: Seq<BlockView>) -> Seq<Seq<char>>
    decreases bs.len(),
{
    if bs.len() == 0 {
        Seq::empty()
    } else {
        let rest = texts_of(bs.drop_last());
        match bs.last() {
            BlockView::Text { text } => rest.push(text),
            _ => rest,
        }
    }
}

/// The natural-language text of some content: the text itself, or the texts of
/// its text blocks, one per line.
pub open spec fn content_text(c: ContentView) -> Seq<char> {
    match c {
        ContentView::Text(t) => t,
        ContentView::Blocks(bs) => join_lines(texts_of(bs)),
    }
}

/// The last message of `ctx` that the assistant sent.
pub open spec fn last_assistant(ctx: Seq<MessageView>) -> Option<MessageView>
    decreases ctx.len(),
{
    if ctx.len() == 0 {
        None
    } else if ctx.last().role == Role::Assistant {
        Some(ctx.last())
    } else {
        last_assistant(ctx.drop_last())
    }
}

/// The text that stands for a report with nothing to say.
pub open spec fn no_summary_text() -> Seq<char> {
    seq!['(', 'n', 'o', ' ', 's', 'u', 'm', 'm', 'a', 'r', 'y', ')']
}

/// What a finished conversation reports: the text of the last assistant
/// message, or the stand-in when there is none or it is empty.
pub open spec fn summary_of(ctx: Seq<MessageView>) -> Seq<char> {
    match last_assistant(ctx) {
        Some(m) => if content_text(m.content).len() > 0 { content_text(m.content) } else { no_summary_text() },
        None => no_summary_text(),
    }
}

/// The ids that the tool results among `bs` answer, in order.
pub open spec fn result_ids(bs: Seq<BlockView>) -> Seq<Seq<char>>
    decreases bs.len(),
{
    if bs.len() == 0 {
        Seq::empty()
    } else {
        let rest = result_ids(bs.drop_last());
        match bs.last() {
            BlockView::ToolResult { tool_use_id, .. } => rest.push(tool_use_id),
            _ => rest,
        }
    }
}

/// The blocks of `bs` that are not tool results, in order.
pub open spec fn without_results(bs: Seq<BlockView>) -> Seq<BlockView>
    decreases bs.len(),
{
    if bs.len() == 0 {
        Seq::empty()
    } else {
        let rest = without_results(bs.drop_last());
        if bs.last() is ToolResult {
            rest
        } else {
            rest.push(bs.last())
        }
    }
}

/// The last tool result among `bs` that answers `id`.
pub open spec fn last_result(bs: Seq<BlockView>, id: Seq<char>) -> Option<BlockView>
    decreases bs.len(),
{
    if bs.len() == 0 {
        None
    } else {
        match bs.last() {
            BlockView::ToolResult { tool_use_id, .. } if tool_use_id == id => Some(bs.last()),
            _ => last_result(bs.drop_last(), id),
        }
    }
}

/// The text of the stand-in answer to a tool request that has none.
pub open spec fn cancelled_text() -> Seq<char> {
    seq!['(', 'c', 'a', 'n', 'c', 'e', 'l', 'l', 'e', 'd', ')']
}

/// The stand-in answer to the tool request `id`.
pub open spec fn cancelled(id: Seq<char>) -> BlockView {
    BlockView::ToolResult { tool_use_id: id, content: cancelled_text() }
}

/// The answer to the `k`-th of the requests `ids`, drawn from the blocks
/// `follow` of the user message that comes next: the last result for that id,
/// unless an earlier request with the same id took it already, else the
/// stand-in answer.
pub open spec fn answer_for(ids: Seq<Seq<char>>, k: int, follow: Seq<BlockView>) -> BlockView {
    let id = ids[k];
    if !ids.subrange(0, k).contains(id) && last_result(follow, id) is Some {
        last_result(follow, id).unwrap()
    } else {
        cancelled(id)
    }
}

/// The answers to all the requests `ids`, in their order.
pub open spec fn answers(ids: Seq<Seq<char>>, follow: Seq<BlockView>) -> Seq<BlockView> {
    Seq::new(ids.len(), |k: int| answer_for(ids, k, follow))
}

/// The blocks of a user message, a text message counting as one text block.
pub open spec fn user_blocks(m: MessageView) -> Seq<BlockView> {
    match m.content {
        ContentView::Blocks(bs) => bs,
        ContentView::Text(t) => seq![BlockView::Text { text: t }],
    }
}

/// A message that requests no tool, with the tool results of a user message
/// removed; a user message left empty disappears.
pub open spec fn strip_orphans(m: MessageView) -> Option<MessageView> {
    if m.role != Role::User {
        Some(m)
    } else {
        match m.content {
            ContentView::Blocks(bs) => {
                let kept = without_results(bs);
                if kept.len() == 0 {
                    None
                } else {
                    Some(MessageView { role: Role::User, content: ContentView::Blocks(kept) })
                }
            },
            ContentView::Text(_) => Some(m),
        }
    }
}

/// Whether the message at `i` is followed by a user message that the pairing
/// step takes in.
pub open spec fn takes_next(ctx: Seq<MessageView>, i: int) -> bool {
    i + 1 < ctx.len() && ctx[i + 1].role == Role::User
}

/// The user message that answers the requests of `ctx[i]`.
pub open spec fn reply_to(ctx: Seq<MessageView>, i: int) -> MessageView {
    let follow = if takes_next(ctx, i) { user_blocks(ctx[i + 1]) } else { Seq::empty() };
    MessageView {
        role: Role::User,
        content: ContentView::Blocks(answers(tool_use_ids(ctx[i]), follow) + without_results(follow)),
    }
}

/// The pairing step over the messages from index `i` on.
pub open spec fn paired_from(ctx: Seq<MessageView>, i: nat) -> Seq<MessageView>
    decreases ctx.len() - i,
{
    if i >= ctx.len() {
        Seq::empty()
    } else if tool_use_ids(ctx[i as int]).len() == 0 {
        match strip_orphans(ctx[i as int]) {
            Some(s) => seq![s] + paired_from(ctx, i + 1),
            None => paired_from(ctx, i + 1),
        }
    } else {
        let next: nat = if takes_next(ctx, i as int) { i + 2 } else { i + 1 };
        seq![ctx[i as int], reply_to(ctx, i as int)] + paired_from(ctx, next)
    }
}

/// The content of two consecutive messages of one sender, merged.
pub open spec fn merge_contents(a: ContentView, b: ContentView) -> ContentView {
    match (a, b) {
        (ContentView::Blocks(p), ContentView::Blocks(c)) => ContentView::Blocks(p + c),
        (ContentView::Text(p), ContentView::Text(c)) => ContentView::Text(p + seq!['\n'] + c),
        (ContentView::Text(p), ContentView::Blocks(c)) => ContentView::Blocks(
            seq![BlockView::Text { text: p }] + c,
        ),
        (ContentView::Blocks(p), ContentView::Text(c)) => ContentView::Blocks(
            p.push(BlockView::Text { text: c }),
        ),
    }
}

/// `acc` with `m` appended, merged into the last message when both have one sender.
pub open spec fn push_merged(acc: Seq<MessageView>, m: MessageView) -> Seq<MessageView> {
    if acc.len() > 0 && acc.last().role == m.role {
        acc.update(
            acc.len() - 1,
            MessageView { role: m.role, content: merge_contents(acc.last().content, m.content) },
        )
    } else {
        acc.push(m)
    }
}

/// The messages `s` with every run of one sender merged into one message.
pub open spec fn merge_runs(s: Seq<MessageView>) -> Seq<MessageView>
    decreases s.len(),
{
    if s.len() == 0 {
        Seq::empty()
    } else {
        push_merged(merge_runs(s.drop_last()), s.last())
    }
}

/// The messages sent to the model for the conversation `ctx`.
pub open spec fn normalized(ctx: Seq<MessageView>) -> Seq<MessageView> {
    merge_runs(paired_from(ctx, 0))
}

/// The ids of the tool results in message `m`.
pub open spec fn message_result_ids(m: MessageView) -> Seq<Seq<char>> {
    match m.content {
        ContentView::Blocks(bs) => result_ids(bs),
        ContentView::Text(_) => Seq::empty(),
    }
}

/// Whether the tool results of `bs` all come before its other blocks.
pub open spec fn results_lead(bs: Seq<BlockView>) -> bool {
    forall|i: int, j: int| 0 <= i < j < bs.len() && (#[trigger] bs[j]) is ToolResult ==> (#[trigger] bs[i]) is ToolResult
}

/// Whether the tool results of message `m` all come before its other blocks.
pub open spec fn message_results_lead(m: MessageView) -> bool {
    match m.content {
        ContentView::Blocks(bs) => results_lead(bs),
        ContentView::Text(_) => true,
    }
}

/// Every message that requests tools is followed by a user message.
pub open spec fn requests_followed(s: Seq<MessageView>) -> bool {
    &&& forall|i: int| 0 <= i < s.len() && (#[trigger] tool_use_ids(s[i])).len() > 0 ==> i + 1 < s.len()
    &&& forall|i: int, j: int|
        #![trigger s[i], s[j]]
        0 <= i && j == i + 1 && j < s.len() && tool_use_ids(s[i]).len() > 0 ==> s[j].role == Role::User
}

/// Every user message opens with exactly the answers to the requests of the
/// message before it, in their order, and holds no other tool result.
pub open spec fn results_answer_requests(s: Seq<MessageView>) -> bool {
    &&& forall|i: int| 0 <= i < s.len() && (#[trigger] s[i]).role == Role::User ==> message_results_lead(s[i])
    &&& (s.len() > 0 && s[0].role == Role::User ==> message_result_ids(s[0]).len() == 0)
    &&& forall|i: int, j: int|
        #![trigger s[i], s[j]]
        0 <= i && j == i + 1 && j < s.len() && s[j].role == Role::User ==> message_result_ids(s[j]) == tool_use_ids(s[i])
}

/// No two consecutive messages have the same sender.
pub open spec fn senders_alternate(s: Seq<MessageView>) -> bool {
    forall|i: int, j: int| #![trigger s[i], s[j]] 0 <= i && j == i + 1 && j < s.len() ==> s[i].role != s[j].role
}

// ---------------------------------------------------------------------------
// Implementation
// ---------------------------------------------------------------------------

/// The ids of the tool requests that `msg` makes.
pub fn tool_use_ids_of(msg: &Message) -> (r: Vec<String>)
    ensures
        strings_view(r@) == tool_use_ids(msg@),
{
    let mut out: Vec<String> = Vec::new();
    match &msg.content {
        MessageContent::Blocks { content } => {
            if msg.role == Role::Assistant {
                let ghost bv = blocks_view(content@);
                let mut i: usize = 0;
                while i < content.len()
                    invariant
                        bv == blocks_view(content@),
                        i <= content@.len(),
                        strings_view(out@) == tool_use_ids_of_blocks(bv.subrange(0, i as int)),
                    decreases content@.len() - i,
                {
                    proof {
                        assert(bv.subrange(0, i + 1).drop_last() =~= bv.subrange(0, i as int));
                        assert(bv.subrange(0, i + 1).last() == content@[i as int]@);
                    }
                    match &content[i] {
                        ContentBlock::ToolUse { id, .. } => {
                            let ghost before = out@;
                            out.push(id.clone());
                            assert(strings_view(out@) =~= strings_view(before).push(id@));
                        },
                        _ => {},
                    }
                    i = i + 1;
                }
                assert(bv.subrange(0, content@.len() as int) =~= bv);
            } else {
                assert(strings_view(out@) =~= Seq::<Seq<char>>::empty());
            }
        },
        MessageContent::Text { .. } => {
            assert(strings_view(out@) =~= Seq::<Seq<char>>::empty());
        },
    }
    out
}

/// Copies of the blocks of `bs` that are not tool results.
pub fn blocks_without_results(bs: &Vec<ContentBlock>) -> (r: Vec<ContentBlock>)
    ensures
        blocks_view(r@) == without_results(blocks_view(bs@)),
{
    let ghost bv = blocks_view(bs@);
    let mut out: Vec<ContentBlock> = Vec::new();
    let mut i: usize = 0;
    while i < bs.len()
        invariant
            bv == blocks_view(bs@),
            i <= bs@.len(),
            blocks_view(out@) == without_results(bv.subrange(0, i as int)),
        decreases bs@.len() - i,
    {
        proof {
            assert(bv.subrange(0, i + 1).drop_last() =~= bv.subrange(0, i as int));
            assert(bv.subrange(0, i + 1).last() == bs@[i as int]@);
        }
        if !bs[i].is_tool_result() {
            let ghost before = out@;
            out.push(bs[i].duplicate());
            assert(blocks_view(out@) =~= blocks_view(before).push(bs@[i as int]@));
        }
        i = i + 1;
    }
    assert(bv.subrange(0, bs@.len() as int) =~= bv);
    out
}

/// The position in `bs` of the last tool result that answers `id`.
fn find_last_result(bs: &Vec<ContentBlock>, id: &String) -> (r: Option<usize>)
    ensures
        match r {
            Some(j) => j < bs@.len() && last_result(blocks_view(bs@), id@) == Some(bs@[j as int]@),
            None => last_result(blocks_view(bs@), id@) is None,
        },
{
    let ghost bv = blocks_view(bs@);
    let mut found: Option<usize> = None;
    let mut i: usize = 0;
    while i < bs.len()
        invariant
            bv == blocks_view(bs@),
            i <= bs@.len(),
            match found {
                Some(j) => j < i && last_result(bv.subrange(0, i as int), id@) == Some(bs@[j as int]@),
                None => last_result(bv.subrange(0, i as int), id@) is None,
            },
        decreases bs@.len() - i,
    {
        proof {
            assert(bv.subrange(0, i + 1).drop_last() =~= bv.subrange(0, i as int));
            assert(bv.subrange(0, i + 1).last() == bs@[i as int]@);
        }
        match &bs[i] {
            ContentBlock::ToolResult { tool_use_id, .. } => {
                if *tool_use_id == *id {
                    found = Some(i);
                }
            },
            _ => {},
        }
        i = i + 1;
    }
    assert(bv.subrange(0, bs@.len() as int) =~= bv);
    found
}

/// Whether the `k`-th id of `ids` occurs before position `k`.
fn seen_before(ids: &Vec<String>, k: usize) -> (r: bool)
    requires
        k < ids@.len(),
    ensures
        r == strings_view(ids@).subrange(0, k as int).contains(ids@[k as int]@),
{
    let ghost sv = strings_view(ids@);
    let mut i: usize = 0;
    while i < k
        invariant
            sv == strings_view(ids@),
            k < ids@.len(),
            i <= k,
            forall|j: int| 0 <= j < i ==> sv[j] != ids@[k as int]@,
        decreases k - i,
    {
        if ids[i] == ids[k] {
            assert(sv.subrange(0, k as int)[i as int] == ids@[k as int]@);
            return true;
        }
        i = i + 1;
    }
    assert forall|j: int| 0 <= j < k implies sv.subrange(0, k as int)[j] != ids@[k as int]@ by {
        assert(sv.subrange(0, k as int)[j] == sv[j]);
    }
    false
}

/// The answers to the tool requests `ids`, drawn from the blocks `follow`.
fn answer_requests(ids: &Vec<String>, follow: &Vec<ContentBlock>) -> (r: Vec<ContentBlock>)
    ensures
        blocks_view(r@) == answers(strings_view(ids@), blocks_view(follow@)),
{
    let ghost iv = strings_view(ids@);
    let ghost fv = blocks_view(follow@);
    let mut out: Vec<ContentBlock> = Vec::new();
    let mut k: usize = 0;
    while k < ids.len()
        invariant
            iv == strings_view(ids@),
            fv == blocks_view(follow@),
            k <= ids@.len(),
            out@.len() == k,
            forall|j: int| 0 <= j < k ==> (#[trigger] out@[j])@ == answer_for(iv, j, fv),
        decreases ids@.len() - k,
    {
        let seen = seen_before(ids, k);
        let found = find_last_result(follow, &ids[k]);
        let block = match found {
            Some(j) if !seen => follow[j].duplicate(),
            _ => {
                let text = String::from_str("(cancelled)");
                proof {
                    reveal_strlit("(cancelled)");
                    assert(text@ =~= cancelled_text());
                }
                ContentBlock::ToolResult { tool_use_id: ids[k].clone(), content: text }
            },
        };
        assert(block@ == answer_for(iv, k as int, fv));
        out.push(block);
        k = k + 1;
    }
    assert(blocks_view(out@) =~= answers(iv, fv));
    out
}

/// The blocks of a user message, a text message counting as one text block.
fn user_blocks_of(msg: &Message) -> (r: Vec<ContentBlock>)
    ensures
        blocks_view(r@) == user_blocks(msg@),
{
    match &msg.content {
        MessageContent::Blocks { content } => duplicate_blocks(content),
        MessageContent::Text { content } => {
            let mut out: Vec<ContentBlock> = Vec::new();
            out.push(ContentBlock::Text { text: content.clone() });
            assert(blocks_view(out@) =~= seq![BlockView::Text { text: content@ }]);
            out
        },
    }
}

/// `msg` without the tool results of a user message; `None` when nothing is left of it.
pub fn strip_orphan_tool_results(msg: Message) -> (r: Option<Message>)
    ensures
        match r {
            Some(m) => strip_orphans(msg@) == Some(m@),
            None => strip_orphans(msg@) is None,
        },
{
    if msg.role != Role::User {
        return Some(msg);
    }
    match msg.content {
        MessageContent::Blocks { content } => {
            let kept = blocks_without_results(&content);
            if kept.len() == 0 {
                None
            } else {
                Some(Message::new_blocks(Role::User, kept))
            }
        },
        MessageContent::Text { content } => Some(Message::new_text(Role::User, content)),
    }
}

/// The natural-language text of `content`: the text itself, or the texts of
/// its text blocks joined by line breaks.
pub fn extract_text(content: &MessageContent) -> (r: String)
    ensures
        r@ == content_text(content@),
{
    match content {
        MessageContent::Text { content } => content.clone(),
        MessageContent::Blocks { content } => {
            let ghost bv = blocks_view(content@);
            let mut out = String::new();
            let mut any = false;
            let mut i: usize = 0;
            while i < content.len()
                invariant
                    bv == blocks_view(content@),
                    i <= content@.len(),
                    out@ == join_lines(texts_of(bv.subrange(0, i as int))),
                    any == (texts_of(bv.subrange(0, i as int)).len() > 0),
                decreases content@.len() - i,
            {
                let ghost parts = texts_of(bv.subrange(0, i as int));
                proof {
                    assert(bv.subrange(0, i + 1).drop_last() =~= bv.subrange(0, i as int));
                    assert(bv.subrange(0, i + 1).last() == content@[i as int]@);
                }
                match &content[i] {
                    ContentBlock::Text { text } => {
                        let ghost o0 = out@;
                        if any {
                            out.append("\n");
                        }
                        out.append(text.as_str());
                        proof {
                            reveal_strlit("\n");
                            let np = parts.push(text@);
                            assert(np.drop_last() =~= parts);
                            if parts.len() == 0 {
                                assert(out@ =~= text@);
                            } else {
                                assert(out@ =~= o0 + seq!['\n'] + text@);
                            }
                        }
                        any = true;
                    },
                    _ => {},
                }
                i = i + 1;
            }
            assert(bv.subrange(0, content@.len() as int) =~= bv);
            out
        },
    }
}

/// What a finished conversation reports: the text of its last assistant
/// message, or "(no summary)" when there is none or it has no text.
pub fn last_assistant_summary(context: &Vec<Message>) -> (r: String)
    ensures
        r@ == summary_of(messages_view(context@)),
{
    let ghost cv = messages_view(context@);
    let mut i: usize = context.len();
    assert(cv.subrange(0, i as int) =~= cv);
    while i > 0
        invariant
            cv == messages_view(context@),
            i <= context@.len(),
            last_assistant(cv) == last_assistant(cv.subrange(0, i as int)),
        decreases i,
    {
        proof {
            assert(cv.subrange(0, i as int).drop_last() =~= cv.subrange(0, i - 1));
            assert(cv.subrange(0, i as int).last() == context@[i - 1]@);
        }
        if context[i - 1].role == Role::Assistant {
            let text = extract_text(&context[i - 1].content);
            if !text.as_str().is_empty() {
                return text;
            }
            let r = String::from_str("(no summary)");
            proof {
                reveal_strlit("(no summary)");
                assert(r@ =~= no_summary_text());
            }
            return r;
        }
        i = i - 1;
    }
    assert(cv.subrange(0, 0) =~= Seq::<MessageView>::empty());
    let r = String::from_str("(no summary)");
    proof {
        reveal_strlit("(no summary)");
        assert(r@ =~= no_summary_text());
    }
    r
}

/// Two consecutive messages of one sender, merged into one.
fn merge_messages(last: Message, msg: Message) -> (r: Message)
    requires
        last.role == msg.role,
    ensures
        r@ == (MessageView { role: msg.role, content: merge_contents(last@.content, msg@.content) }),
{
    let role = last.role;
    let ghost (lv, mv) = (last@.content, msg@.content);
    match (last.content, msg.content) {
        (MessageContent::Blocks { content: prev }, MessageContent::Blocks { content: curr }) => {
            let mut prev = prev;
            let mut curr = curr;
            let ghost (p0, c0) = (prev@, curr@);
            prev.append(&mut curr);
            assert(blocks_view(prev@) =~= blocks_view(p0) + blocks_view(c0));
            Message::new_blocks(role, prev)
        },
        (MessageContent::Text { content: prev }, MessageContent::Text { content: curr }) => {
            let mut prev = prev;
            let ghost p0 = prev@;
            prev.append("\n");
            prev.append(curr.as_str());
            proof {
                reveal_strlit("\n");
                assert(prev@ =~= p0 + seq!['\n'] + curr@);
            }
            Message::new_text(role, prev)
        },
        (MessageContent::Text { content: prev }, MessageContent::Blocks { content: curr }) => {
            let mut blocks: Vec<ContentBlock> = Vec::new();
            let ghost pt = prev@;
            blocks.push(ContentBlock::Text { text: prev });
            let ghost b0 = blocks@;
            assert(blocks_view(b0) =~= seq![BlockView::Text { text: pt }]);
            let mut curr = curr;
            let ghost c0 = curr@;
            blocks.append(&mut curr);
            assert(blocks_view(blocks@) =~= blocks_view(b0) + blocks_view(c0));
            Message::new_blocks(role, blocks)
        },
        (MessageContent::Blocks { content: prev }, MessageContent::Text { content: curr }) => {
            let mut prev = prev;
            let ghost p0 = prev@;
            let ghost t = curr@;
            prev.push(ContentBlock::Text { text: curr });
            assert(blocks_view(prev@) =~= blocks_view(p0).push(BlockView::Text { text: t }));
            Message::new_blocks(role, prev)
        },
    }
}

/// The messages sent to the model for the conversation `context`: each tool
/// request answered in the next user message (a missing answer stands as
/// "(cancelled)"), tool results that answer nothing dropped, and consecutive
/// messages of one sender merged.
pub fn normalize_messages(context: &Vec<Message>) -> (r: Vec<Message>)
    ensures
        messages_view(r@) == normalized(messages_view(context@)),
{
    let ghost cv = messages_view(context@);
    let mut messages: Vec<Message> = Vec::new();
    let mut index: usize = 0;
    while index < context.len()
        invariant
            cv == messages_view(context@),
            index <= context@.len(),
            messages_view(messages@) + paired_from(cv, index as nat) == paired_from(cv, 0),
        decreases context@.len() - index,
    {
        let ghost before = messages_view(messages@);
        let msg = &context[index];
        let ids = tool_use_ids_of(msg);
        assert(cv[index as int] == msg@);
        if ids.len() == 0 {
            let stripped = strip_orphan_tool_results(msg.duplicate());
            match stripped {
                Some(m) => {
                    let ghost mv = m@;
                    messages.push(m);
                    assert(messages_view(messages@) =~= before.push(mv));
                    assert(before.push(mv) + paired_from(cv, (index + 1) as nat) =~= before + (seq![mv] + paired_from(cv, (index + 1) as nat)));
                },
                None => {},
            }
            index = index + 1;
        } else {
            messages.push(msg.duplicate());
            let consumed = index + 1 < context.len() && context[index + 1].role == Role::User;
            let follow: Vec<ContentBlock> = if consumed {
                user_blocks_of(&context[index + 1])
            } else {
                Vec::new()
            };
            proof {
                if consumed {
                    assert(cv[index + 1] == context@[index + 1]@);
                } else {
                    assert(blocks_view(follow@) =~= Seq::<BlockView>::empty());
                }
            }
            let mut result_blocks = answer_requests(&ids, &follow);
            let mut rest = blocks_without_results(&follow);
            let ghost (a0, r0) = (result_blocks@, rest@);
            result_blocks.append(&mut rest);
            assert(blocks_view(result_blocks@) =~= blocks_view(a0) + blocks_view(r0));
            let reply = Message::new_blocks(Role::User, result_blocks);
            assert(reply@ == reply_to(cv, index as int));
            messages.push(reply);
            let ghost chunk = seq![msg@, reply_to(cv, index as int)];
            index = if consumed { index + 2 } else { index + 1 };
            assert(messages_view(messages@) =~= before + chunk);
            assert(before + chunk + paired_from(cv, index as nat) =~= before + (chunk + paired_from(cv, index as nat)));
        }
    }
    let ghost pv = paired_from(cv, 0);
    assert(messages_view(messages@) =~= pv);

    let mut merged: Vec<Message> = Vec::new();
    let mut i: usize = 0;
    while i < messages.len()
        invariant
            pv == messages_view(messages@),
            i <= messages@.len(),
            messages_view(merged@) == merge_runs(pv.subrange(0, i as int)),
        decreases messages@.len() - i,
    {
        let ghost acc = messages_view(merged@);
        let msg = messages[i].duplicate();
        proof {
            assert(pv.subrange(0, i + 1).drop_last() =~= pv.subrange(0, i as int));
            assert(pv.subrange(0, i + 1).last() == msg@);
        }
        let n = merged.len();
        if n > 0 && merged[n - 1].role == msg.role {
            let last = merged.pop().unwrap();
            assert(last@ == acc.last());
            let combined = merge_messages(last, msg);
            merged.push(combined);
            assert(messages_view(merged@) =~= push_merged(acc, messages@[i as int]@));
        } else {
            let ghost mv = msg@;
            merged.push(msg);
            assert(messages_view(merged@) =~= push_merged(acc, mv));
        }
        i = i + 1;
    }
    assert(pv.subrange(0, messages@.len() as int) =~= pv);
    merged
}

// ---------------------------------------------------------------------------
// Proofs
// ---------------------------------------------------------------------------

proof fn lemma_tool_use_ids_concat(a: Seq<BlockView>, b: Seq<BlockView>)
    ensures
        tool_use_ids_of_blocks(a + b) == tool_use_ids_of_blocks(a) + tool_use_ids_of_blocks(b),
    decreases b.len(),
{
    if b.len() == 0 {
        assert(a + b =~= a);
        assert(tool_use_ids_of_blocks(b) =~= Seq::<Seq<char>>::empty());
        assert(tool_use_ids_of_blocks(a) + tool_use_ids_of_blocks(b) =~= tool_use_ids_of_blocks(a));
    } else {
        assert((a + b).drop_last() =~= a + b.drop_last());
        lemma_tool_use_ids_concat(a, b.drop_last());
        let ia = tool_use_ids_of_blocks(a);
        let ib = tool_use_ids_of_blocks(b.drop_last());
        match b.last() {
            BlockView::ToolUse { id, .. } => {
                assert((ia + ib).push(id) =~= ia + ib.push(id));
            },
            _ => {},
        }
    }
}

pub(crate) proof fn lemma_result_ids_concat(a: Seq<BlockView>, b: Seq<BlockView>)
    ensures
        result_ids(a + b) == result_ids(a) + result_ids(b),
    decreases b.len(),
{
    if b.len() == 0 {
        assert(a + b =~= a);
        assert(result_ids(b) =~= Seq::<Seq<char>>::empty());
        assert(result_ids(a) + result_ids(b) =~= result_ids(a));
    } else {
        assert((a + b).drop_last() =~= a + b.drop_last());
        lemma_result_ids_concat(a, b.drop_last());
        let ia = result_ids(a);
        let ib = result_ids(b.drop_last());
        match b.last() {
            BlockView::ToolResult { tool_use_id, .. } => {
                assert((ia + ib).push(tool_use_id) =~= ia + ib.push(tool_use_id));
            },
            _ => {},
        }
    }
}

proof fn lemma_no_result_ids(bs: Seq<BlockView>)
    requires
        result_ids(bs).len() == 0,
    ensures
        forall|i: int| 0 <= i < bs.len() ==> !((#[trigger] bs[i]) is ToolResult),
    decreases bs.len(),
{
    if bs.len() > 0 {
        lemma_no_result_ids(bs.drop_last());
        assert forall|i: int| 0 <= i < bs.len() implies !((#[trigger] bs[i]) is ToolResult) by {
            if i < bs.len() - 1 {
                assert(bs.drop_last()[i] == bs[i]);
            }
        }
    }
}

proof fn lemma_without_results_has_none(bs: Seq<BlockView>)
    ensures
        result_ids(without_results(bs)) == Seq::<Seq<char>>::empty(),
        forall|i: int| 0 <= i < without_results(bs).len() ==> !((#[trigger] without_results(bs)[i]) is ToolResult),
    decreases bs.len(),
{
    if bs.len() == 0 {
        assert(result_ids(without_results(bs)) =~= Seq::<Seq<char>>::empty());
    } else {
        lemma_without_results_has_none(bs.drop_last());
        let rest = without_results(bs.drop_last());
        if !(bs.last() is ToolResult) {
            assert(rest.push(bs.last()).drop_last() =~= rest);
        }
    }
    lemma_no_result_ids(without_results(bs));
}

proof fn lemma_last_result_shape(bs: Seq<BlockView>, id: Seq<char>)
    ensures
        last_result(bs, id) is Some ==> (last_result(bs, id).unwrap() matches BlockView::ToolResult { tool_use_id, .. } && tool_use_id == id),
    decreases bs.len(),
{
    if bs.len() > 0 {
        lemma_last_result_shape(bs.drop_last(), id);
    }
}

pub(crate) proof fn lemma_result_ids_of_answers(bs: Seq<BlockView>, ids: Seq<Seq<char>>)
    requires
        bs.len() == ids.len(),
        forall|k: int| 0 <= k < bs.len() ==> (#[trigger] bs[k] matches BlockView::ToolResult { tool_use_id, .. } && tool_use_id == ids[k]),
    ensures
        result_ids(bs) == ids,
    decreases bs.len(),
{
    if bs.len() == 0 {
        assert(result_ids(bs) =~= ids);
    } else {
        assert forall|k: int| 0 <= k < bs.drop_last().len() implies (#[trigger] bs.drop_last()[k] matches BlockView::ToolResult { tool_use_id, .. } && tool_use_id == ids.drop_last()[k]) by {
            assert(bs.drop_last()[k] == bs[k]);
        }
        lemma_result_ids_of_answers(bs.drop_last(), ids.drop_last());
        assert(bs[bs.len() - 1] matches BlockView::ToolResult { tool_use_id, .. } && tool_use_id == ids[ids.len() - 1]);
        assert(ids.drop_last().push(ids.last()) =~= ids);
    }
}

proof fn lemma_answers_shape(ids: Seq<Seq<char>>, follow: Seq<BlockView>)
    ensures
        result_ids(answers(ids, follow)) == ids,
        forall|k: int| 0 <= k < ids.len() ==> (#[trigger] answers(ids, follow)[k]) is ToolResult,
{
    let a = answers(ids, follow);
    assert forall|k: int| 0 <= k < a.len() implies (#[trigger] a[k] matches BlockView::ToolResult { tool_use_id, .. } && tool_use_id == ids[k]) by {
        lemma_last_result_shape(follow, ids[k]);
    }
    lemma_result_ids_of_answers(a, ids);
}

proof fn lemma_reply_shape(ctx: Seq<MessageView>, i: int)
    requires
        0 <= i < ctx.len(),
    ensures
        message_result_ids(reply_to(ctx, i)) == tool_use_ids(ctx[i]),
        message_results_lead(reply_to(ctx, i)),
{
    let follow = if takes_next(ctx, i) { user_blocks(ctx[i + 1int]) } else { Seq::<BlockView>::empty() };
    let ids = tool_use_ids(ctx[i]);
    let a = answers(ids, follow);
    let w = without_results(follow);
    lemma_answers_shape(ids, follow);
    lemma_without_results_has_none(follow);
    lemma_result_ids_concat(a, w);
    assert(result_ids(a) + result_ids(w) =~= ids);
    let bs = a + w;
    assert forall|x: int, y: int| 0 <= x < y < bs.len() && (#[trigger] bs[y]) is ToolResult implies (#[trigger] bs[x]) is ToolResult by {
        if y >= a.len() {
            assert(bs[y] == w[y - a.len()]);
        }
        assert(bs[x] == a[x]);
    }
}

/// The shape that the pairing step gives and the merge step keeps.
pub open spec fn well_paired(s: Seq<MessageView>) -> bool {
    requests_followed(s) && results_answer_requests(s)
}

proof fn lemma_well_paired_concat(c: Seq<MessageView>, r: Seq<MessageView>)
    requires
        well_paired(c),
        well_paired(r),
        c.len() > 0 ==> tool_use_ids(c.last()).len() == 0,
    ensures
        well_paired(c + r),
{
    let s = c + r;
    assert forall|i: int| 0 <= i < s.len() && (#[trigger] tool_use_ids(s[i])).len() > 0 implies i + 1 < s.len() by {
        if i < c.len() {
            assert(s[i] == c[i]);
        } else {
            assert(s[i] == r[i - c.len()]);
        }
    }
    assert forall|i: int, j: int|
        #![trigger s[i], s[j]]
        0 <= i && j == i + 1 && j < s.len() && tool_use_ids(s[i]).len() > 0 implies s[j].role == Role::User by {
        if j < c.len() {
            assert(s[i] == c[i] && s[j] == c[j]);
        } else if i < c.len() {
            assert(s[i] == c.last());
        } else {
            assert(s[i] == r[i - c.len()] && s[j] == r[j - c.len()]);
        }
    }
    assert forall|i: int| 0 <= i < s.len() && (#[trigger] s[i]).role == Role::User implies message_results_lead(s[i]) by {
        if i < c.len() {
            assert(s[i] == c[i]);
        } else {
            assert(s[i] == r[i - c.len()]);
        }
    }
    if c.len() == 0 {
        assert(s =~= r);
    } else {
        assert(s[0] == c[0]);
    }
    assert forall|i: int, j: int|
        #![trigger s[i], s[j]]
        0 <= i && j == i + 1 && j < s.len() && s[j].role == Role::User implies message_result_ids(s[j]) == tool_use_ids(s[i]) by {
        if j < c.len() {
            assert(s[i] == c[i] && s[j] == c[j]);
        } else if i < c.len() {
            assert(s[i] == c.last());
            assert(s[j] == r[0]);
            assert(message_result_ids(r[0]).len() == 0);
            assert(message_result_ids(s[j]) =~= tool_use_ids(s[i]));
        } else {
            assert(s[i] == r[i - c.len()] && s[j] == r[j - c.len()]);
        }
    }
}

proof fn lemma_paired_well_formed(ctx: Seq<MessageView>, i: nat)
    ensures
        well_paired(paired_from(ctx, i)),
    decreases ctx.len() - i,
{
    if i >= ctx.len() {
    } else if tool_use_ids(ctx[i as int]).len() == 0 {
        lemma_paired_well_formed(ctx, i + 1);
        let rest = paired_from(ctx, i + 1);
        match strip_orphans(ctx[i as int]) {
            Some(m) => {
                let c = seq![m];
                if m.role == Role::User {
                    match ctx[i as int].content {
                        ContentView::Blocks(bs) => {
                            lemma_without_results_has_none(bs);
                        },
                        ContentView::Text(_) => {},
                    }
                    assert(message_result_ids(m).len() == 0);
                    assert(message_results_lead(m));
                }
                assert(tool_use_ids(m).len() == 0);
                assert(well_paired(c));
                lemma_well_paired_concat(c, rest);
            },
            None => {},
        }
    } else {
        let next: nat = if takes_next(ctx, i as int) { i + 2 } else { i + 1 };
        lemma_paired_well_formed(ctx, next);
        let reply = reply_to(ctx, i as int);
        let c = seq![ctx[i as int], reply];
        lemma_reply_shape(ctx, i as int);
        assert(ctx[i as int].role == Role::Assistant);
        assert(tool_use_ids(c.last()) =~= Seq::<Seq<char>>::empty());
        assert(well_paired(c));
        lemma_well_paired_concat(c, paired_from(ctx, next));
    }
}

/// The tool requests of some content, if an assistant sent it.
spec fn content_ids(c: ContentView) -> Seq<Seq<char>> {
    tool_use_ids(MessageView { role: Role::Assistant, content: c })
}

/// The tool results of some content.
spec fn content_results(c: ContentView) -> Seq<Seq<char>> {
    message_result_ids(MessageView { role: Role::User, content: c })
}

proof fn lemma_merge_ids(a: ContentView, b: ContentView)
    ensures
        content_ids(merge_contents(a, b)) == content_ids(a) + content_ids(b),
        content_results(merge_contents(a, b)) == content_results(a) + content_results(b),
{
    let e = Seq::<Seq<char>>::empty();
    match (a, b) {
        (ContentView::Blocks(p), ContentView::Blocks(c)) => {
            lemma_tool_use_ids_concat(p, c);
            lemma_result_ids_concat(p, c);
        },
        (ContentView::Text(p), ContentView::Text(c)) => {
            assert(e + e =~= e);
        },
        (ContentView::Text(p), ContentView::Blocks(c)) => {
            let t = seq![BlockView::Text { text: p }];
            lemma_tool_use_ids_concat(t, c);
            lemma_result_ids_concat(t, c);
            assert(t.drop_last() =~= Seq::<BlockView>::empty());
            assert(tool_use_ids_of_blocks(Seq::<BlockView>::empty()) =~= e);
            assert(result_ids(Seq::<BlockView>::empty()) =~= e);
            assert(t.last() is Text);
            assert(tool_use_ids_of_blocks(t) =~= e);
            assert(result_ids(t) =~= e);
            assert(e + tool_use_ids_of_blocks(c) =~= tool_use_ids_of_blocks(c));
            assert(e + result_ids(c) =~= result_ids(c));
        },
        (ContentView::Blocks(p), ContentView::Text(c)) => {
            let t = BlockView::Text { text: c };
            assert(p.push(t).drop_last() =~= p);
            assert(tool_use_ids_of_blocks(p) + e =~= tool_use_ids_of_blocks(p));
            assert(result_ids(p) + e =~= result_ids(p));
        },
    }
}

/// Whether content `c` holds no tool result.
spec fn holds_no_result(c: ContentView) -> bool {
    match c {
        ContentView::Blocks(bs) => forall|i: int| 0 <= i < bs.len() ==> !((#[trigger] bs[i]) is ToolResult),
        ContentView::Text(_) => true,
    }
}

proof fn lemma_merge_lead(a: ContentView, b: ContentView)
    requires
        message_results_lead(MessageView { role: Role::User, content: a }),
        holds_no_result(b),
    ensures
        message_results_lead(MessageView { role: Role::User, content: merge_contents(a, b) }),
{
    match merge_contents(a, b) {
        ContentView::Blocks(bs) => {
            assert forall|x: int, y: int| 0 <= x < y < bs.len() && (#[trigger] bs[y]) is ToolResult implies (#[trigger] bs[x]) is ToolResult by {
                match (a, b) {
                    (ContentView::Blocks(pp), ContentView::Blocks(cc)) => {
                        if y >= pp.len() {
                            assert(bs[y] == cc[y - pp.len()]);
                        } else {
                            assert(bs[y] == pp[y]);
                            assert(bs[x] == pp[x]);
                        }
                    },
                    (ContentView::Text(pp), ContentView::Blocks(cc)) => {
                        if y >= 1 {
                            assert(bs[y] == cc[y - 1]);
                        }
                    },
                    (ContentView::Blocks(pp), ContentView::Text(cc)) => {
                        if y < pp.len() {
                            assert(bs[y] == pp[y]);
                            assert(bs[x] == pp[x]);
                        }
                    },
                    (ContentView::Text(pp), ContentView::Text(cc)) => {},
                }
            }
        },
        ContentView::Text(_) => {},
    }
}

/// What holds of a merged prefix `m`, apart from its link to the input.
spec fn merged_shape(m: Seq<MessageView>) -> bool {
    &&& senders_alternate(m)
    &&& forall|i: int, j: int|
        #![trigger m[i], m[j]]
        0 <= i && j == i + 1 && j < m.len() && tool_use_ids(m[i]).len() > 0 ==> m[j].role == Role::User
    &&& results_answer_requests(m)
}

proof fn lemma_merge_step_merge(m: Seq<MessageView>, x: MessageView)
    requires
        merged_shape(m),
        m.len() > 0,
        m.last().role == x.role,
        tool_use_ids(m.last()).len() == 0,
        x.role == Role::User ==> holds_no_result(x.content) && message_result_ids(x).len() == 0,
    ensures
        merged_shape(push_merged(m, x)),
        push_merged(m, x).len() == m.len(),
        push_merged(m, x).last().role == x.role,
        tool_use_ids(push_merged(m, x).last()) == tool_use_ids(x),
{
    let last = m.last();
    let ml = m.len() - 1;
    let merged = MessageView { role: x.role, content: merge_contents(last.content, x.content) };
    let m2 = m.update(ml, merged);
    assert(push_merged(m, x) == m2);
    lemma_merge_ids(last.content, x.content);
    if x.role == Role::Assistant {
        assert(content_ids(last.content) == tool_use_ids(last));
        assert(content_ids(last.content) + content_ids(x.content) =~= content_ids(x.content));
    } else {
        assert(content_results(x.content) == message_result_ids(x));
        assert(content_results(last.content) == message_result_ids(last));
        assert(content_results(last.content) + content_results(x.content) =~= content_results(last.content));
        assert(m[ml] == last);
        assert(message_results_lead(m[ml]));
        lemma_merge_lead(last.content, x.content);
    }
    assert(tool_use_ids(merged) =~= tool_use_ids(x));
    assert forall|i: int| 0 <= i < m2.len() && (#[trigger] m2[i]).role == Role::User implies message_results_lead(m2[i]) by {
        if i < ml {
            assert(m2[i] == m[i]);
        }
    }
    if ml > 0 {
        assert(m2[0] == m[0]);
    }
    assert forall|i: int, j: int|
        #![trigger m2[i], m2[j]]
        0 <= i && j == i + 1 && j < m2.len() && m2[j].role == Role::User implies message_result_ids(m2[j]) == tool_use_ids(m2[i]) by {
        assert(m2[i] == m[i]);
        if j < ml {
            assert(m2[j] == m[j]);
        } else {
            assert(m[j].role == Role::User);
            assert(message_result_ids(m[j]) == tool_use_ids(m[i]));
        }
    }
    assert forall|i: int, j: int|
        #![trigger m2[i], m2[j]]
        0 <= i && j == i + 1 && j < m2.len() implies m2[i].role != m2[j].role by {
        assert(m2[i] == m[i]);
        if j < ml {
            assert(m2[j] == m[j]);
        }
        assert(m[i].role != m[j].role);
    }
    assert forall|i: int, j: int|
        #![trigger m2[i], m2[j]]
        0 <= i && j == i + 1 && j < m2.len() && tool_use_ids(m2[i]).len() > 0 implies m2[j].role == Role::User by {
        assert(m2[i] == m[i]);
        if j < ml {
            assert(m2[j] == m[j]);
        }
        assert(m[j].role == Role::User);
    }
}

proof fn lemma_merge_step_push(m: Seq<MessageView>, x: MessageView)
    requires
        merged_shape(m),
        m.len() == 0 || m.last().role != x.role,
        x.role == Role::User ==> message_results_lead(x)
            && message_result_ids(x) == (if m.len() > 0 { tool_use_ids(m.last()) } else { Seq::<Seq<char>>::empty() }),
    ensures
        merged_shape(push_merged(m, x)),
        push_merged(m, x).len() == m.len() + 1,
        push_merged(m, x).last() == x,
{
    let m2 = m.push(x);
    let ml = m.len();
    assert(push_merged(m, x) == m2);
    assert forall|i: int| 0 <= i < m2.len() && (#[trigger] m2[i]).role == Role::User implies message_results_lead(m2[i]) by {
        if i < ml {
            assert(m2[i] == m[i]);
        }
    }
    if ml > 0 {
        assert(m2[0] == m[0]);
    }
    assert forall|i: int, j: int|
        #![trigger m2[i], m2[j]]
        0 <= i && j == i + 1 && j < m2.len() && m2[j].role == Role::User implies message_result_ids(m2[j]) == tool_use_ids(m2[i]) by {
        assert(m2[i] == m[i]);
        if j < ml {
            assert(m2[j] == m[j]);
        }
    }
    assert forall|i: int, j: int|
        #![trigger m2[i], m2[j]]
        0 <= i && j == i + 1 && j < m2.len() implies m2[i].role != m2[j].role by {
        assert(m2[i] == m[i]);
        if j < ml {
            assert(m2[j] == m[j]);
        }
    }
    assert forall|i: int, j: int|
        #![trigger m2[i], m2[j]]
        0 <= i && j == i + 1 && j < m2.len() && tool_use_ids(m2[i]).len() > 0 implies m2[j].role == Role::User by {
        assert(m2[i] == m[i]);
        if j < ml {
            assert(m2[j] == m[j]);
        } else {
            assert(m[i].role == Role::Assistant);
        }
    }
}

/// What holds of the merge of the first `k` messages of a well paired `s`.
spec fn merge_prefix_inv(m: Seq<MessageView>, s: Seq<MessageView>, k: int) -> bool {
    &&& (k == 0 ==> m.len() == 0)
    &&& (k > 0 ==> m.len() > 0 && m.last().role == s[k - 1].role && tool_use_ids(m.last()) == tool_use_ids(s[k - 1]))
    &&& merged_shape(m)
}

proof fn lemma_merge_prefix(s: Seq<MessageView>, k: int)
    requires
        well_paired(s),
        0 <= k <= s.len(),
    ensures
        merge_prefix_inv(merge_runs(s.subrange(0, k)), s, k),
    decreases k,
{
    if k == 0 {
        assert(s.subrange(0, 0).len() == 0);
        let m = merge_runs(s.subrange(0, 0));
        assert(m.len() == 0);
    } else {
        lemma_merge_prefix(s, k - 1);
        let p = s.subrange(0, k);
        assert(p.drop_last() =~= s.subrange(0, k - 1));
        let m = merge_runs(s.subrange(0, k - 1));
        let x = s[k - 1];
        assert(p.last() == x);
        assert(merge_runs(p) == push_merged(m, x));
        if k >= 2 {
            let i = k - 2;
            let j = k - 1;
            assert(s[i] == s[i] && s[j] == s[j]);
            if x.role == Role::User {
                assert(message_result_ids(s[j]) == tool_use_ids(s[i]));
            }
            if tool_use_ids(s[i]).len() > 0 {
                assert(s[j].role == Role::User);
            }
        }
        if x.role == Role::User {
            assert(message_results_lead(s[k - 1]));
        }
        if m.len() > 0 && m.last().role == x.role {
            assert(k >= 2);
            assert(s[k - 2].role == x.role);
            if x.role == Role::User {
                assert(tool_use_ids(s[k - 2]).len() == 0);
                match x.content {
                    ContentView::Blocks(c) => {
                        lemma_no_result_ids(c);
                    },
                    ContentView::Text(_) => {},
                }
            }
            lemma_merge_step_merge(m, x);
        } else {
            if x.role == Role::User {
                if m.len() > 0 {
                    assert(k >= 2);
                    assert(message_result_ids(x) == tool_use_ids(m.last()));
                } else {
                    assert(k == 1);
                    assert(s[0] == x);
                    assert(message_result_ids(x) =~= Seq::<Seq<char>>::empty());
                }
            }
            lemma_merge_step_push(m, x);
        }
    }
}

proof fn lemma_merge_well_paired(s: Seq<MessageView>)
    requires
        well_paired(s),
    ensures
        senders_alternate(merge_runs(s)),
        well_paired(merge_runs(s)),
{
    lemma_merge_prefix(s, s.len() as int);
    assert(s.subrange(0, s.len() as int) =~= s);
    let m = merge_runs(s);
    if m.len() > 0 && tool_use_ids(m.last()).len() > 0 {
        assert(tool_use_ids(s[s.len() - 1]).len() > 0);
        assert(false);
    }
    assert forall|i: int| 0 <= i < m.len() && (#[trigger] tool_use_ids(m[i])).len() > 0 implies i + 1 < m.len() by {
        if i == m.len() - 1 {
            assert(m[i] == m.last());
        }
    }
}

/// The messages sent to the model never hold two consecutive messages of one sender.
pub proof fn lemma_normalized_senders_alternate(ctx: Seq<MessageView>)
    ensures
        senders_alternate(normalized(ctx)),
{
    lemma_paired_well_formed(ctx, 0);
    lemma_merge_well_paired(paired_from(ctx, 0));
}

/// In the messages sent to the model, every message that requests tools is
/// followed by a user message.
pub proof fn lemma_normalized_requests_followed(ctx: Seq<MessageView>)
    ensures
        requests_followed(normalized(ctx)),
{
    lemma_paired_well_formed(ctx, 0);
    lemma_merge_well_paired(paired_from(ctx, 0));
}

/// In the messages sent to the model, every user message opens with one tool
/// result for each tool request of the message before it, in the order of the
/// requests, and holds no other tool result.
pub proof fn lemma_normalized_results_answer_requests(ctx: Seq<MessageView>)
    ensures
        results_answer_requests(normalized(ctx)),
{
    lemma_paired_well_formed(ctx, 0);
    lemma_merge_well_paired(paired_from(ctx, 0));
}

/// Whether message `m` is a user message made of no blocks at all.
pub open spec fn empty_user_blocks(m: MessageView) -> bool {
    m.role == Role::User && (m.content matches ContentView::Blocks(bs) && bs.len() == 0)
}

/// What the messages sent to the model keep of each message: no user message
/// made of no blocks, and no tool request id twice in one message.
spec fn tidy(m: MessageView) -> bool {
    !empty_user_blocks(m) && tool_use_ids(m).no_duplicates()
}

proof fn lemma_results_split(bs: Seq<BlockView>)
    requires
        results_lead(bs),
    ensures
        result_ids(bs).len() <= bs.len(),
        forall|j: int| 0 <= j < result_ids(bs).len() ==>
            (#[trigger] bs[j] matches BlockView::ToolResult { tool_use_id, .. } && tool_use_id == result_ids(bs)[j]),
        forall|j: int| result_ids(bs).len() <= j < bs.len() ==> !((#[trigger] bs[j]) is ToolResult),
        without_results(bs) == bs.subrange(result_ids(bs).len() as int, bs.len() as int),
    decreases bs.len(),
{
    if bs.len() > 0 {
        let b = bs.drop_last();
        assert(results_lead(b)) by {
            assert forall|i: int, j: int| 0 <= i < j < b.len() && (#[trigger] b[j]) is ToolResult implies (#[trigger] b[i]) is ToolResult by {
                assert(b[j] == bs[j] && b[i] == bs[i]);
            }
        }
        lemma_results_split(b);
        let r = result_ids(b).len();
        let n = bs.len() as int;
        if bs.last() is ToolResult {
            assert forall|j: int| 0 <= j < n - 1 implies (#[trigger] b[j]) is ToolResult by {
                assert(bs[j] == b[j]);
                assert(bs[n - 1] is ToolResult);
            }
            if r < n - 1 {
                assert(b[r as int] is ToolResult);
                assert(false);
            }
            assert forall|j: int| 0 <= j < result_ids(bs).len() implies
                (#[trigger] bs[j] matches BlockView::ToolResult { tool_use_id, .. } && tool_use_id == result_ids(bs)[j]) by {
                if j < n - 1 {
                    assert(bs[j] == b[j]);
                }
            }
            assert(without_results(bs) =~= bs.subrange(n, n));
        } else {
            assert forall|j: int| 0 <= j < result_ids(bs).len() implies
                (#[trigger] bs[j] matches BlockView::ToolResult { tool_use_id, .. } && tool_use_id == result_ids(bs)[j]) by {
                assert(bs[j] == b[j]);
            }
            assert forall|j: int| result_ids(bs).len() <= j < bs.len() implies !((#[trigger] bs[j]) is ToolResult) by {
                if j < n - 1 {
                    assert(bs[j] == b[j]);
                }
            }
            assert(without_results(bs) =~= bs.subrange(r as int, n));
        }
    }
}

proof fn lemma_last_result_at(bs: Seq<BlockView>, id: Seq<char>, k: int)
    requires
        0 <= k < bs.len(),
        bs[k] matches BlockView::ToolResult { tool_use_id, .. } && tool_use_id == id,
        forall|j: int| k < j < bs.len() ==> !(#[trigger] bs[j] matches BlockView::ToolResult { tool_use_id, .. } && tool_use_id == id),
    ensures
        last_result(bs, id) == Some(bs[k]),
    decreases bs.len(),
{
    let n = bs.len() as int;
    if k < n - 1 {
        assert(!(bs[n - 1] matches BlockView::ToolResult { tool_use_id, .. } && tool_use_id == id));
        let b = bs.drop_last();
        assert forall|j: int| k < j < b.len() implies !(#[trigger] b[j] matches BlockView::ToolResult { tool_use_id, .. } && tool_use_id == id) by {
            assert(b[j] == bs[j]);
        }
        lemma_last_result_at(b, id, k);
        assert(b[k] == bs[k]);
    }
}

/// The user message after a request that the messages sent to the model
/// already answer is what the pairing step makes of it again.
proof fn lemma_reply_is_next(s: Seq<MessageView>, i: int)
    requires
        0 <= i,
        i + 1 < s.len(),
        s[i + 1].role == Role::User,
        tool_use_ids(s[i]).len() > 0,
        tool_use_ids(s[i]).no_duplicates(),
        message_result_ids(s[i + 1]) == tool_use_ids(s[i]),
        message_results_lead(s[i + 1]),
    ensures
        reply_to(s, i) == s[i + 1],
{
    let ids = tool_use_ids(s[i]);
    match s[i + 1].content {
        ContentView::Text(_) => {
            assert(false);
        },
        ContentView::Blocks(bs) => {
            lemma_results_split(bs);
            let r = ids.len() as int;
            assert(user_blocks(s[i + 1]) == bs);
            let a = answers(ids, bs);
            assert forall|k: int| 0 <= k < r implies #[trigger] a[k] == bs[k] by {
                assert forall|j: int| k < j < bs.len() implies !(#[trigger] bs[j] matches BlockView::ToolResult { tool_use_id, .. } && tool_use_id == ids[k]) by {
                    if j < r {
                        assert(ids[j] != ids[k]);
                    } else {
                        assert(!(bs[j] is ToolResult));
                    }
                }
                lemma_last_result_at(bs, ids[k], k);
                if ids.subrange(0, k).contains(ids[k]) {
                    let x = choose|x: int| 0 <= x < k && ids.subrange(0, k)[x] == ids[k];
                    assert(ids[x] == ids[k]);
                    assert(false);
                }
            }
            assert(a =~= bs.subrange(0, r));
            assert(a + without_results(bs) =~= bs);
        },
    }
}

proof fn lemma_paired_identity(s: Seq<MessageView>, i: nat)
    requires
        well_paired(s),
        forall|j: int| 0 <= j < s.len() ==> tidy(#[trigger] s[j]),
        i <= s.len(),
        i > 0 ==> tool_use_ids(s[i - 1]).len() == 0,
    ensures
        paired_from(s, i) == s.subrange(i as int, s.len() as int),
    decreases s.len() - i,
{
    let n = s.len() as int;
    if i == n {
        assert(s.subrange(n, n) =~= Seq::<MessageView>::empty());
    } else {
        let m = s[i as int];
        assert(tidy(m));
        if tool_use_ids(m).len() == 0 {
            if m.role == Role::User {
                if i > 0 {
                    let a = i - 1;
                    let b = i as int;
                    assert(s[a] == s[a] && s[b] == s[b]);
                    assert(message_result_ids(s[b]) == tool_use_ids(s[a]));
                }
                assert(message_results_lead(m));
                match m.content {
                    ContentView::Blocks(bs) => {
                        lemma_results_split(bs);
                        assert(bs.subrange(0, bs.len() as int) =~= bs);
                    },
                    ContentView::Text(_) => {},
                }
            }
            assert(strip_orphans(m) == Some(m));
            lemma_paired_identity(s, i + 1);
            assert(seq![m] + s.subrange(i + 1int, n) =~= s.subrange(i as int, n));
        } else {
            assert(i + 1 < n);
            let a = i as int;
            let b = a + 1;
            assert(s[a] == s[a] && s[b] == s[b]);
            assert(s[b].role == Role::User);
            assert(message_result_ids(s[b]) == tool_use_ids(s[a]));
            assert(tidy(s[b]));
            lemma_reply_is_next(s, a);
            assert(takes_next(s, a));
            assert(tool_use_ids(s[b]).len() == 0);
            lemma_paired_identity(s, i + 2);
            assert(seq![s[a], s[b]] + s.subrange(a + 2, n) =~= s.subrange(a, n));
        }
    }
}

proof fn lemma_merge_alternating(s: Seq<MessageView>)
    requires
        senders_alternate(s),
    ensures
        merge_runs(s) == s,
    decreases s.len(),
{
    if s.len() > 0 {
        let b = s.drop_last();
        assert(senders_alternate(b)) by {
            assert forall|i: int, j: int| #![trigger b[i], b[j]] 0 <= i && j == i + 1 && j < b.len() implies b[i].role != b[j].role by {
                assert(b[i] == s[i] && b[j] == s[j]);
            }
        }
        lemma_merge_alternating(b);
        if b.len() > 0 {
            let i = b.len() - 1;
            let j = i + 1;
            assert(s[i] == s[i] && s[j] == s[j]);
            assert(b.last() == s[i]);
        }
        assert(b.push(s.last()) =~= s);
    }
}

proof fn lemma_paired_tidy(ctx: Seq<MessageView>, i: nat)
    requires
        forall|j: int| 0 <= j < ctx.len() ==> (#[trigger] tool_use_ids(ctx[j])).no_duplicates(),
    ensures
        forall|j: int| 0 <= j < paired_from(ctx, i).len() ==> tidy(#[trigger] paired_from(ctx, i)[j]),
    decreases ctx.len() - i,
{
    if i < ctx.len() {
        let m = ctx[i as int];
        assert(tool_use_ids(m).no_duplicates());
        let e = Seq::<Seq<char>>::empty();
        assert(e.no_duplicates());
        if tool_use_ids(m).len() == 0 {
            lemma_paired_tidy(ctx, i + 1);
            let rest = paired_from(ctx, i + 1);
            match strip_orphans(m) {
                Some(x) => {
                    if m.role == Role::User {
                        assert(tool_use_ids(x) =~= e);
                    }
                    assert(tidy(x));
                    let p = seq![x] + rest;
                    assert forall|j: int| 0 <= j < p.len() implies tidy(#[trigger] p[j]) by {
                        if j > 0 {
                            assert(p[j] == rest[j - 1]);
                        }
                    }
                },
                None => {},
            }
        } else {
            let next: nat = if takes_next(ctx, i as int) { i + 2 } else { i + 1 };
            lemma_paired_tidy(ctx, next);
            let rest = paired_from(ctx, next);
            let reply = reply_to(ctx, i as int);
            assert(tool_use_ids(reply) =~= e);
            let follow = if takes_next(ctx, i as int) { user_blocks(ctx[i + 1int]) } else { Seq::<BlockView>::empty() };
            assert(answers(tool_use_ids(m), follow).len() > 0);
            assert(tidy(reply));
            let p = seq![m, reply] + rest;
            assert forall|j: int| 0 <= j < p.len() implies tidy(#[trigger] p[j]) by {
                if j > 1 {
                    assert(p[j] == rest[j - 2]);
                }
            }
        }
    }
}

proof fn lemma_merge_tidy(s: Seq<MessageView>, k: int)
    requires
        well_paired(s),
        forall|j: int| 0 <= j < s.len() ==> tidy(#[trigger] s[j]),
        0 <= k <= s.len(),
    ensures
        forall|j: int| 0 <= j < merge_runs(s.subrange(0, k)).len() ==> tidy(#[trigger] merge_runs(s.subrange(0, k))[j]),
    decreases k,
{
    if k > 0 {
        lemma_merge_tidy(s, k - 1);
        lemma_merge_prefix(s, k - 1);
        let p = s.subrange(0, k);
        assert(p.drop_last() =~= s.subrange(0, k - 1));
        let m = merge_runs(s.subrange(0, k - 1));
        let x = s[k - 1];
        assert(p.last() == x);
        assert(merge_runs(p) == push_merged(m, x));
        assert(tidy(x));
        if m.len() > 0 && m.last().role == x.role {
            let last = m.last();
            let ml = m.len() - 1;
            assert(m[ml] == last);
            assert(tidy(last));
            let merged = MessageView { role: x.role, content: merge_contents(last.content, x.content) };
            let m2 = m.update(ml, merged);
            assert(push_merged(m, x) == m2);
            assert(k >= 2);
            if tool_use_ids(s[k - 2]).len() > 0 {
                let a = k - 2;
                let b = k - 1;
                assert(s[a] == s[a] && s[b] == s[b]);
                assert(s[b].role == Role::User);
                assert(false);
            }
            lemma_merge_ids(last.content, x.content);
            if x.role == Role::Assistant {
                assert(content_ids(last.content) == tool_use_ids(last));
                assert(content_ids(last.content) + content_ids(x.content) =~= content_ids(x.content));
                assert(tool_use_ids(merged) == tool_use_ids(x));
            } else {
                assert(tool_use_ids(merged) =~= Seq::<Seq<char>>::empty());
                assert(Seq::<Seq<char>>::empty().no_duplicates());
                assert(!empty_user_blocks(last));
            }
            assert(tidy(merged));
            assert forall|j: int| 0 <= j < m2.len() implies tidy(#[trigger] m2[j]) by {
                if j < ml {
                    assert(m2[j] == m[j]);
                }
            }
        } else {
            let m2 = m.push(x);
            assert(push_merged(m, x) == m2);
            assert forall|j: int| 0 <= j < m2.len() implies tidy(#[trigger] m2[j]) by {
                if j < m.len() {
                    assert(m2[j] == m[j]);
                }
            }
        }
    }
}

/// Normalizing the messages sent to the model again changes nothing, when no
/// message of the conversation requests the same tool id twice.
pub proof fn lemma_normalized_idempotent(ctx: Seq<MessageView>)
    requires
        forall|j: int| 0 <= j < ctx.len() ==> (#[trigger] tool_use_ids(ctx[j])).no_duplicates(),
    ensures
        normalized(normalized(ctx)) == normalized(ctx),
{
    let p = paired_from(ctx, 0);
    lemma_paired_well_formed(ctx, 0);
    lemma_paired_tidy(ctx, 0);
    lemma_merge_well_paired(p);
    lemma_merge_tidy(p, p.len() as int);
    assert(p.subrange(0, p.len() as int) =~= p);
    let n = merge_runs(p);
    lemma_paired_identity(n, 0);
    assert(n.subrange(0, n.len() as int) =~= n);
    lemma_merge_alternating(n);
}

/// What a finished conversation reports comes from its last assistant
/// message and from no other: that message is the one found, whatever its
/// text, and the report is its text, or "(no summary)" when that text is
/// empty.
pub proof fn lemma_summary_from_last_assistant(ctx: Seq<MessageView>, i: int)
    requires
        0 <= i < ctx.len(),
        ctx[i].role == Role::Assistant,
        forall|j: int| i < j < ctx.len() ==> (#[trigger] ctx[j]).role != Role::Assistant,
    ensures
        last_assistant(ctx) == Some(ctx[i]),
        summary_of(ctx) == (if content_text(ctx[i].content).len() > 0 {
            content_text(ctx[i].content)
        } else {
            "(no summary)"@
        }),
    decreases ctx.len(),
{
    reveal_strlit("(no summary)");
    assert(no_summary_text() =~= "(no summary)"@);
    if i < ctx.len() - 1 {
        let b = ctx.drop_last();
        assert(ctx[ctx.len() - 1].role != Role::Assistant);
        assert forall|j: int| i < j < b.len() implies (#[trigger] b[j]).role != Role::Assistant by {
            assert(b[j] == ctx[j]);
        }
        lemma_summary_from_last_assistant(b, i);
        assert(b[i] == ctx[i]);
    }
}

/// A conversation in which the assistant never spoke reports "(no summary)".
pub proof fn lemma_summary_without_assistant(ctx: Seq<MessageView>)
    requires
        forall|j: int| 0 <= j < ctx.len() ==> (#[trigger] ctx[j]).role != Role::Assistant,
    ensures
        last_assistant(ctx) is None,
        summary_of(ctx) == "(no summary)"@,
    decreases ctx.len(),
{
    reveal_strlit("(no summary)");
    assert(no_summary_text() =~= "(no summary)"@);
    if ctx.len() > 0 {
        let b = ctx.drop_last();
        assert(ctx[ctx.len() - 1].role != Role::Assistant);
        assert forall|j: int| 0 <= j < b.len() implies (#[trigger] b[j]).role != Role::Assistant by {
            assert(b[j] == ctx[j]);
        }
        lemma_summary_without_assistant(b);
    }
}

} // verus!
