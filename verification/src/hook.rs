//! What hooks hand to the agent and what their answers mean.
use vstd::prelude::*;

use crate::json::{JsonValue, JsonView};

verus! {

/// A tool call that the model requested.
#[derive(Debug)]
pub struct ToolUse {
    pub id: String,
    pub name: String,
    pub input: JsonValue,
}

/// The content of a `ToolUse`.
pub struct ToolUseView {
    pub id: Seq<char>,
    pub name: Seq<char>,
    pub input: JsonView,
}

impl View for ToolUse {
    type V = ToolUseView;

    open spec fn view(&self) -> ToolUseView {
        ToolUseView { id: self.id@, name: self.name@, input: self.input@ }
    }
}

impl ToolUse {
    /// A copy of this tool call.
    pub fn duplicate(&self) -> (r: ToolUse)
        ensures
            r@ == self@,
    {
        ToolUse { id: self.id.clone(), name: self.name.clone(), input: self.input.duplicate() }
    }
}

/// The result of a tool call, as hooks see it.
#[derive(Debug)]
pub struct ToolResult {
    pub tool_use_id: String,
    pub content: String,
}

/// What a hook asks of the agent.
#[derive(Debug, PartialEq, Eq)]
pub enum HookControl {
    /// Go on as usual.
    Continue,
    /// Stop, for the given reason.
    Block(String),
}

impl HookControl {
    /// A copy of this answer.
    pub fn duplicate(&self) -> (r: HookControl)
        ensures
            match (r, *self) {
                (HookControl::Continue, HookControl::Continue) => true,
                (HookControl::Block(a), HookControl::Block(b)) => a@ == b@,
                _ => false,
            },
    {
        match self {
            HookControl::Continue => HookControl::Continue,
            HookControl::Block(reason) => HookControl::Block(reason.clone()),
        }
    }

    /// Whether the hook stops what it was asked about; later hooks of the same
    /// kind then do not run.
    pub fn is_block(&self) -> (r: bool)
        ensures
            r == (*self is Block),
    {
        match self {
            HookControl::Continue => false,
            HookControl::Block(_) => true,
        }
    }
}

/// The kinds of hooks.
#[derive(Clone, Copy, Debug, PartialEq, Eq, Structural)]
pub enum HookTypes {
    /// Runs once, when the agent starts.
    SessionStart,
    /// Runs before every tool call.
    PreToolUse,
    /// Runs after every tool call.
    PostToolUse,
}

impl HookTypes {
    /// The name of this kind.
    pub fn name(&self) -> (r: &'static str)
        ensures
            r@ == (match *self {
                HookTypes::SessionStart => "SessionStart"@,
                HookTypes::PreToolUse => "PreToolUse"@,
                HookTypes::PostToolUse => "PostToolUse"@,
            }),
    {
        match self {
            HookTypes::SessionStart => "SessionStart",
            HookTypes::PreToolUse => "PreToolUse",
            HookTypes::PostToolUse => "PostToolUse",
        }
    }
}

/// The hooks among `s` of kind `kind`, in the order they were registered.
pub open spec fn hooks_of<H>(s: Seq<(HookTypes, H)>, kind: HookTypes) -> Seq<H>
    decreases s.len(),
{
    if s.len() == 0 {
        Seq::empty()
    } else if s.last().0 == kind {
        hooks_of(s.drop_last(), kind).push(s.last().1)
    } else {
        hooks_of(s.drop_last(), kind)
    }
}

/// Registering a hook appends it to the hooks of its kind and leaves the
/// hooks of every other kind as they were.
pub proof fn lemma_register_appends<H>(s: Seq<(HookTypes, H)>, kind: HookTypes, hook: H, other: HookTypes)
    ensures
        hooks_of(s.push((kind, hook)), kind) == hooks_of(s, kind).push(hook),
        other != kind ==> hooks_of(s.push((kind, hook)), other) == hooks_of(s, other),
{
    assert(s.push((kind, hook)).drop_last() =~= s);
}

/// The hooks of an agent, each with its kind, in the order they were
/// registered.
pub struct HookList<H> {
    hooks: Vec<(HookTypes, H)>,
}

impl<H> View for HookList<H> {
    type V = Seq<(HookTypes, H)>;

    closed spec fn view(&self) -> Seq<(HookTypes, H)> {
        self.hooks@
    }
}

impl<H> HookList<H> {
    /// A list with no hooks.
    pub fn new() -> (r: HookList<H>)
        ensures
            r@ == Seq::<(HookTypes, H)>::empty(),
    {
        HookList { hooks: Vec::new() }
    }

    /// Registers `hook`, of kind `kind`, after the others.
    pub fn register(&mut self, kind: HookTypes, hook: H)
        ensures
            final(self)@ == old(self)@.push((kind, hook)),
    {
        self.hooks.push((kind, hook));
    }

    /// The hooks of kind `kind`, in the order they were registered.
    pub fn of_kind(&self, kind: HookTypes) -> (r: Vec<&H>)
        ensures
            r@.map_values(|h: &H| *h) == hooks_of(self@, kind),
    {
        let mut out: Vec<&H> = Vec::new();
        let mut i: usize = 0;
        while i < self.hooks.len()
            invariant
                i <= self.hooks@.len(),
                out@.map_values(|h: &H| *h) == hooks_of(self.hooks@.subrange(0, i as int), kind),
            decreases self.hooks@.len() - i,
        {
            let ghost before = out@;
            assert(self.hooks@.subrange(0, i + 1).drop_last() =~= self.hooks@.subrange(0, i as int));
            if self.hooks[i].0 == kind {
                out.push(&self.hooks[i].1);
                assert(out@.map_values(|h: &H| *h) =~= before.map_values(|h: &H| *h).push(self.hooks@[i as int].1));
            }
            i = i + 1;
        }
        assert(self.hooks@.subrange(0, self.hooks@.len() as int) =~= self.hooks@);
        out
    }
}

/// Where a run of hooks of one kind stands: the hooks run one after the
/// other, and the first that blocks ends the run.
pub struct HookRun {
    count: usize,
    ran: usize,
    stop: Option<String>,
}

/// The content of a `HookRun`: how many hooks it has, how many ran, and the
/// reason of the hook that blocked, if one did.
pub struct HookRunView {
    pub count: nat,
    pub ran: nat,
    pub stop: Option<Seq<char>>,
}

impl View for HookRun {
    type V = HookRunView;

    closed spec fn view(&self) -> HookRunView {
        HookRunView {
            count: self.count as nat,
            ran: self.ran as nat,
            stop: match self.stop {
                Some(r) => Some(r@),
                None => None,
            },
        }
    }
}

impl HookRun {
    #[verifier::type_invariant]
    spec fn ran_at_most_all(&self) -> bool {
        self.ran <= self.count
    }

    /// A run of `count` hooks, none of which ran yet.
    pub fn new(count: usize) -> (r: HookRun)
        ensures
            r@ == (HookRunView { count: count as nat, ran: 0, stop: None }),
    {
        HookRun { count, ran: 0, stop: None }
    }

    /// The position of the hook that runs next: none once a hook blocked or
    /// all of them ran.
    pub fn next(&self) -> (r: Option<usize>)
        ensures
            r == (if self@.stop is None && self@.ran < self@.count { Some(self@.ran as usize) } else { None }),
    {
        proof {
            use_type_invariant(self);
        }
        if self.stop.is_none() && self.ran < self.count {
            Some(self.ran)
        } else {
            None
        }
    }

    /// Records the answer of the hook that ran.
    pub fn record(&mut self, answer: HookControl)
        requires
            old(self)@.stop is None,
            old(self)@.ran < old(self)@.count,
        ensures
            final(self)@ == (HookRunView {
                count: old(self)@.count,
                ran: old(self)@.ran + 1,
                stop: match answer {
                    HookControl::Block(reason) => Some(reason@),
                    HookControl::Continue => None,
                },
            }),
    {
        proof {
            use_type_invariant(&*self);
        }
        self.ran = self.ran + 1;
        match answer {
            HookControl::Block(reason) => {
                self.stop = Some(reason);
            },
            HookControl::Continue => {},
        }
    }

    /// What the run answers: the block of the hook that ended it, or going on.
    pub fn outcome(self) -> (r: HookControl)
        ensures
            match (r, self@.stop) {
                (HookControl::Block(a), Some(b)) => a@ == b,
                (HookControl::Continue, None) => true,
                _ => false,
            },
    {
        match self.stop {
            Some(reason) => HookControl::Block(reason),
            None => HookControl::Continue,
        }
    }
}

} // verus!
