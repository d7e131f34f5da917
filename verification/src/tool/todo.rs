//! The session plan: a short list of steps, at most one of them in progress.
use vstd::prelude::*;

use crate::json::{members_view, JsonValue, JsonView};
use crate::text::{decimal, join_lines, join_with_newlines, str_eq, strings_view, usize_to_decimal};
use crate::tool::{
    concat_str, described, described_value, object_schema, object_value, push_item, push_member, texts, typed,
    typed_value, ToolDescription, ToolDescriptionView, ToolError,
};

verus! {

/// Most items a session plan may hold.
pub const MAX_PLAN_ITEMS: usize = 12;

/// The state of one step of the plan.
#[derive(Clone, Copy, Debug, PartialEq, Eq, Hash, Structural)]
pub enum PlanItemStatus {
    Pending,
    InProgress,
    Completed,
}

/// The marker that shows a status.
pub open spec fn marker_text(s: PlanItemStatus) -> Seq<char> {
    match s {
        PlanItemStatus::Pending => "[ ]"@,
        PlanItemStatus::InProgress => "[>]"@,
        PlanItemStatus::Completed => "[x]"@,
    }
}

/// The name by which the model gives a status.
pub open spec fn status_name(s: PlanItemStatus) -> Seq<char> {
    match s {
        PlanItemStatus::Pending => "pending"@,
        PlanItemStatus::InProgress => "in_progress"@,
        PlanItemStatus::Completed => "completed"@,
    }
}

/// The status that the model means by the name `t`, if any.
pub open spec fn status_named(t: Seq<char>) -> Option<PlanItemStatus> {
    if t == "pending"@ {
        Some(PlanItemStatus::Pending)
    } else if t == "in_progress"@ {
        Some(PlanItemStatus::InProgress)
    } else if t == "completed"@ {
        Some(PlanItemStatus::Completed)
    } else {
        None
    }
}

/// The names of all statuses, in their order.
pub open spec fn status_names() -> Seq<Seq<char>> {
    seq![
        status_name(PlanItemStatus::Pending),
        status_name(PlanItemStatus::InProgress),
        status_name(PlanItemStatus::Completed),
    ]
}

/// The schema of the status of a plan item: a text among the status names.
pub open spec fn status_schema() -> JsonView {
    JsonView::Object(seq![("type"@, JsonView::Text("string"@)), ("enum"@, JsonView::Array(texts(status_names())))])
}

/// The schema of one plan item.
pub open spec fn plan_item_schema() -> JsonView {
    object_schema(
        seq![
            ("content"@, typed("string"@)),
            ("status"@, status_schema()),
            ("activeForm"@, described("string"@, "Optional present-continuous label."@)),
        ],
        seq!["content"@, "status"@],
    )
}

/// How the tool `todo` presents itself to the model.
pub open spec fn todo_description() -> ToolDescriptionView {
    ToolDescriptionView {
        name: "todo"@,
        description: "Rewrite the current session plan for multi-step work."@,
        input_schema: object_schema(
            seq![("items"@, JsonView::Object(seq![("type"@, JsonView::Text("array"@)), ("items"@, plan_item_schema())]))],
            seq!["items"@],
        ),
    }
}

/// The statuses that the description of the tool `todo` offers are exactly
/// those that its input may name, and each name means its own status.
pub proof fn lemma_todo_statuses_match()
    ensures
        todo_description().input_schema == object_schema(
            seq![("items"@, JsonView::Object(seq![("type"@, JsonView::Text("array"@)), ("items"@, plan_item_schema())]))],
            seq!["items"@],
        ),
        status_schema() == JsonView::Object(
            seq![("type"@, JsonView::Text("string"@)), ("enum"@, JsonView::Array(texts(status_names())))],
        ),
        forall|s: PlanItemStatus| #[trigger] status_named(status_name(s)) == Some(s),
        forall|t: Seq<char>| #[trigger] status_named(t) is Some <==> status_names().contains(t),
{
    reveal_strlit("pending");
    reveal_strlit("in_progress");
    reveal_strlit("completed");
    assert("pending"@.len() == 7 && "in_progress"@.len() == 11 && "completed"@.len() == 9);
    assert forall|s: PlanItemStatus| #[trigger] status_named(status_name(s)) == Some(s) by {
        match s {
            PlanItemStatus::Pending => {},
            PlanItemStatus::InProgress => {},
            PlanItemStatus::Completed => {},
        }
    }
    assert forall|t: Seq<char>| #[trigger] status_named(t) is Some <==> status_names().contains(t) by {
        let n = status_names();
        if status_named(t) is Some {
            if t == "pending"@ {
                assert(n[0] == t);
            } else if t == "in_progress"@ {
                assert(n[1] == t);
            } else {
                assert(n[2] == t);
            }
        }
        if n.contains(t) {
            let k = choose|k: int| 0 <= k < n.len() && n[k] == t;
            assert(k == 0 || k == 1 || k == 2);
        }
    }
}

impl PlanItemStatus {
    /// The name by which the model gives this status.
    pub fn name(&self) -> (r: &'static str)
        ensures
            r@ == status_name(*self),
    {
        match self {
            PlanItemStatus::Pending => "pending",
            PlanItemStatus::InProgress => "in_progress",
            PlanItemStatus::Completed => "completed",
        }
    }

    /// The status that the model means by `name`, if any.
    pub fn from_name(name: &str) -> (r: Option<PlanItemStatus>)
        ensures
            r == status_named(name@),
    {
        if str_eq(name, "pending") {
            Some(PlanItemStatus::Pending)
        } else if str_eq(name, "in_progress") {
            Some(PlanItemStatus::InProgress)
        } else if str_eq(name, "completed") {
            Some(PlanItemStatus::Completed)
        } else {
            None
        }
    }

    /// The marker that shows this status.
    pub fn marker(&self) -> (r: &'static str)
        ensures
            r@ == marker_text(*self),
    {
        match self {
            PlanItemStatus::Pending => "[ ]",
            PlanItemStatus::InProgress => "[>]",
            PlanItemStatus::Completed => "[x]",
        }
    }
}

/// One step of the plan.
#[derive(Debug)]
pub struct PlanItem {
    status: PlanItemStatus,
    content: String,
    active_form: Option<String>,
}

/// The content of a `PlanItem`.
pub struct PlanItemView {
    pub status: PlanItemStatus,
    pub content: Seq<char>,
    pub active_form: Option<Seq<char>>,
}

impl View for PlanItem {
    type V = PlanItemView;

    closed spec fn view(&self) -> PlanItemView {
        PlanItemView {
            status: self.status,
            content: self.content@,
            active_form: match self.active_form {
                Some(a) => Some(a@),
                None => None,
            },
        }
    }
}

/// The line that shows an item: its marker and content, and for the item in
/// progress its present-continuous label in brackets.
pub open spec fn item_line(item: PlanItemView) -> Seq<char> {
    match item.active_form {
        Some(a) => if item.status == PlanItemStatus::InProgress {
            marker_text(item.status) + " "@ + item.content + " ("@ + a + ")"@
        } else {
            marker_text(item.status) + " "@ + item.content
        },
        None => marker_text(item.status) + " "@ + item.content,
    }
}

/// The contents of a sequence of items.
pub open spec fn items_view(s: Seq<PlanItem>) -> Seq<PlanItemView> {
    s.map_values(|i: PlanItem| i@)
}

/// How many of `items` have status `status`.
pub open spec fn count_status(items: Seq<PlanItemView>, status: PlanItemStatus) -> nat
    decreases items.len(),
{
    if items.len() == 0 {
        0
    } else {
        count_status(items.drop_last(), status) + if items.last().status == status { 1nat } else { 0nat }
    }
}

/// What the plan `items` looks like: one line per item and a count of the
/// completed ones, or a note that there is no plan.
pub open spec fn plan_text(items: Seq<PlanItemView>) -> Seq<char> {
    if items.len() == 0 {
        "No session plan yet"@
    } else {
        join_lines(items.map_values(|i: PlanItemView| item_line(i))) + "\n("@ + decimal(
            count_status(items, PlanItemStatus::Completed),
        ) + "/"@ + decimal(items.len()) + " completed)"@
    }
}

/// The count of items of a status is the number of items that have it;
/// the counts of the three statuses add up to the number of items.
pub proof fn lemma_count_status_counts(items: Seq<PlanItemView>, status: PlanItemStatus)
    ensures
        count_status(items, status) == items.filter(|i: PlanItemView| i.status == status).len(),
        count_status(items, PlanItemStatus::Pending) + count_status(items, PlanItemStatus::InProgress)
            + count_status(items, PlanItemStatus::Completed) == items.len(),
    decreases items.len(),
{
    reveal(Seq::filter);
    if items.len() > 0 {
        lemma_count_status_counts(items.drop_last(), status);
    }
}

/// The text of a plan with items opens with the line of its first item and
/// closes with the count of completed items out of all of them; an empty
/// plan reads "No session plan yet".
pub proof fn lemma_plan_text_shape(items: Seq<PlanItemView>)
    ensures
        items.len() == 0 ==> plan_text(items) == "No session plan yet"@,
        items.len() > 0 ==> {
            let t = plan_text(items);
            let tail = "\n("@ + decimal(count_status(items, PlanItemStatus::Completed)) + "/"@ + decimal(items.len())
                + " completed)"@;
            let first = item_line(items[0]);
            &&& first.len() + tail.len() <= t.len()
            &&& t.subrange(0, first.len() as int) == first
            &&& t.subrange(t.len() - tail.len(), t.len() as int) == tail
        },
{
    if items.len() > 0 {
        let lines = items.map_values(|i: PlanItemView| item_line(i));
        lemma_join_lines_opens(lines);
        let j = join_lines(lines);
        let tail = "\n("@ + decimal(count_status(items, PlanItemStatus::Completed)) + "/"@ + decimal(items.len())
            + " completed)"@;
        let t = j + tail;
        assert(t.subrange(0, lines[0].len() as int) =~= j.subrange(0, lines[0].len() as int));
        assert(t.subrange(t.len() - tail.len(), t.len() as int) =~= tail);
    }
}

/// Joined lines open with the first line.
proof fn lemma_join_lines_opens(lines: Seq<Seq<char>>)
    requires
        lines.len() > 0,
    ensures
        lines[0].len() <= join_lines(lines).len(),
        join_lines(lines).subrange(0, lines[0].len() as int) == lines[0],
    decreases lines.len(),
{
    if lines.len() > 1 {
        let b = lines.drop_last();
        lemma_join_lines_opens(b);
        let j = join_lines(b);
        let t = j + seq!['\n'] + lines.last();
        assert(b[0] == lines[0]);
        assert(t.subrange(0, lines[0].len() as int) =~= j.subrange(0, lines[0].len() as int));
    }
}

/// Whether `items` can stand as the session plan.
pub open spec fn plan_allowed(items: Seq<PlanItemView>) -> bool {
    items.len() <= MAX_PLAN_ITEMS && count_status(items, PlanItemStatus::InProgress) <= 1
}

impl PlanItem {
    /// An item with the given status, content and label.
    pub fn new(status: PlanItemStatus, content: String, active_form: Option<String>) -> (r: PlanItem)
        ensures
            r@ == (PlanItemView {
                status,
                content: content@,
                active_form: match active_form {
                    Some(a) => Some(a@),
                    None => None,
                },
            }),
    {
        PlanItem { status, content, active_form }
    }

    /// The status of this item.
    pub fn status(&self) -> (r: PlanItemStatus)
        ensures
            r == self@.status,
    {
        self.status
    }

    /// The line that shows this item.
    pub fn to_display_string(&self) -> (r: String)
        ensures
            r@ == item_line(self@),
    {
        let head = concat_str(self.status.marker(), " ");
        let mut r = concat_str(head.as_str(), self.content.as_str());
        match &self.active_form {
            Some(a) => {
                if self.status == PlanItemStatus::InProgress {
                    r.append(" (");
                    r.append(a.as_str());
                    r.append(")");
                }
            },
            None => {},
        }
        r
    }
}

/// Keeps the session plan of the agent.
pub struct TodoManagerTool {
    items: Vec<PlanItem>,
}

impl Default for TodoManagerTool {
    fn default() -> (r: Self)
        ensures
            r@ == Seq::<PlanItemView>::empty(),
    {
        TodoManagerTool::new()
    }
}

impl View for TodoManagerTool {
    type V = Seq<PlanItemView>;

    closed spec fn view(&self) -> Seq<PlanItemView> {
        items_view(self.items@)
    }
}

/// How many of `items` have status `status`.
fn count_items(items: &Vec<PlanItem>, status: PlanItemStatus) -> (r: usize)
    ensures
        r as nat == count_status(items_view(items@), status),
{
    let ghost iv = items_view(items@);
    let mut n: usize = 0;
    let mut i: usize = 0;
    while i < items.len()
        invariant
            iv == items_view(items@),
            i <= items@.len(),
            n as nat == count_status(iv.subrange(0, i as int), status),
            n <= i,
        decreases items@.len() - i,
    {
        proof {
            assert(iv.subrange(0, i + 1).drop_last() =~= iv.subrange(0, i as int));
            assert(iv.subrange(0, i + 1).last() == items@[i as int]@);
        }
        if items[i].status == status {
            n = n + 1;
        }
        i = i + 1;
    }
    assert(iv.subrange(0, items@.len() as int) =~= iv);
    n
}

impl TodoManagerTool {
    #[verifier::type_invariant]
    spec fn plan_is_short(&self) -> bool {
        plan_allowed(items_view(self.items@))
    }

    /// A manager with no plan.
    pub fn new() -> (r: Self)
        ensures
            r@ == Seq::<PlanItemView>::empty(),
    {
        let r = TodoManagerTool { items: Vec::new() };
        assert(items_view(r.items@) =~= Seq::<PlanItemView>::empty());
        r
    }

    /// The name the model calls this tool by.
    pub fn name(&self) -> (r: &'static str)
        ensures
            r@ == "todo"@,
    {
        "todo"
    }

    /// How this tool presents itself to the model.
    pub fn tool_spec(&self) -> (r: ToolDescription)
        ensures
            r@ == todo_description(),
    {
        let mut statuses: Vec<JsonValue> = Vec::new();
        push_item(&mut statuses, JsonValue::Text(String::from_str(PlanItemStatus::Pending.name())));
        push_item(&mut statuses, JsonValue::Text(String::from_str(PlanItemStatus::InProgress.name())));
        push_item(&mut statuses, JsonValue::Text(String::from_str(PlanItemStatus::Completed.name())));
        assert(crate::json::items_view(statuses@) =~= texts(status_names()));
        let mut status: Vec<(String, JsonValue)> = Vec::new();
        push_member(&mut status, "type", JsonValue::Text(String::from_str("string")));
        push_member(&mut status, "enum", JsonValue::Array(statuses));
        assert(members_view(status@) =~= seq![
            ("type"@, JsonView::Text("string"@)),
            ("enum"@, JsonView::Array(texts(status_names()))),
        ]);
        let mut item: Vec<(String, JsonValue)> = Vec::new();
        push_member(&mut item, "content", typed_value("string"));
        push_member(&mut item, "status", JsonValue::Object(status));
        push_member(&mut item, "activeForm", described_value("string", "Optional present-continuous label."));
        assert(members_view(item@) =~= seq![
            ("content"@, typed("string"@)),
            ("status"@, status_schema()),
            ("activeForm"@, described("string"@, "Optional present-continuous label."@)),
        ]);
        let item_required: [&str; 2] = ["content", "status"];
        assert(item_required@.map_values(|x: &str| x@) =~= seq!["content"@, "status"@]);
        let item_schema = object_value(item, &item_required);
        let mut list: Vec<(String, JsonValue)> = Vec::new();
        push_member(&mut list, "type", JsonValue::Text(String::from_str("array")));
        push_member(&mut list, "items", item_schema);
        assert(members_view(list@) =~= seq![("type"@, JsonView::Text("array"@)), ("items"@, plan_item_schema())]);
        let mut props: Vec<(String, JsonValue)> = Vec::new();
        push_member(&mut props, "items", JsonValue::Object(list));
        assert(members_view(props@) =~= seq![
            ("items"@, JsonView::Object(seq![("type"@, JsonView::Text("array"@)), ("items"@, plan_item_schema())])),
        ]);
        let required: [&str; 1] = ["items"];
        assert(required@.map_values(|x: &str| x@) =~= seq!["items"@]);
        ToolDescription {
            name: String::from_str("todo"),
            description: String::from_str("Rewrite the current session plan for multi-step work."),
            input_schema: object_value(props, &required),
        }
    }

    /// What the current plan looks like.
    pub fn render(&self) -> (r: String)
        ensures
            r@ == plan_text(self@),
    {
        if self.items.len() == 0 {
            return String::from_str("No session plan yet");
        }
        let ghost iv = items_view(self.items@);
        let mut lines: Vec<String> = Vec::new();
        let mut i: usize = 0;
        while i < self.items.len()
            invariant
                iv == items_view(self.items@),
                i <= self.items@.len(),
                lines@.len() == i,
                forall|j: int| 0 <= j < i ==> (#[trigger] lines@[j])@ == item_line(iv[j]),
            decreases self.items@.len() - i,
        {
            lines.push(self.items[i].to_display_string());
            i = i + 1;
        }
        assert(strings_view(lines@) =~= iv.map_values(|it: PlanItemView| item_line(it)));
        let completed = count_items(&self.items, PlanItemStatus::Completed);
        let total = self.items.len();
        let mut r = join_with_newlines(&lines);
        r.append("\n(");
        r.append(usize_to_decimal(completed).as_str());
        r.append("/");
        r.append(usize_to_decimal(total).as_str());
        r.append(" completed)");
        r
    }

    /// Replaces the plan with `items` and shows it.  Refuses a plan with more
    /// than `MAX_PLAN_ITEMS` items or with more than one item in progress,
    /// and then keeps the plan as it was.
    pub fn update(&mut self, items: Vec<PlanItem>) -> (r: Result<String, ToolError>)
        ensures
            items@.len() > MAX_PLAN_ITEMS ==> r is Err && r->Err_0 is PlanTooLong && final(self)@ == old(self)@,
            items@.len() <= MAX_PLAN_ITEMS && count_status(items_view(items@), PlanItemStatus::InProgress) > 1
                ==> r is Err && r->Err_0 is SeveralInProgress && final(self)@ == old(self)@,
            plan_allowed(items_view(items@)) ==> r is Ok && final(self)@ == items_view(items@)
                && r->Ok_0@ == plan_text(items_view(items@)),
            plan_allowed(final(self)@),
    {
        proof {
            use_type_invariant(&*self);
        }
        if items.len() > MAX_PLAN_ITEMS {
            return Err(ToolError::PlanTooLong);
        }
        let in_progress = count_items(&items, PlanItemStatus::InProgress);
        if in_progress > 1 {
            return Err(ToolError::SeveralInProgress);
        }
        self.items = items;
        Ok(self.render())
    }

    /// Rewrites the plan from the items read out of the tool's input, `None`
    /// when they could not be read as plan items: read items go to `update`;
    /// otherwise the plan stays as it was and the failure to read is reported.
    pub fn apply_items(&mut self, items: Option<Vec<PlanItem>>) -> (r: Result<String, ToolError>)
        ensures
            items is None ==> r is Err && r->Err_0 is UnreadableItems && final(self)@ == old(self)@,
            items matches Some(its) ==> {
                &&& its@.len() > MAX_PLAN_ITEMS ==> r is Err && r->Err_0 is PlanTooLong && final(self)@ == old(self)@
                &&& its@.len() <= MAX_PLAN_ITEMS && count_status(items_view(its@), PlanItemStatus::InProgress) > 1
                    ==> r is Err && r->Err_0 is SeveralInProgress && final(self)@ == old(self)@
                &&& plan_allowed(items_view(its@)) ==> r is Ok && final(self)@ == items_view(its@)
                    && r->Ok_0@ == plan_text(items_view(its@))
            },
            plan_allowed(final(self)@),
    {
        proof {
            use_type_invariant(&*self);
        }
        match items {
            Some(its) => self.update(its),
            None => Err(ToolError::UnreadableItems),
        }
    }

    /// The items of a plan given as tool input: the `items` member of an
    /// object, or the input itself when it is an array.
    pub fn items_input<'a>(&self, input: &'a JsonValue) -> (r: Result<&'a JsonValue, ToolError>)
        ensures
            match r {
                Ok(v) => match input.spec_get("items"@) {
                    Some(items) => *v == items,
                    None => *v == *input && input is Array,
                },
                Err(e) => input.spec_get("items"@) is None && !(input is Array) && e is InvalidItems,
            },
    {
        match input.get("items") {
            Some(items) => Ok(items),
            None => if input.is_array() {
                Ok(input)
            } else {
                Err(ToolError::InvalidItems)
            },
        }
    }
}

} // verus!
