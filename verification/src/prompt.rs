//! Prompts: a template and the values given to it, and the system prompt of
//! the agent with its builder.
use vstd::prelude::*;

use crate::json::{items_view, json_view, JsonNumber, JsonValue, JsonView};
use crate::text::strings_view;

verus! {

/// The values given to a template, as the template engine takes them.
#[verifier::external_type_specification]
#[verifier::external_body]
pub struct ExTeraContext(tera::Context);

/// A value given to a template, as the template engine takes it.
#[verifier::external_type_specification]
#[verifier::external_body]
pub struct ExTeraValue(tera::Value);

/// The template of a prompt.
#[derive(Debug)]
pub enum TemplateRef {
    /// A template given as its text.
    OneOff(String),
    /// A template registered with the template engine under this name.
    Tera(String),
}

/// The content of a `TemplateRef`.
pub enum TemplateView {
    OneOff(Seq<char>),
    Tera(Seq<char>),
}

impl View for TemplateRef {
    type V = TemplateView;

    open spec fn view(&self) -> TemplateView {
        match self {
            TemplateRef::OneOff(t) => TemplateView::OneOff(t@),
            TemplateRef::Tera(n) => TemplateView::Tera(n@),
        }
    }
}

impl TemplateRef {
    /// A copy of this template.
    pub fn duplicate(&self) -> (r: TemplateRef)
        ensures
            r@ == self@,
    {
        match self {
            TemplateRef::OneOff(t) => TemplateRef::OneOff(t.clone()),
            TemplateRef::Tera(n) => TemplateRef::Tera(n.clone()),
        }
    }
}

/// The values named by the entries `entries`, a later entry for a name
/// replacing an earlier one.
pub open spec fn context_map(entries: Seq<(String, JsonValue)>) -> Map<Seq<char>, JsonView>
    decreases entries.len(),
{
    if entries.len() == 0 {
        Map::empty()
    } else {
        context_map(entries.drop_last()).insert(entries.last().0@, entries.last().1@)
    }
}

proof fn lemma_context_map_concat(a: Seq<(String, JsonValue)>, b: Seq<(String, JsonValue)>)
    ensures
        context_map(a + b) == context_map(a).union_prefer_right(context_map(b)),
    decreases b.len(),
{
    if b.len() == 0 {
        assert(a + b =~= a);
        assert(context_map(a).union_prefer_right(context_map(b)) =~= context_map(a));
    } else {
        assert((a + b).drop_last() =~= a + b.drop_last());
        lemma_context_map_concat(a, b.drop_last());
        assert(context_map(a + b) =~= context_map(a).union_prefer_right(context_map(b)));
    }
}

/// The values given to a template, by name.
#[derive(Debug)]
pub struct PromptContext {
    entries: Vec<(String, JsonValue)>,
}

impl View for PromptContext {
    type V = Map<Seq<char>, JsonView>;

    closed spec fn view(&self) -> Map<Seq<char>, JsonView> {
        context_map(self.entries@)
    }
}

impl PromptContext {
    /// A context with no value.
    pub fn new() -> (r: PromptContext)
        ensures
            r@ == Map::<Seq<char>, JsonView>::empty(),
    {
        PromptContext { entries: Vec::new() }
    }

    /// Gives `value` the name `key`, replacing any value of that name.
    pub fn insert(&mut self, key: &str, value: JsonValue)
        ensures
            final(self)@ == old(self)@.insert(key@, value@),
    {
        let ghost before = self.entries@;
        self.entries.push((String::from_str(key), value));
        assert(self.entries@.drop_last() =~= before);
    }

    /// Adds the values of `other`, which replace those of the same names.
    pub fn extend(&mut self, other: PromptContext)
        ensures
            final(self)@ == old(self)@.union_prefer_right(other@),
    {
        let ghost a = self.entries@;
        let ghost b = other.entries@;
        let mut other_entries = other.entries;
        self.entries.append(&mut other_entries);
        proof {
            assert(self.entries@ =~= a + b);
            lemma_context_map_concat(a, b);
        }
    }

    /// A copy of this context.
    pub fn duplicate(&self) -> (r: PromptContext)
        ensures
            r@ == self@,
    {
        let mut out: Vec<(String, JsonValue)> = Vec::new();
        let mut i: usize = 0;
        while i < self.entries.len()
            invariant
                i <= self.entries@.len(),
                context_map(out@) == context_map(self.entries@.subrange(0, i as int)),
            decreases self.entries@.len() - i,
        {
            let key = self.entries[i].0.clone();
            let value = self.entries[i].1.duplicate();
            proof {
                assert(out@.push((key, value)).drop_last() =~= out@);
                assert(self.entries@.subrange(0, i + 1).drop_last() =~= self.entries@.subrange(0, i as int));
            }
            out.push((key, value));
            i = i + 1;
        }
        assert(self.entries@.subrange(0, self.entries@.len() as int) =~= self.entries@);
        PromptContext { entries: out }
    }
}

/// A number as the template engine takes it; a decimal text it cannot read becomes null.
#[verifier::external_body]
fn engine_number(n: &JsonNumber) -> tera::Value {
    match n {
        JsonNumber::PosInt(n) => tera::Value::Number((*n).into()),
        JsonNumber::NegInt(n) => tera::Value::Number((*n).into()),
        JsonNumber::Float(t) => t.parse::<tera::Number>().map_or(tera::Value::Null, tera::Value::Number),
    }
}

/// A value as the template engine takes it.
#[verifier::external_body]
fn engine_value(v: &JsonValue) -> tera::Value {
    match v {
        JsonValue::Null => tera::Value::Null,
        JsonValue::Bool(b) => tera::Value::Bool(*b),
        JsonValue::Number(n) => engine_number(n),
        JsonValue::Text(s) => tera::Value::String(s.clone()),
        JsonValue::Array(items) => tera::Value::Array(items.iter().map(engine_value).collect()),
        JsonValue::Object(entries) => tera::Value::Object(entries.iter().map(|(k, x)| (k.clone(), engine_value(x))).collect()),
    }
}

/// The values of `context` as the template engine takes them.
#[verifier::external_body]
fn engine_context(context: &PromptContext) -> tera::Context {
    let mut out = tera::Context::new();
    for (key, value) in context.entries.iter() {
        out.insert(key.as_str(), &engine_value(value));
    }
    out
}

/// Whether `c` may stand inside a tag of a plain template: a letter, `_`,
/// `.` or white space.
pub open spec fn plain_tag_char(c: char) -> bool {
    ('a' <= c && c <= 'z') || ('A' <= c && c <= 'Z') || c == '_' || c == '.' || c == ' ' || c == '\n'
        || c == '\t' || c == '\r'
}

/// Whether the rest `t` of a template text is plain, `in_tag` telling whether
/// it starts inside a tag (after `{{` or `{%`).  Inside a tag only the
/// characters of `plain_tag_char` may stand before the tag closes with `}}`
/// or `%}`; outside, anything may.
pub open spec fn plain_from(t: Seq<char>, in_tag: bool) -> bool
    decreases t.len(),
{
    if t.len() == 0 {
        true
    } else if in_tag {
        if plain_tag_char(t[0]) {
            plain_from(t.drop_first(), true)
        } else if t.len() >= 2 && (t[0] == '}' || t[0] == '%') && t[1] == '}' {
            plain_from(t.subrange(2, t.len() as int), false)
        } else {
            false
        }
    } else if t.len() >= 2 && t[0] == '{' && (t[1] == '{' || t[1] == '%') {
        plain_from(t.subrange(2, t.len() as int), true)
    } else {
        plain_from(t.drop_first(), false)
    }
}

/// Whether the template text `t` is plain: its tags name values, loops and
/// conditions with words alone, with no numbers, operators, strings, calls
/// or filters.
pub open spec fn plain_template(t: Seq<char>) -> bool {
    plain_from(t, false)
}

/// Whether the template text `t` holds no `{`, so no tag at all.
pub open spec fn no_markup(t: Seq<char>) -> bool {
    forall|i: int| 0 <= i < t.len() ==> t[i] != '{'
}

/// A piece of a template text: text with no tag, or a tag that puts out
/// the value of a name, written `{{ name }}`.
pub enum TemplatePiece {
    Text(Seq<char>),
    Value(Seq<char>),
}

/// The words that the template engine reads as something other than a name
/// of the values it is given.
pub open spec fn reserved_name(n: Seq<char>) -> bool {
    ||| n == "not"@ || n == "and"@ || n == "or"@ || n == "in"@ || n == "is"@
    ||| n == "loop"@ || n == "__tera_context"@
}

/// Whether `n` begins with `p`.
pub open spec fn begins_with(n: Seq<char>, p: Seq<char>) -> bool {
    p.len() <= n.len() && n.subrange(0, p.len() as int) == p
}

/// Whether `n` begins with a word that the template engine reads as a
/// boolean wherever it opens a value, whatever follows it.
pub open spec fn begins_with_boolean(n: Seq<char>) -> bool {
    ||| begins_with(n, "true"@) || begins_with(n, "false"@)
    ||| begins_with(n, "True"@) || begins_with(n, "False"@)
}

/// Whether `n`, made of letters and `_`, names a value given to a template.
pub open spec fn value_name(n: Seq<char>) -> bool {
    &&& n.len() > 0
    &&& forall|i: int| 0 <= i < n.len() ==> ('a' <= #[trigger] n[i] && n[i] <= 'z') || ('A' <= n[i] && n[i] <= 'Z') || n[i] == '_'
    &&& !reserved_name(n)
    &&& !begins_with_boolean(n)
}

/// The text of one piece.
pub open spec fn piece_source(p: TemplatePiece) -> Seq<char> {
    match p {
        TemplatePiece::Text(t) => t,
        TemplatePiece::Value(n) => "{{ "@ + n + " }}"@,
    }
}

/// The template text that the pieces `ps` make, in order.
pub open spec fn pieces_source(ps: Seq<TemplatePiece>) -> Seq<char>
    decreases ps.len(),
{
    if ps.len() == 0 {
        Seq::empty()
    } else {
        pieces_source(ps.drop_last()) + piece_source(ps.last())
    }
}

/// What the pieces `ps` put out with the values `values`: each text as it
/// stands and each tag as the text it names.  None when a text holds a `{`,
/// or a tag's name is not a name of a text among `values`.
pub open spec fn pieces_filled(ps: Seq<TemplatePiece>, values: Map<Seq<char>, JsonView>) -> Option<Seq<char>>
    decreases ps.len(),
{
    if ps.len() == 0 {
        Some(Seq::empty())
    } else {
        match pieces_filled(ps.drop_last(), values) {
            Some(r) => match ps.last() {
                TemplatePiece::Text(t) => if no_markup(t) {
                    Some(r + t)
                } else {
                    None
                },
                TemplatePiece::Value(n) => if value_name(n) && values.contains_key(n) && values[n] is Text {
                    Some(r + values[n]->Text_0)
                } else {
                    None
                },
            },
            None => None,
        }
    }
}

/// With no values at all, pieces that put out something hold no tag, and put
/// out their own text.
proof fn lemma_filled_without_values(ps: Seq<TemplatePiece>)
    ensures
        pieces_filled(ps, Map::empty()) is Some ==> pieces_filled(ps, Map::empty())->0 == pieces_source(ps),
    decreases ps.len(),
{
    if ps.len() > 0 {
        lemma_filled_without_values(ps.drop_last());
    }
}

/// Whether the template text `template` is plain.
pub fn is_plain_template(template: &str) -> (r: bool)
    ensures
        r == plain_template(template@),
{
    let n = template.unicode_len();
    let ghost t = template@;
    let mut i: usize = 0;
    let mut in_tag = false;
    assert(t.subrange(0, n as int) =~= t);
    while i < n
        invariant
            t == template@,
            n == t.len(),
            i <= n,
            plain_template(t) == plain_from(t.subrange(i as int, n as int), in_tag),
        decreases n - i,
    {
        let ghost rest = t.subrange(i as int, n as int);
        let c = template.get_char(i);
        assert(rest[0] == c);
        if in_tag {
            if ('a' <= c && c <= 'z') || ('A' <= c && c <= 'Z') || c == '_' || c == '.' || c == ' ' || c == '\n'
                || c == '\t' || c == '\r' {
                assert(rest.drop_first() =~= t.subrange(i + 1, n as int));
                i = i + 1;
            } else if i + 1 < n && (c == '}' || c == '%') && template.get_char(i + 1) == '}' {
                assert(rest.subrange(2, rest.len() as int) =~= t.subrange(i + 2, n as int));
                i = i + 2;
                in_tag = false;
            } else {
                return false;
            }
        } else {
            if i + 1 < n && c == '{' {
                let d = template.get_char(i + 1);
                if d == '{' || d == '%' {
                    assert(rest.subrange(2, rest.len() as int) =~= t.subrange(i + 2, n as int));
                    i = i + 2;
                    in_tag = true;
                } else {
                    assert(rest.drop_first() =~= t.subrange(i + 1, n as int));
                    i = i + 1;
                }
            } else {
                assert(rest.drop_first() =~= t.subrange(i + 1, n as int));
                i = i + 1;
            }
        }
    }
    true
}

/// Named template texts, as the template engine registers them: a later
/// entry of the same name replaces an earlier one.
#[derive(Debug)]
pub struct TemplateRegistry {
    templates: Vec<(String, String)>,
}

impl View for TemplateRegistry {
    type V = Seq<(Seq<char>, Seq<char>)>;

    closed spec fn view(&self) -> Seq<(Seq<char>, Seq<char>)> {
        self.templates@.map_values(|e: (String, String)| (e.0@, e.1@))
    }
}

/// The text registered under `name` in `entries`: that of the last entry of
/// that name.
pub open spec fn registered_text(entries: Seq<(Seq<char>, Seq<char>)>, name: Seq<char>) -> Option<Seq<char>>
    decreases entries.len(),
{
    if entries.len() == 0 {
        None
    } else if entries.last().0 == name {
        Some(entries.last().1)
    } else {
        registered_text(entries.drop_last(), name)
    }
}

/// Whether every text in `entries` is a plain template.
pub open spec fn all_plain(entries: Seq<(Seq<char>, Seq<char>)>) -> bool {
    forall|i: int| 0 <= i < entries.len() ==> plain_template(#[trigger] entries[i].1)
}

/// Whether no text in `entries` holds a tag.
pub open spec fn all_without_markup(entries: Seq<(Seq<char>, Seq<char>)>) -> bool {
    forall|i: int| 0 <= i < entries.len() ==> no_markup(#[trigger] entries[i].1)
}

impl TemplateRegistry {
    /// A registry with no templates.
    pub fn new() -> (r: TemplateRegistry)
        ensures
            r@ == Seq::<(Seq<char>, Seq<char>)>::empty(),
    {
        let r = TemplateRegistry { templates: Vec::new() };
        assert(r@ =~= Seq::<(Seq<char>, Seq<char>)>::empty());
        r
    }

    /// Registers `text` under `name`, replacing any template of that name.
    pub fn add(&mut self, name: String, text: String)
        ensures
            final(self)@ == old(self)@.push((name@, text@)),
    {
        self.templates.push((name, text));
        assert(self@ =~= old(self)@.push((name@, text@)));
    }

    /// Whether every registered template is plain.
    pub fn is_plain(&self) -> (r: bool)
        ensures
            r == all_plain(self@),
    {
        let mut i: usize = 0;
        while i < self.templates.len()
            invariant
                i <= self.templates@.len(),
                self@.len() == self.templates@.len(),
                forall|j: int| 0 <= j < i ==> plain_template(#[trigger] self@[j].1),
            decreases self.templates@.len() - i,
        {
            assert(self@[i as int].1 == self.templates@[i as int].1@);
            if !is_plain_template(self.templates[i].1.as_str()) {
                return false;
            }
            i = i + 1;
        }
        true
    }
}

/// What the template engine makes of the template text `template` with the
/// values `values`, escaping nothing: the text it renders, or none when it
/// fails.
pub uninterp spec fn engine_render(template: Seq<char>, values: Map<Seq<char>, JsonView>) -> Option<Seq<char>>;

/// What the template engine makes of the template registered under `name`
/// when `templates` are registered in that order, with the values `values`:
/// the text it renders, or none when it fails.
pub uninterp spec fn engine_render_registered(
    templates: Seq<(Seq<char>, Seq<char>)>,
    name: Seq<char>,
    values: Map<Seq<char>, JsonView>,
) -> Option<Seq<char>>;

/// `tera::Tera::one_off`: renders the template text `template` with the
/// values of `context`, escaping nothing; what it makes of them is
/// `engine_render`.  A text with no tag renders as itself; a text whose only
/// tags are `{{ name }}`, each naming a text among the values, renders with
/// each tag replaced by that text.  Only plain templates are admitted: in
/// others the engine's arithmetic, functions, filters, macros and includes
/// can panic (an integer `%` of the least `i64` by -1, a float sum that
/// overflows, a date filter on a timestamp out of range), recurse without
/// end, or read the clock, the environment and random numbers.  A plain
/// template calls no function, so what it renders depends on the template
/// and the values alone.  Left unsaid: how deeply tags may nest before the
/// engine's parser runs out of stack, which no clause bounds.
#[verifier::external_body]
fn render_one_off(template: &str, context: &PromptContext) -> (r: Result<String, String>)
    requires
        plain_template(template@),
    ensures
        r is Ok <==> engine_render(template@, context@) is Some,
        r is Ok ==> r->Ok_0@ == engine_render(template@, context@)->0,
        no_markup(template@) ==> r is Ok && r->Ok_0@ == template@,
        forall|ps: Seq<TemplatePiece>|
            #![trigger pieces_filled(ps, context@)]
            pieces_source(ps) == template@ && pieces_filled(ps, context@) is Some
                ==> r is Ok && r->Ok_0@ == pieces_filled(ps, context@)->0,
{
    tera::Tera::one_off(template, &engine_context(context), false).map_err(|e| e.to_string())
}

/// `tera::Tera::add_raw_templates` on a fresh engine, then `tera::Tera::render`:
/// renders the template registered under `name` in `registry` with the
/// values of `context`; what it makes of them is `engine_render_registered`.
/// It fails when no template has that name; when no registered text holds a
/// tag, the one of that name renders as itself.  Only plain templates are
/// admitted, for the reasons given at `render_one_off`; what is left unsaid
/// there is left unsaid here too.
#[verifier::external_body]
fn render_registered(registry: &TemplateRegistry, name: &str, context: &PromptContext) -> (r: Result<String, String>)
    requires
        all_plain(registry@),
    ensures
        r is Ok <==> engine_render_registered(registry@, name@, context@) is Some,
        r is Ok ==> r->Ok_0@ == engine_render_registered(registry@, name@, context@)->0,
        registered_text(registry@, name@) is None ==> r is Err,
        all_without_markup(registry@) && registered_text(registry@, name@) is Some
            ==> r is Ok && r->Ok_0@ == registered_text(registry@, name@)->0,
{
    let mut engine = tera::Tera::default();
    let texts = registry.templates.iter().map(|(n, t)| (n.as_str(), t.as_str()));
    engine.add_raw_templates(texts).map_err(|e| e.to_string())?;
    engine.render(name, &engine_context(context)).map_err(|e| e.to_string())
}

/// Why a prompt could not be rendered.
#[derive(Debug)]
pub enum PromptError {
    /// A template given as text failed, for this reason.
    OneOff(String),
    /// A registered template failed, for this reason.
    Registered(String),
}

/// The text of a prompt from what the template engine answered: the text it
/// rendered, or its failure as the error of the kind of template rendered (a
/// template given as text when `one_off`, a registered one otherwise).
pub fn engine_outcome(answer: Result<String, String>, one_off: bool) -> (r: Result<String, PromptError>)
    ensures
        match answer {
            Ok(t) => r is Ok && r->Ok_0@ == t@,
            Err(e) => r is Err && (if one_off {
                r->Err_0 matches PromptError::OneOff(m) && m@ == e@
            } else {
                r->Err_0 matches PromptError::Registered(m) && m@ == e@
            }),
        },
{
    match answer {
        Ok(text) => Ok(text),
        Err(e) => if one_off {
            Err(PromptError::OneOff(e))
        } else {
            Err(PromptError::Registered(e))
        },
    }
}

/// A prompt: a template and, maybe, values to render it with.
#[derive(Debug)]
pub struct Prompt {
    template_ref: TemplateRef,
    context: Option<PromptContext>,
}

/// The content of a `Prompt`.
pub struct PromptView {
    pub template: TemplateView,
    pub context: Option<Map<Seq<char>, JsonView>>,
}

impl View for Prompt {
    type V = PromptView;

    closed spec fn view(&self) -> PromptView {
        PromptView {
            template: self.template_ref@,
            context: match self.context {
                Some(c) => Some(c@),
                None => None,
            },
        }
    }
}

/// The values of an optional context, none when it is absent.
pub open spec fn values_of(c: Option<Map<Seq<char>, JsonView>>) -> Map<Seq<char>, JsonView> {
    match c {
        Some(m) => m,
        None => Map::empty(),
    }
}

/// Whether the engine may be asked to render the prompt `p` with the
/// registered templates `registry`: a template given as text is plain, or
/// is not rendered by the engine at all (it has no values); a registered
/// template needs the whole registry plain.
pub open spec fn renders_safely(p: PromptView, registry: Seq<(Seq<char>, Seq<char>)>) -> bool {
    match p.template {
        TemplateView::OneOff(t) => p.context is None || plain_template(t),
        TemplateView::Tera(_) => all_plain(registry),
    }
}

impl Prompt {
    /// A prompt whose template is the text `text`, with no values.
    pub fn from_text(text: String) -> (r: Prompt)
        ensures
            r@ == (PromptView { template: TemplateView::OneOff(text@), context: None }),
    {
        Prompt { template_ref: TemplateRef::OneOff(text), context: None }
    }

    /// A prompt whose template is the one registered under `name`, with no values.
    pub fn from_compiled_template(name: String) -> (r: Prompt)
        ensures
            r@ == (PromptView { template: TemplateView::Tera(name@), context: None }),
    {
        Prompt { template_ref: TemplateRef::Tera(name), context: None }
    }

    /// This prompt with the values of `new_context` added, replacing those of
    /// the same names.
    pub fn with_context(self, new_context: PromptContext) -> (r: Prompt)
        ensures
            r@ == (PromptView {
                template: self@.template,
                context: Some(values_of(self@.context).union_prefer_right(new_context@)),
            }),
    {
        let mut context = match self.context {
            Some(c) => c,
            None => PromptContext::new(),
        };
        context.extend(new_context);
        Prompt { template_ref: self.template_ref, context: Some(context) }
    }

    /// This prompt with `value` given the name `key`, replacing any value of that name.
    pub fn with_context_value(self, key: &str, value: JsonValue) -> (r: Prompt)
        ensures
            r@ == (PromptView {
                template: self@.template,
                context: Some(values_of(self@.context).insert(key@, value@)),
            }),
    {
        let mut context = match self.context {
            Some(c) => c,
            None => PromptContext::new(),
        };
        context.insert(key, value);
        Prompt { template_ref: self.template_ref, context: Some(context) }
    }

    /// The text of this prompt.  A template given as text with no values is
    /// its own text; otherwise the template engine renders it, looking up a
    /// registered template in `registry`.  The engine is given plain
    /// templates only (see `can_render`).
    pub fn render(&self, registry: &TemplateRegistry) -> (r: Result<String, PromptError>)
        requires
            renders_safely(self@, registry@),
        ensures
            (self@.context, self@.template) matches (None, TemplateView::OneOff(t)) ==> r is Ok && r->Ok_0@ == t,
            (self@.context, self@.template) matches (Some(c), TemplateView::OneOff(t)) ==> (
                (r is Ok <==> engine_render(t, c) is Some)
                && (r is Ok ==> r->Ok_0@ == engine_render(t, c)->0)),
            self@.template matches TemplateView::Tera(n) ==> (
                (r is Ok <==> engine_render_registered(registry@, n, values_of(self@.context)) is Some)
                && (r is Ok ==> r->Ok_0@ == engine_render_registered(registry@, n, values_of(self@.context))->0)),
            self@.template matches TemplateView::OneOff(t) ==> (no_markup(t) ==> r is Ok && r->Ok_0@ == t),
            self@.template matches TemplateView::OneOff(t) ==> forall|ps: Seq<TemplatePiece>|
                #![trigger pieces_filled(ps, values_of(self@.context))]
                pieces_source(ps) == t && pieces_filled(ps, values_of(self@.context)) is Some
                    ==> r is Ok && r->Ok_0@ == pieces_filled(ps, values_of(self@.context))->0,
            self@.template matches TemplateView::Tera(n) ==> (registered_text(registry@, n) is None ==> r is Err),
            self@.template matches TemplateView::Tera(n) ==> (all_without_markup(registry@)
                && registered_text(registry@, n) is Some
                ==> r is Ok && r->Ok_0@ == registered_text(registry@, n)->0),
            r is Err ==> (r->Err_0 is OneOff <==> self@.template is OneOff),
    {
        if self.context.is_none() {
            match &self.template_ref {
                TemplateRef::OneOff(template) => {
                    proof {
                        assert forall|ps: Seq<TemplatePiece>|
                            #![trigger pieces_filled(ps, values_of(self@.context))]
                            pieces_source(ps) == template@ && pieces_filled(ps, values_of(self@.context)) is Some
                                implies pieces_filled(ps, values_of(self@.context))->0 == template@ by {
                            lemma_filled_without_values(ps);
                        }
                    }
                    return Ok(template.clone());
                },
                _ => {},
            }
        }
        let context = match &self.context {
            Some(c) => c.duplicate(),
            None => PromptContext::new(),
        };
        match &self.template_ref {
            TemplateRef::OneOff(template) => engine_outcome(render_one_off(template.as_str(), &context), true),
            TemplateRef::Tera(name) => engine_outcome(render_registered(registry, name.as_str(), &context), false),
        }
    }

    /// Whether `render` may be asked for this prompt with `registry`: a
    /// template given as text with values must be plain, and a registered
    /// one needs every template of the registry plain.
    pub fn can_render(&self, registry: &TemplateRegistry) -> (r: bool)
        ensures
            r == renders_safely(self@, registry@),
    {
        match &self.template_ref {
            TemplateRef::OneOff(template) => self.context.is_none() || is_plain_template(template.as_str()),
            TemplateRef::Tera(_) => registry.is_plain(),
        }
    }

    /// A copy of this prompt.
    pub fn duplicate(&self) -> (r: Prompt)
        ensures
            r@ == self@,
    {
        let context = match &self.context {
            Some(c) => Some(c.duplicate()),
            None => None,
        };
        Prompt { template_ref: self.template_ref.duplicate(), context }
    }
}

/// The text of an optional string.
pub open spec fn opt_view(o: Option<String>) -> Option<Seq<char>> {
    match o {
        Some(s) => Some(s@),
        None => None,
    }
}

/// The value that an optional text gives a template: the text, or null.
pub open spec fn opt_value(o: Option<Seq<char>>) -> JsonView {
    match o {
        Some(s) => JsonView::Text(s),
        None => JsonView::Null,
    }
}

/// The value that a list of texts gives a template: an array of the texts.
pub open spec fn list_value(s: Seq<Seq<char>>) -> JsonView {
    JsonView::Array(s.map_values(|x: Seq<char>| JsonView::Text(x)))
}

/// The template value of an optional text.
fn opt_json(o: &Option<String>) -> (r: JsonValue)
    ensures
        r@ == opt_value(opt_view(*o)),
{
    match o {
        Some(s) => JsonValue::Text(s.clone()),
        None => JsonValue::Null,
    }
}

/// The template value of a list of texts.
fn list_json(s: &Vec<String>) -> (r: JsonValue)
    ensures
        r@ == list_value(strings_view(s@)),
{
    let ghost sv = strings_view(s@);
    let mut out: Vec<JsonValue> = Vec::new();
    let mut i: usize = 0;
    while i < s.len()
        invariant
            sv == strings_view(s@),
            i <= s@.len(),
            items_view(out@) == sv.subrange(0, i as int).map_values(|x: Seq<char>| JsonView::Text(x)),
        decreases s@.len() - i,
    {
        let v = JsonValue::Text(s[i].clone());
        let ghost o0 = out@;
        proof {
            assert(out@.push(v).subrange(0, out@.len() as int) =~= out@);
            assert(sv.subrange(0, i + 1).map_values(|x: Seq<char>| JsonView::Text(x)) =~= sv.subrange(0, i as int).map_values(
                |x: Seq<char>| JsonView::Text(x),
            ).push(JsonView::Text(s@[i as int]@)));
        }
        out.push(v);
        assert(out@.subrange(0, out@.len() - 1) =~= o0);
        assert(items_view(out@) == items_view(o0).push(json_view(out@[out@.len() - 1])));
        i = i + 1;
    }
    assert(sv.subrange(0, s@.len() as int) =~= sv);
    JsonValue::Array(out)
}

/// The texts of `items`, as new strings.
fn owned_strings(items: &[&str]) -> (r: Vec<String>)
    ensures
        strings_view(r@) == items@.map_values(|x: &str| x@),
{
    let mut out: Vec<String> = Vec::new();
    let mut i: usize = 0;
    while i < items.len()
        invariant
            i <= items@.len(),
            out@.len() == i,
            forall|j: int| 0 <= j < i ==> (#[trigger] out@[j])@ == items@[j]@,
        decreases items@.len() - i,
    {
        out.push(items[i].to_owned());
        i = i + 1;
    }
    assert(strings_view(out@) =~= items@.map_values(|x: &str| x@));
    out
}

/// A copy of a list of strings.
fn copy_strings(items: &Vec<String>) -> (r: Vec<String>)
    ensures
        strings_view(r@) == strings_view(items@),
{
    let mut out: Vec<String> = Vec::new();
    let mut i: usize = 0;
    while i < items.len()
        invariant
            i <= items@.len(),
            out@.len() == i,
            forall|j: int| 0 <= j < i ==> (#[trigger] out@[j])@ == items@[j]@,
        decreases items@.len() - i,
    {
        out.push(items[i].clone());
        i = i + 1;
    }
    assert(strings_view(out@) =~= strings_view(items@));
    out
}

/// The text of the template that a system prompt has unless another is given.
pub const DEFAULT_PROMPT_TEMPLATE: &'static str = "{% if role %}{{ role }}\n\n{% endif %}{% if guidelines %}# Guidelines\n{% for guideline in guidelines %}- {{ guideline }}\n{% endfor %}\n{% endif %}{% if constraints %}# Constraints\n{% for constraint in constraints %}- {{ constraint }}\n{% endfor %}\n{% endif %}{% if skills_available %}# Skills available\n{{ skills_available }}\n\n{% endif %}{% if memory %}# Memory\n{{ memory }}\n\n{% endif %}{% if memory_guidance %}{{ memory_guidance }}\n\n{% endif %}{% if claude_md %}{{ claude_md }}\n\n{% endif %}{% if dynamic_context %}{{ dynamic_context }}\n\n{% endif %}{% if additional %}{{ additional }}\n{% endif %}";

/// The template that a system prompt has unless another is given.
pub open spec fn default_template() -> PromptView {
    PromptView { template: TemplateView::OneOff(DEFAULT_PROMPT_TEMPLATE@), context: None }
}

/// The template that a system prompt has unless another is given.
pub fn default_prompt_template() -> (r: Prompt)
    ensures
        r@ == default_template(),
{
    Prompt::from_text(String::from_str(DEFAULT_PROMPT_TEMPLATE))
}

/// The system prompt of the agent: its parts, and the template that lays them out.
#[derive(Debug)]
pub struct SystemPrompt {
    role: Option<String>,
    skills_available: Option<String>,
    memory: Option<String>,
    claude_md: Option<String>,
    dynamic_context: Option<String>,
    memory_guidance: Option<String>,
    guidelines: Vec<String>,
    constraints: Vec<String>,
    additional: Option<String>,
    template: Prompt,
}

/// The content of a `SystemPrompt`.
pub struct SystemPromptView {
    pub role: Option<Seq<char>>,
    pub skills_available: Option<Seq<char>>,
    pub memory: Option<Seq<char>>,
    pub claude_md: Option<Seq<char>>,
    pub dynamic_context: Option<Seq<char>>,
    pub memory_guidance: Option<Seq<char>>,
    pub guidelines: Seq<Seq<char>>,
    pub constraints: Seq<Seq<char>>,
    pub additional: Option<Seq<char>>,
    pub template: PromptView,
}

impl View for SystemPrompt {
    type V = SystemPromptView;

    closed spec fn view(&self) -> SystemPromptView {
        SystemPromptView {
            role: opt_view(self.role),
            skills_available: opt_view(self.skills_available),
            memory: opt_view(self.memory),
            claude_md: opt_view(self.claude_md),
            dynamic_context: opt_view(self.dynamic_context),
            memory_guidance: opt_view(self.memory_guidance),
            guidelines: strings_view(self.guidelines@),
            constraints: strings_view(self.constraints@),
            additional: opt_view(self.additional),
            template: self.template@,
        }
    }
}

/// A system prompt with no parts and the template `template`.
pub open spec fn bare_system_prompt(template: PromptView) -> SystemPromptView {
    SystemPromptView {
        role: None,
        skills_available: None,
        memory: None,
        claude_md: None,
        dynamic_context: None,
        memory_guidance: None,
        guidelines: Seq::empty(),
        constraints: Seq::empty(),
        additional: None,
        template,
    }
}

/// The prompt that stands for the system prompt `p`: its template, with each
/// part given to it under the part's name.
pub open spec fn system_prompt_as_prompt(p: SystemPromptView) -> PromptView {
    PromptView {
        template: p.template.template,
        context: Some(
            values_of(p.template.context)
                .insert("role"@, opt_value(p.role))
                .insert("skills_available"@, opt_value(p.skills_available))
                .insert("memory"@, opt_value(p.memory))
                .insert("claude_md"@, opt_value(p.claude_md))
                .insert("dynamic_context"@, opt_value(p.dynamic_context))
                .insert("memory_guidance"@, opt_value(p.memory_guidance))
                .insert("guidelines"@, list_value(p.guidelines))
                .insert("constraints"@, list_value(p.constraints))
                .insert("additional"@, opt_value(p.additional)),
        ),
    }
}

/// Whether the template values `m` give `part` under `key`: its text, or
/// null when the part is not set.
pub open spec fn gives_text(m: Map<Seq<char>, JsonView>, key: Seq<char>, part: Option<Seq<char>>) -> bool {
    &&& m.contains_key(key)
    &&& match part {
        Some(t) => m[key] == JsonView::Text(t),
        None => m[key] == JsonView::Null,
    }
}

/// Whether the template values `m` give the texts `parts` under `key`, as an
/// array in their order.
pub open spec fn gives_texts(m: Map<Seq<char>, JsonView>, key: Seq<char>, parts: Seq<Seq<char>>) -> bool {
    &&& m.contains_key(key)
    &&& m[key] matches JsonView::Array(a) && a.len() == parts.len()
        && forall|i: int| 0 <= i < a.len() ==> #[trigger] a[i] == JsonView::Text(parts[i])
}

/// The prompt that stands for a system prompt keeps its template and gives
/// the template each part under the part's own name: the role, skills,
/// memory, project instructions (`claude_md`), dynamic context, memory
/// guidance and additional text as texts or null, the guidelines and
/// constraints as arrays of texts.  Every other value of the template stays.
pub proof fn lemma_prompt_gives_each_part(p: SystemPromptView)
    ensures
        system_prompt_as_prompt(p).template == p.template.template,
        system_prompt_as_prompt(p).context is Some,
        ({
            let m = system_prompt_as_prompt(p).context->0;
            &&& gives_text(m, "role"@, p.role)
            &&& gives_text(m, "skills_available"@, p.skills_available)
            &&& gives_text(m, "memory"@, p.memory)
            &&& gives_text(m, "claude_md"@, p.claude_md)
            &&& gives_text(m, "dynamic_context"@, p.dynamic_context)
            &&& gives_text(m, "memory_guidance"@, p.memory_guidance)
            &&& gives_texts(m, "guidelines"@, p.guidelines)
            &&& gives_texts(m, "constraints"@, p.constraints)
            &&& gives_text(m, "additional"@, p.additional)
            &&& forall|k: Seq<char>|
                k != "role"@ && k != "skills_available"@ && k != "memory"@ && k != "claude_md"@
                    && k != "dynamic_context"@ && k != "memory_guidance"@ && k != "guidelines"@
                    && k != "constraints"@ && k != "additional"@
                    ==> (#[trigger] m.contains_key(k) == values_of(p.template.context).contains_key(k)
                        && (m.contains_key(k) ==> m[k] == values_of(p.template.context)[k]))
        }),
{
    reveal_strlit("role");
    reveal_strlit("skills_available");
    reveal_strlit("memory");
    reveal_strlit("claude_md");
    reveal_strlit("dynamic_context");
    reveal_strlit("memory_guidance");
    reveal_strlit("guidelines");
    reveal_strlit("constraints");
    reveal_strlit("additional");
    let names = seq!["role"@, "skills_available"@, "memory"@, "claude_md"@, "dynamic_context"@,
        "memory_guidance"@, "guidelines"@, "constraints"@, "additional"@];
    assert forall|a: int, b: int| 0 <= a < b < 9 implies names[a] != names[b] by {
        assert(names[a].len() != names[b].len() || names[a][0] != names[b][0] || names[a][1] != names[b][1]);
    }
    assert(names[0] == "role"@);
    assert(names[1] == "skills_available"@);
    assert(names[2] == "memory"@);
    assert(names[3] == "claude_md"@);
    assert(names[4] == "dynamic_context"@);
    assert(names[5] == "memory_guidance"@);
    assert(names[6] == "guidelines"@);
    assert(names[7] == "constraints"@);
    assert(names[8] == "additional"@);
}

fn copy_opt(o: &Option<String>) -> (r: Option<String>)
    ensures
        opt_view(r) == opt_view(*o),
{
    match o {
        Some(s) => Some(s.clone()),
        None => None,
    }
}

impl SystemPrompt {
    /// A builder with no part set.
    pub fn builder() -> (r: SystemPromptBuilder)
        ensures
            r@ == empty_builder(),
    {
        SystemPromptBuilder::new()
    }

    /// A system prompt with no parts and the default template.
    pub fn new() -> (r: SystemPrompt)
        ensures
            r@ == bare_system_prompt(default_template()),
    {
        SystemPrompt::from_prompt(default_prompt_template())
    }

    /// A system prompt with no parts and the template `template`.
    pub fn from_prompt(template: Prompt) -> (r: SystemPrompt)
        ensures
            r@ == bare_system_prompt(template@),
    {
        let r = SystemPrompt {
            role: None,
            skills_available: None,
            memory: None,
            claude_md: None,
            dynamic_context: None,
            memory_guidance: None,
            guidelines: Vec::new(),
            constraints: Vec::new(),
            additional: None,
            template,
        };
        assert(strings_view(r.guidelines@) =~= Seq::<Seq<char>>::empty());
        assert(strings_view(r.constraints@) =~= Seq::<Seq<char>>::empty());
        r
    }

    /// A system prompt with no parts whose template is the text `text`.
    pub fn from_text(text: String) -> (r: SystemPrompt)
        ensures
            r@ == bare_system_prompt(PromptView { template: TemplateView::OneOff(text@), context: None }),
    {
        SystemPrompt::from_prompt(Prompt::from_text(text))
    }

    /// The prompt that stands for this system prompt.
    pub fn to_prompt(&self) -> (r: Prompt)
        ensures
            r@ == system_prompt_as_prompt(self@),
    {
        self.template.duplicate()
            .with_context_value("role", opt_json(&self.role))
            .with_context_value("skills_available", opt_json(&self.skills_available))
            .with_context_value("memory", opt_json(&self.memory))
            .with_context_value("claude_md", opt_json(&self.claude_md))
            .with_context_value("dynamic_context", opt_json(&self.dynamic_context))
            .with_context_value("memory_guidance", opt_json(&self.memory_guidance))
            .with_context_value("guidelines", list_json(&self.guidelines))
            .with_context_value("constraints", list_json(&self.constraints))
            .with_context_value("additional", opt_json(&self.additional))
    }

    /// Adds a guideline after the others.
    pub fn with_added_guideline(&mut self, guideline: &str) -> (r: &mut Self)
        ensures
            r@ == (SystemPromptView { guidelines: old(self)@.guidelines.push(guideline@), ..old(self)@ }),
            *final(self) == *final(r),
    {
        let ghost g0 = self.guidelines@;
        self.guidelines.push(guideline.to_owned());
        assert(strings_view(self.guidelines@) =~= strings_view(g0).push(guideline@));
        self
    }

    /// Replaces the guidelines with `guidelines`.
    pub fn with_guidelines(&mut self, guidelines: &[&str]) -> (r: &mut Self)
        ensures
            r@ == (SystemPromptView { guidelines: guidelines@.map_values(|x: &str| x@), ..old(self)@ }),
            *final(self) == *final(r),
    {
        self.guidelines = owned_strings(guidelines);
        self
    }

    /// Adds a constraint after the others.
    pub fn with_added_constraint(&mut self, constraint: &str) -> (r: &mut Self)
        ensures
            r@ == (SystemPromptView { constraints: old(self)@.constraints.push(constraint@), ..old(self)@ }),
            *final(self) == *final(r),
    {
        let ghost c0 = self.constraints@;
        self.constraints.push(constraint.to_owned());
        assert(strings_view(self.constraints@) =~= strings_view(c0).push(constraint@));
        self
    }

    /// Replaces the constraints with `constraints`.
    pub fn with_constraint(&mut self, constraints: &[&str]) -> (r: &mut Self)
        ensures
            r@ == (SystemPromptView { constraints: constraints@.map_values(|x: &str| x@), ..old(self)@ }),
            *final(self) == *final(r),
    {
        self.constraints = owned_strings(constraints);
        self
    }

    /// Sets the role.
    pub fn with_role(&mut self, role: String) -> (r: &mut Self)
        ensures
            r@ == (SystemPromptView { role: Some(role@), ..old(self)@ }),
            *final(self) == *final(r),
    {
        self.role = Some(role);
        self
    }

    /// Sets the description of the skills available.
    pub fn with_skills_available(&mut self, skills_available: String) -> (r: &mut Self)
        ensures
            r@ == (SystemPromptView { skills_available: Some(skills_available@), ..old(self)@ }),
            *final(self) == *final(r),
    {
        self.skills_available = Some(skills_available);
        self
    }

    /// Sets the memory.
    pub fn with_memory(&mut self, memory: String) -> (r: &mut Self)
        ensures
            r@ == (SystemPromptView { memory: Some(memory@), ..old(self)@ }),
            *final(self) == *final(r),
    {
        self.memory = Some(memory);
        self
    }

    /// Sets the project instructions.
    pub fn with_claude_md(&mut self, claude_md: String) -> (r: &mut Self)
        ensures
            r@ == (SystemPromptView { claude_md: Some(claude_md@), ..old(self)@ }),
            *final(self) == *final(r),
    {
        self.claude_md = Some(claude_md);
        self
    }

    /// Sets the dynamic context.
    pub fn with_dynamic_context(&mut self, dynamic_context: String) -> (r: &mut Self)
        ensures
            r@ == (SystemPromptView { dynamic_context: Some(dynamic_context@), ..old(self)@ }),
            *final(self) == *final(r),
    {
        self.dynamic_context = Some(dynamic_context);
        self
    }

    /// Sets the guidance on memory.
    pub fn with_memory_guidance(&mut self, guidance: String) -> (r: &mut Self)
        ensures
            r@ == (SystemPromptView { memory_guidance: Some(guidance@), ..old(self)@ }),
            *final(self) == *final(r),
    {
        self.memory_guidance = Some(guidance);
        self
    }

    /// Sets the additional part.
    pub fn with_additional(&mut self, additional: String) -> (r: &mut Self)
        ensures
            r@ == (SystemPromptView { additional: Some(additional@), ..old(self)@ }),
            *final(self) == *final(r),
    {
        self.additional = Some(additional);
        self
    }

    /// Sets the template.
    pub fn with_template(&mut self, template: Prompt) -> (r: &mut Self)
        ensures
            r@ == (SystemPromptView { template: template@, ..old(self)@ }),
            *final(self) == *final(r),
    {
        self.template = template;
        self
    }
}

impl Default for SystemPrompt {
    fn default() -> (r: Self)
        ensures
            r@ == bare_system_prompt(default_template()),
    {
        SystemPrompt::new()
    }
}

/// Why a system prompt could not be built.
#[derive(Debug)]
pub enum SystemPromptBuilderError {
    /// The named part has no value.
    UninitializedField(String),
}

/// Builds a system prompt part by part; parts left unset take their default.
#[derive(Debug)]
pub struct SystemPromptBuilder {
    role: Option<Option<String>>,
    skills_available: Option<Option<String>>,
    memory: Option<Option<String>>,
    claude_md: Option<Option<String>>,
    dynamic_context: Option<Option<String>>,
    memory_guidance: Option<Option<String>>,
    guidelines: Option<Vec<String>>,
    constraints: Option<Vec<String>>,
    additional: Option<Option<String>>,
    template: Option<Prompt>,
}

/// The content of a `SystemPromptBuilder`: for each part, whether it was set, and to what.
pub struct SystemPromptBuilderView {
    pub role: Option<Option<Seq<char>>>,
    pub skills_available: Option<Option<Seq<char>>>,
    pub memory: Option<Option<Seq<char>>>,
    pub claude_md: Option<Option<Seq<char>>>,
    pub dynamic_context: Option<Option<Seq<char>>>,
    pub memory_guidance: Option<Option<Seq<char>>>,
    pub guidelines: Option<Seq<Seq<char>>>,
    pub constraints: Option<Seq<Seq<char>>>,
    pub additional: Option<Option<Seq<char>>>,
    pub template: Option<PromptView>,
}

/// The state of an optional part of a builder.
pub open spec fn part_view(o: Option<Option<String>>) -> Option<Option<Seq<char>>> {
    match o {
        Some(v) => Some(opt_view(v)),
        None => None,
    }
}

/// The state of a list part of a builder.
pub open spec fn list_part_view(o: Option<Vec<String>>) -> Option<Seq<Seq<char>>> {
    match o {
        Some(v) => Some(strings_view(v@)),
        None => None,
    }
}

/// A builder with no part set.
pub open spec fn empty_builder() -> SystemPromptBuilderView {
    SystemPromptBuilderView {
        role: None,
        skills_available: None,
        memory: None,
        claude_md: None,
        dynamic_context: None,
        memory_guidance: None,
        guidelines: None,
        constraints: None,
        additional: None,
        template: None,
    }
}

/// The value of an optional part: the one set, else none.
pub open spec fn part_or_default(o: Option<Option<Seq<char>>>) -> Option<Seq<char>> {
    match o {
        Some(v) => v,
        None => None,
    }
}

/// The value of a list part: the one set, else the empty list.
pub open spec fn list_or_default(o: Option<Seq<Seq<char>>>) -> Seq<Seq<char>> {
    match o {
        Some(v) => v,
        None => Seq::empty(),
    }
}

/// The system prompt that the builder `b` builds.
pub open spec fn built(b: SystemPromptBuilderView) -> SystemPromptView {
    SystemPromptView {
        role: part_or_default(b.role),
        skills_available: part_or_default(b.skills_available),
        memory: part_or_default(b.memory),
        claude_md: part_or_default(b.claude_md),
        dynamic_context: part_or_default(b.dynamic_context),
        memory_guidance: part_or_default(b.memory_guidance),
        guidelines: list_or_default(b.guidelines),
        constraints: list_or_default(b.constraints),
        additional: part_or_default(b.additional),
        template: match b.template {
            Some(t) => t,
            None => default_template(),
        },
    }
}

impl View for SystemPromptBuilder {
    type V = SystemPromptBuilderView;

    closed spec fn view(&self) -> SystemPromptBuilderView {
        SystemPromptBuilderView {
            role: part_view(self.role),
            skills_available: part_view(self.skills_available),
            memory: part_view(self.memory),
            claude_md: part_view(self.claude_md),
            dynamic_context: part_view(self.dynamic_context),
            memory_guidance: part_view(self.memory_guidance),
            guidelines: list_part_view(self.guidelines),
            constraints: list_part_view(self.constraints),
            additional: part_view(self.additional),
            template: match self.template {
                Some(t) => Some(t@),
                None => None,
            },
        }
    }
}

impl Default for SystemPromptBuilder {
    fn default() -> (r: Self)
        ensures
            r@ == empty_builder(),
    {
        SystemPromptBuilder::new()
    }
}

fn copy_part(o: &Option<Option<String>>) -> (r: Option<String>)
    ensures
        opt_view(r) == part_or_default(part_view(*o)),
{
    match o {
        Some(v) => copy_opt(v),
        None => None,
    }
}

fn copy_list_part(o: &Option<Vec<String>>) -> (r: Vec<String>)
    ensures
        strings_view(r@) == list_or_default(list_part_view(*o)),
{
    match o {
        Some(v) => copy_strings(v),
        None => {
            let r: Vec<String> = Vec::new();
            assert(strings_view(r@) =~= Seq::<Seq<char>>::empty());
            r
        },
    }
}

impl SystemPromptBuilder {
    /// A builder with no part set.
    pub fn new() -> (r: SystemPromptBuilder)
        ensures
            r@ == empty_builder(),
    {
        SystemPromptBuilder {
            role: None,
            skills_available: None,
            memory: None,
            claude_md: None,
            dynamic_context: None,
            memory_guidance: None,
            guidelines: None,
            constraints: None,
            additional: None,
            template: None,
        }
    }

    /// A builder with every part set as in `prompt`.
    pub fn from_system_prompt(prompt: SystemPrompt) -> (r: SystemPromptBuilder)
        ensures
            built(r@) == prompt@,
            r@.template == Some(prompt@.template),
    {
        SystemPromptBuilder {
            role: Some(prompt.role),
            skills_available: Some(prompt.skills_available),
            memory: Some(prompt.memory),
            claude_md: Some(prompt.claude_md),
            dynamic_context: Some(prompt.dynamic_context),
            memory_guidance: Some(prompt.memory_guidance),
            guidelines: Some(prompt.guidelines),
            constraints: Some(prompt.constraints),
            additional: Some(prompt.additional),
            template: Some(prompt.template),
        }
    }

    /// Sets the role.
    pub fn role(&mut self, value: String) -> (r: &mut Self)
        ensures
            r@ == (SystemPromptBuilderView { role: Some(Some(value@)), ..old(self)@ }),
            *final(self) == *final(r),
    {
        self.role = Some(Some(value));
        self
    }

    /// Sets the description of the skills available.
    pub fn skills_available(&mut self, value: String) -> (r: &mut Self)
        ensures
            r@ == (SystemPromptBuilderView { skills_available: Some(Some(value@)), ..old(self)@ }),
            *final(self) == *final(r),
    {
        self.skills_available = Some(Some(value));
        self
    }

    /// Sets the memory.
    pub fn memory(&mut self, value: String) -> (r: &mut Self)
        ensures
            r@ == (SystemPromptBuilderView { memory: Some(Some(value@)), ..old(self)@ }),
            *final(self) == *final(r),
    {
        self.memory = Some(Some(value));
        self
    }

    /// Sets the project instructions.
    pub fn claude_md(&mut self, value: String) -> (r: &mut Self)
        ensures
            r@ == (SystemPromptBuilderView { claude_md: Some(Some(value@)), ..old(self)@ }),
            *final(self) == *final(r),
    {
        self.claude_md = Some(Some(value));
        self
    }

    /// Sets the dynamic context.
    pub fn dynamic_context(&mut self, value: String) -> (r: &mut Self)
        ensures
            r@ == (SystemPromptBuilderView { dynamic_context: Some(Some(value@)), ..old(self)@ }),
            *final(self) == *final(r),
    {
        self.dynamic_context = Some(Some(value));
        self
    }

    /// Sets the guidance on memory.
    pub fn memory_guidance(&mut self, value: String) -> (r: &mut Self)
        ensures
            r@ == (SystemPromptBuilderView { memory_guidance: Some(Some(value@)), ..old(self)@ }),
            *final(self) == *final(r),
    {
        self.memory_guidance = Some(Some(value));
        self
    }

    /// Sets the additional part.
    pub fn additional(&mut self, value: String) -> (r: &mut Self)
        ensures
            r@ == (SystemPromptBuilderView { additional: Some(Some(value@)), ..old(self)@ }),
            *final(self) == *final(r),
    {
        self.additional = Some(Some(value));
        self
    }

    /// Sets the template.
    pub fn template(&mut self, value: Prompt) -> (r: &mut Self)
        ensures
            r@ == (SystemPromptBuilderView { template: Some(value@), ..old(self)@ }),
            *final(self) == *final(r),
    {
        self.template = Some(value);
        self
    }

    /// Adds a guideline after those set so far.
    pub fn add_guideline(&mut self, guideline: &str) -> (r: &mut Self)
        ensures
            r@ == (SystemPromptBuilderView {
                guidelines: Some(list_or_default(old(self)@.guidelines).push(guideline@)),
                ..old(self)@
            }),
            *final(self) == *final(r),
    {
        let ghost before = list_or_default(self@.guidelines);
        let mut list = match self.guidelines.take() {
            Some(v) => v,
            None => Vec::new(),
        };
        let ghost l0 = list@;
        assert(strings_view(l0) =~= before);
        list.push(guideline.to_owned());
        assert(strings_view(list@) =~= strings_view(l0).push(guideline@));
        self.guidelines = Some(list);
        self
    }

    /// Adds a constraint after those set so far.
    pub fn add_constraint(&mut self, constraint: &str) -> (r: &mut Self)
        ensures
            r@ == (SystemPromptBuilderView {
                constraints: Some(list_or_default(old(self)@.constraints).push(constraint@)),
                ..old(self)@
            }),
            *final(self) == *final(r),
    {
        let ghost before = list_or_default(self@.constraints);
        let mut list = match self.constraints.take() {
            Some(v) => v,
            None => Vec::new(),
        };
        let ghost l0 = list@;
        assert(strings_view(l0) =~= before);
        list.push(constraint.to_owned());
        assert(strings_view(list@) =~= strings_view(l0).push(constraint@));
        self.constraints = Some(list);
        self
    }

    /// Sets the guidelines to `guidelines`.
    pub fn guidelines(&mut self, guidelines: &[&str]) -> (r: &mut Self)
        ensures
            r@ == (SystemPromptBuilderView {
                guidelines: Some(guidelines@.map_values(|x: &str| x@)),
                ..old(self)@
            }),
            *final(self) == *final(r),
    {
        self.guidelines = Some(owned_strings(guidelines));
        self
    }

    /// Sets the constraints to `constraints`.
    pub fn constraints(&mut self, constraints: &[&str]) -> (r: &mut Self)
        ensures
            r@ == (SystemPromptBuilderView {
                constraints: Some(constraints@.map_values(|x: &str| x@)),
                ..old(self)@
            }),
            *final(self) == *final(r),
    {
        self.constraints = Some(owned_strings(constraints));
        self
    }

    /// The system prompt with the parts set so far, the others at their default.
    pub fn build(&self) -> (r: Result<SystemPrompt, SystemPromptBuilderError>)
        ensures
            r is Ok && r->Ok_0@ == built(self@),
    {
        let template = match &self.template {
            Some(t) => t.duplicate(),
            None => default_prompt_template(),
        };
        Ok(SystemPrompt {
            role: copy_part(&self.role),
            skills_available: copy_part(&self.skills_available),
            memory: copy_part(&self.memory),
            claude_md: copy_part(&self.claude_md),
            dynamic_context: copy_part(&self.dynamic_context),
            memory_guidance: copy_part(&self.memory_guidance),
            guidelines: copy_list_part(&self.guidelines),
            constraints: copy_list_part(&self.constraints),
            additional: copy_part(&self.additional),
            template,
        })
    }
}

} // verus!
