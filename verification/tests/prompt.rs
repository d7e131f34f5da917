use demo_cc::json::{JsonNumber, JsonValue};
use demo_cc::prompt::{
    engine_outcome, is_plain_template, Prompt, PromptContext, PromptError, SystemPrompt, SystemPromptBuilder, TemplateRegistry,
};

fn engine() -> TemplateRegistry {
    TemplateRegistry::new()
}

#[test]
fn plain_template_renders_as_is() {
    let p = Prompt::from_text("{{ not a variable }}".to_string());
    assert_eq!(p.render(&engine()).unwrap(), "{{ not a variable }}");
}

#[test]
fn values_fill_the_template() {
    let p = Prompt::from_text("Hello {{ name }}, {{ n }}".to_string())
        .with_context_value("name", JsonValue::Text("Ann".to_string()))
        .with_context_value("n", JsonValue::Number(JsonNumber::PosInt(3)));
    assert_eq!(p.render(&engine()).unwrap(), "Hello Ann, 3");
    let mut extra = PromptContext::new();
    extra.insert("name", JsonValue::Text("Bob".to_string()));
    assert_eq!(p.with_context(extra).render(&engine()).unwrap(), "Hello Bob, 3");
}

#[test]
fn later_value_replaces_earlier() {
    let p = Prompt::from_text("{{ x }}".to_string())
        .with_context_value("x", JsonValue::Text("one".to_string()))
        .with_context_value("x", JsonValue::Text("two".to_string()));
    assert_eq!(p.render(&engine()).unwrap(), "two");
}

#[test]
fn registered_templates_render_from_the_registry() {
    let mut registry = engine();
    registry.add("greeting".to_string(), "Hi {{ who }}".to_string());
    let p = Prompt::from_compiled_template("greeting".to_string())
        .with_context_value("who", JsonValue::Text("you".to_string()));
    assert_eq!(p.render(&registry).unwrap(), "Hi you");
    let missing = Prompt::from_compiled_template("absent".to_string());
    assert!(matches!(missing.render(&registry), Err(PromptError::Registered(_))));
    let broken = Prompt::from_text("{% if %}".to_string()).with_context(PromptContext::new());
    assert!(matches!(broken.render(&registry), Err(PromptError::OneOff(_))));
}

#[test]
fn builder_sets_parts() {
    let mut builder = SystemPrompt::builder();
    builder
        .role("Analyst".to_string())
        .add_guideline("be kind")
        .add_guideline("be brief")
        .constraints(&["no guessing"])
        .add_constraint("cite lines")
        .template(Prompt::from_text("{{ role }}|{% for g in guidelines %}{{ g }};{% endfor %}|{% for c in constraints %}{{ c }};{% endfor %}|{{ memory }}".to_string()));
    let prompt = builder.build().unwrap();
    assert_eq!(prompt.to_prompt().render(&engine()).unwrap(), "Analyst|be kind;be brief;|no guessing;cite lines;|");
    builder.guidelines(&["only this"]);
    let again = builder.build().unwrap();
    assert_eq!(again.to_prompt().render(&engine()).unwrap(), "Analyst|only this;|no guessing;cite lines;|");
}

#[test]
fn system_prompt_setters() {
    let mut p = SystemPrompt::from_text("{{ role }}/{{ additional }}/{% for g in guidelines %}{{ g }}{% endfor %}".to_string());
    p.with_role("R".to_string()).with_additional("A".to_string()).with_added_guideline("g1").with_added_guideline("g2");
    assert_eq!(p.to_prompt().render(&engine()).unwrap(), "R/A/g1g2");
    p.with_guidelines(&[]).with_template(Prompt::from_text("{{ memory }}".to_string())).with_memory("M".to_string());
    assert_eq!(p.to_prompt().render(&engine()).unwrap(), "M");
    let rebuilt = SystemPromptBuilder::from_system_prompt(p).build().unwrap();
    assert_eq!(rebuilt.to_prompt().render(&engine()).unwrap(), "M");
}

#[test]
fn default_template_leaves_out_unset_parts() {
    let mut p = SystemPrompt::new();
    p.with_role("Role line".to_string()).with_added_constraint("Stay safe");
    let text = p.to_prompt().render(&engine()).unwrap();
    assert!(text.starts_with("Role line"));
    assert!(text.contains("# Constraints\n- Stay safe"));
    assert!(!text.contains("# Memory"));
}

#[test]
fn numbers_and_lists_reach_the_template() {
    let p = Prompt::from_text("{{ a }} {{ b }} {{ c }} {% for x in l %}[{{ x }}]{% endfor %} {{ o.k }}".to_string())
        .with_context_value("a", JsonValue::Number(JsonNumber::NegInt(-4)))
        .with_context_value("b", JsonValue::Number(JsonNumber::Float("1.5".to_string())))
        .with_context_value("c", JsonValue::Bool(true))
        .with_context_value("l", JsonValue::Array(vec![JsonValue::Text("p".to_string()), JsonValue::Null]))
        .with_context_value("o", JsonValue::Object(vec![("k".to_string(), JsonValue::Text("v".to_string()))]));
    assert_eq!(p.render(&engine()).unwrap(), "-4 1.5 true [p][] v");
}

#[test]
fn plain_templates_are_told_apart() {
    assert!(is_plain_template("Hello {{ name }}, {% for x in xs %}{{ x.k }}{% endfor %}"));
    assert!(is_plain_template("50% of {single} braces"));
    assert!(is_plain_template(demo_cc::prompt::DEFAULT_PROMPT_TEMPLATE));
    assert!(!is_plain_template("{{ -9223372036854775808 % -1 }}"));
    assert!(!is_plain_template("{{ a + b }}"));
    assert!(!is_plain_template("{{ name | upper }}"));
    assert!(!is_plain_template("{{ get_env(name=\"HOME\") }}"));
    assert!(!is_plain_template("{% macro f() %}{{ self::f() }}{% endmacro %}"));
    assert!(!is_plain_template("{% include \"x\" %}"));
}

#[test]
fn only_plain_templates_reach_the_engine() {
    let mut registry = engine();
    let risky = Prompt::from_text("{{ 7 % 2 }}".to_string()).with_context(PromptContext::new());
    assert!(!risky.can_render(&registry));
    let bare = Prompt::from_text("{{ 7 % 2 }}".to_string());
    assert!(bare.can_render(&registry));
    assert_eq!(bare.render(&registry).unwrap(), "{{ 7 % 2 }}");
    registry.add("ok".to_string(), "{{ x }}".to_string());
    let registered = Prompt::from_compiled_template("ok".to_string());
    assert!(registered.can_render(&registry));
    registry.add("bad".to_string(), "{{ x * 2 }}".to_string());
    assert!(!registered.can_render(&registry));
}

#[test]
fn text_without_tags_renders_as_itself() {
    let p = Prompt::from_text("no tags, 100% text".to_string())
        .with_context_value("x", JsonValue::Text("unused".to_string()));
    assert_eq!(p.render(&engine()).unwrap(), "no tags, 100% text");
    let mut registry = engine();
    registry.add("a".to_string(), "first".to_string());
    registry.add("a".to_string(), "second".to_string());
    let q = Prompt::from_compiled_template("a".to_string()).with_context(PromptContext::new());
    assert_eq!(q.render(&registry).unwrap(), "second");
}

#[test]
fn engine_answers_become_prompt_results() {
    assert_eq!(engine_outcome(Ok("text".to_string()), true).unwrap(), "text");
    assert!(matches!(engine_outcome(Err("bad".to_string()), true), Err(PromptError::OneOff(m)) if m == "bad"));
    assert!(matches!(engine_outcome(Err("gone".to_string()), false), Err(PromptError::Registered(m)) if m == "gone"));
}

#[test]
fn names_that_open_with_a_boolean_are_not_values() {
    let p = Prompt::from_text("{{ trueish }}".to_string())
        .with_context_value("trueish", JsonValue::Text("x".to_string()));
    assert!(p.can_render(&engine()));
    assert!(matches!(p.render(&engine()), Err(PromptError::OneOff(_))));
    let q = Prompt::from_text("{{ the_truth }}".to_string())
        .with_context_value("the_truth", JsonValue::Text("x".to_string()));
    assert_eq!(q.render(&engine()).unwrap(), "x");
}

#[test]
fn registered_templates_get_the_prompt_values() {
    let mut registry = engine();
    registry.add("list".to_string(), "{% for g in items %}[{{ g }}]{% endfor %}".to_string());
    let p = Prompt::from_compiled_template("list".to_string()).with_context_value(
        "items",
        JsonValue::Array(vec![JsonValue::Text("a".to_string()), JsonValue::Text("b".to_string())]),
    );
    assert_eq!(p.render(&registry).unwrap(), "[a][b]");
}
