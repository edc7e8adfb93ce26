use paperclip::css_ast::{ConditionRule, Declaration, KeyframeRule, KeyframesRule, Rule, Selector, Sheet, StyleRule};
use paperclip::css_parser;
use paperclip::evaluator::{evaluate, evaluate_style_rules, Context};
use paperclip::virt::{CSSRule, CSSStyleProperty, CSSStyleRule};

fn scoped_selector(css: &str, scope: &str) -> String {
    let sheet = css_parser::parse(css).unwrap();
    let out = evaluate(&sheet, scope).unwrap();
    assert_eq!(out.rules.len(), 1);
    match &out.rules[0] {
        CSSRule::CSSStyleRule(rule) => rule.selector_text.clone(),
        other => panic!("unexpected rule {:?}", other),
    }
}

#[test]
fn evaluates_a_style_rule_under_a_scope() {
    let sheet = css_parser::parse("div { color: red; }").unwrap();
    let out = evaluate(&sheet, "x7").unwrap();
    assert_eq!(
        out.rules,
        vec![CSSRule::CSSStyleRule(CSSStyleRule {
            selector_text: "div[data-pc-x7]".to_string(),
            style: vec![CSSStyleProperty { name: "color".to_string(), value: "red".to_string() }],
        })]
    );
}

#[test]
fn scopes_both_sides_of_a_child_combinator() {
    assert_eq!(scoped_selector("div > a { color: red; }", "x7"), "div[data-pc-x7] > a[data-pc-x7]");
}

#[test]
fn scopes_inside_a_negation() {
    assert_eq!(scoped_selector(".a:not(.b) { color: red; }", "x7"), ".a[data-pc-x7]:not(.b[data-pc-x7])");
}

#[test]
fn compound_gets_one_marker_and_descendant_two() {
    let compound = scoped_selector("div.foo { color: red; }", "x7");
    assert_eq!(compound, "div.foo[data-pc-x7]");
    assert_eq!(compound.matches("[data-pc-x7]").count(), 1);
    let descendant = scoped_selector("div .foo { color: red; }", "x7");
    assert_eq!(descendant, "div[data-pc-x7] .foo[data-pc-x7]");
    assert_eq!(descendant.matches("[data-pc-x7]").count(), 2);
}

#[test]
fn group_members_are_scoped_one_by_one() {
    assert_eq!(scoped_selector("a, b { color: red; }", "x7"), "a[data-pc-x7], b[data-pc-x7]");
}

#[test]
fn scopes_every_simple_and_pseudo_form() {
    assert_eq!(scoped_selector("* { color: red; }", "s"), "[data-pc-s]");
    assert_eq!(scoped_selector("#main { color: red; }", "s"), "#main[data-pc-s]");
    assert_eq!(scoped_selector("[href] { color: red; }", "s"), "[href][data-pc-s]");
    assert_eq!(scoped_selector("[type=text] { color: red; }", "s"), "[type=text][data-pc-s]");
    assert_eq!(scoped_selector(":hover { color: red; }", "s"), "[data-pc-s]:hover");
    assert_eq!(scoped_selector("a:hover { color: red; }", "s"), "a[data-pc-s]:hover");
    assert_eq!(scoped_selector("li:nth-child(2n) { color: red; }", "s"), "li[data-pc-s]:nth-child(2n)");
    assert_eq!(scoped_selector("a + b { color: red; }", "s"), "a[data-pc-s] + b[data-pc-s]");
    assert_eq!(scoped_selector("a ~ b { color: red; }", "s"), "a[data-pc-s] ~ b[data-pc-s]");
    assert_eq!(scoped_selector(":not(a) { color: red; }", "s"), "[data-pc-s]:not(a[data-pc-s])");
}

#[test]
fn declarations_are_copied_verbatim() {
    let sheet = css_parser::parse("span { color: orange; background: a b c d; }").unwrap();
    let out = evaluate(&sheet, "q").unwrap();
    match &out.rules[0] {
        CSSRule::CSSStyleRule(rule) => {
            assert_eq!(rule.style.len(), 2);
            assert_eq!(rule.style[1].name, "background");
            assert_eq!(rule.style[1].value, "a b c d");
        },
        other => panic!("unexpected rule {:?}", other),
    }
}

#[test]
fn empty_sheet_evaluates_to_empty_sheet() {
    let sheet = css_parser::parse("  ").unwrap();
    assert_eq!(evaluate(&sheet, "x").unwrap().rules.len(), 0);
}

#[test]
fn nested_and_keyframe_rules_keep_their_text() {
    let decl = || Declaration { name: "color".to_string(), value: "red".to_string() };
    let sheet = Sheet {
        rules: vec![
            Rule::Charset("\"utf-8\"".to_string()),
            Rule::Media(ConditionRule {
                name: "media".to_string(),
                condition_text: "screen".to_string(),
                rules: vec![StyleRule { selector: Selector::Element { tag_name: "p".to_string() }, declarations: vec![decl()] }],
            }),
            Rule::Keyframes(KeyframesRule {
                name: "spin".to_string(),
                rules: vec![KeyframeRule { key: "50%".to_string(), declarations: vec![decl()] }],
            }),
        ],
    };
    let out = evaluate(&sheet, "k").unwrap();
    assert_eq!(out.rules.len(), 3);
    assert_eq!(out.rules[0], CSSRule::CSSCharset("\"utf-8\"".to_string()));
    match &out.rules[1] {
        CSSRule::Media(c) => {
            assert_eq!(c.condition_text, "screen");
            assert_eq!(c.rules[0].selector_text, "p[data-pc-k]");
        },
        other => panic!("unexpected rule {:?}", other),
    }
    match &out.rules[2] {
        CSSRule::Keyframes(k) => {
            assert_eq!(k.name, "spin");
            assert_eq!(k.rules[0].key, "50%");
            assert_eq!(k.rules[0].style[0].value, "red");
        },
        other => panic!("unexpected rule {:?}", other),
    }
}

#[test]
fn style_rules_are_evaluated_in_order() {
    let rules = vec![
        StyleRule { selector: Selector::Class { class_name: "a".to_string() }, declarations: vec![] },
        StyleRule { selector: Selector::AllSelector, declarations: vec![] },
    ];
    let out = evaluate_style_rules(&rules, &Context { scope: "z" }).unwrap();
    assert_eq!(out[0].selector_text, ".a[data-pc-z]");
    assert_eq!(out[1].selector_text, "[data-pc-z]");
}

#[test]
fn malformed_css_is_an_error() {
    assert!(css_parser::parse("div { color red; }").is_err());
    assert!(css_parser::parse("div { color: red;").is_err());
}
