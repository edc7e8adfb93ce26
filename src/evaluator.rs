use vstd::prelude::*;
use crate::css_ast::{
    Sheet, Rule, FontFamilyRule, ConditionRule, KeyframesRule, KeyframeRule, StyleRule, Declaration,
    Selector, selector_text, attribute_text, group_text, combo_text, join2,
};
use crate::virt;
use crate::scope::{
    scope_suffix, scoped, scoped_group, pseudo_text, pseudo_seq_text, pseudo_tail_start,
    is_pseudo, lemma_pseudo_tail_start_bounds, lemma_scoped_combo_split,
};

verus! {


/// The read-only state of one evaluation: the scope token of the component.
#[derive(Debug)]
pub struct Context<'a> {
    pub scope: &'a str,
}

/// The evaluator's failure signal; it carries no position.
#[derive(Debug, Clone, Copy, PartialEq, Eq, Structural)]
pub struct EvalError;

pub open spec fn decls_copied(ds: Seq<Declaration>, ps: Seq<virt::CSSStyleProperty>) -> bool {
    &&& ps.len() == ds.len()
    &&& forall|i: int| 0 <= i < ds.len() ==> #[trigger] ps[i].name@ == ds[i].name@ && ps[i].value@ == ds[i].value@
}

pub open spec fn style_rule_evaluated(r: StyleRule, v: virt::CSSStyleRule, suf: Seq<char>) -> bool {
    &&& v.selector_text@ == scoped(r.selector, suf)
    &&& decls_copied(r.declarations@, v.style@)
}

pub open spec fn style_rules_evaluated(rs: Seq<StyleRule>, vs: Seq<virt::CSSStyleRule>, suf: Seq<char>) -> bool {
    &&& vs.len() == rs.len()
    &&& forall|i: int| 0 <= i < rs.len() ==> style_rule_evaluated(#[trigger] rs[i], vs[i], suf)
}

pub open spec fn condition_evaluated(r: ConditionRule, v: virt::ConditionRule, suf: Seq<char>) -> bool {
    &&& v.name@ == r.name@
    &&& v.condition_text@ == r.condition_text@
    &&& style_rules_evaluated(r.rules@, v.rules@, suf)
}

pub open spec fn keyframe_evaluated(r: KeyframeRule, v: virt::KeyframeRule) -> bool {
    &&& v.key@ == r.key@
    &&& decls_copied(r.declarations@, v.style@)
}

pub open spec fn keyframes_evaluated(r: KeyframesRule, v: virt::KeyframesRule) -> bool {
    &&& v.name@ == r.name@
    &&& v.rules@.len() == r.rules@.len()
    &&& forall|i: int| 0 <= i < r.rules@.len() ==> keyframe_evaluated(#[trigger] r.rules@[i], v.rules@[i])
}

/// `v` is what `r` becomes under the scope marker `suf`.
pub open spec fn rule_evaluated(r: Rule, v: virt::CSSRule, suf: Seq<char>) -> bool {
    match (r, v) {
        (Rule::Charset(a), virt::CSSRule::CSSCharset(b)) => b@ == a@,
        (Rule::Namespace(a), virt::CSSRule::CSSNamespace(b)) => b@ == a@,
        (Rule::FontFamily(a), virt::CSSRule::FontFamily(b)) => decls_copied(a.declarations@, b.style@),
        (Rule::Media(a), virt::CSSRule::Media(b)) => condition_evaluated(a, b, suf),
        (Rule::Style(a), virt::CSSRule::CSSStyleRule(b)) => style_rule_evaluated(a, b, suf),
        (Rule::Keyframes(a), virt::CSSRule::Keyframes(b)) => keyframes_evaluated(a, b),
        (Rule::Supports(a), virt::CSSRule::Supports(b)) => condition_evaluated(a, b, suf),
        (Rule::Document(a), virt::CSSRule::Document(b)) => condition_evaluated(a, b, suf),
        (Rule::Page(a), virt::CSSRule::Page(b)) => condition_evaluated(a, b, suf),
        _ => false,
    }
}

pub open spec fn sheet_evaluated(s: Sheet, v: virt::CSSSheet, suf: Seq<char>) -> bool {
    &&& v.rules@.len() == s.rules@.len()
    &&& forall|i: int| 0 <= i < s.rules@.len() ==> rule_evaluated(#[trigger] s.rules@[i], v.rules@[i], suf)
}

/// Evaluates a sheet for the component whose scope token is `scope`: every
/// selector is rewritten to carry `[data-pc-<scope>]`, all else is copied.
pub fn evaluate<'a>(expr: &Sheet, scope: &'a str) -> (r: Result<virt::CSSSheet, EvalError>)
    ensures
        r is Ok,
        r matches Ok(v) ==> sheet_evaluated(*expr, v, scope_suffix(scope@)),
{
    let context = Context { scope };
    let mut rules: Vec<virt::CSSRule> = Vec::new();
    let mut i: usize = 0;
    while i < expr.rules.len()
        invariant
            i <= expr.rules@.len(),
            context.scope == scope,
            rules@.len() == i,
            forall|j: int| 0 <= j < i ==> rule_evaluated(#[trigger] expr.rules@[j], rules@[j], scope_suffix(scope@)),
        decreases expr.rules@.len() - i,
    {
        let v = evaluate_rule(&expr.rules[i], &context)?;
        rules.push(v);
        i = i + 1;
    }
    Ok(virt::CSSSheet { rules })
}

fn evaluate_rule(rule: &Rule, context: &Context) -> (r: Result<virt::CSSRule, EvalError>)
    ensures
        r is Ok,
        r matches Ok(v) ==> rule_evaluated(*rule, v, scope_suffix(context.scope@)),
{
    match rule {
        Rule::Charset(charset) => Ok(virt::CSSRule::CSSCharset(charset.clone())),
        Rule::Namespace(namespace) => Ok(virt::CSSRule::CSSNamespace(namespace.clone())),
        Rule::FontFamily(rule) => evaluate_font_family_rule(rule, context),
        Rule::Media(rule) => evaluate_media_rule(rule, context),
        Rule::Style(rule) => evaluate_style_rule(rule, context),
        Rule::Keyframes(rule) => evaluate_keyframes_rule(rule, context),
        Rule::Supports(rule) => evaluate_supports_rule(rule, context),
        Rule::Document(rule) => evaluate_document_rule(rule, context),
        Rule::Page(rule) => evaluate_page_rule(rule, context),
    }
}

/// Evaluates each style rule in order under the context's scope.
pub fn evaluate_style_rules(rules: &Vec<StyleRule>, context: &Context) -> (r: Result<Vec<virt::CSSStyleRule>, EvalError>)
    ensures
        r is Ok,
        r matches Ok(v) ==> style_rules_evaluated(rules@, v@, scope_suffix(context.scope@)),
{
    let mut css_rules: Vec<virt::CSSStyleRule> = Vec::new();
    let mut i: usize = 0;
    while i < rules.len()
        invariant
            i <= rules@.len(),
            css_rules@.len() == i,
            forall|j: int| 0 <= j < i ==> style_rule_evaluated(#[trigger] rules@[j], css_rules@[j], scope_suffix(context.scope@)),
        decreases rules@.len() - i,
    {
        let v = evaluate_style_rule2(&rules[i], context)?;
        css_rules.push(v);
        i = i + 1;
    }
    Ok(css_rules)
}

fn evaluate_font_family_rule(font_family: &FontFamilyRule, context: &Context) -> (r: Result<virt::CSSRule, EvalError>)
    ensures
        r matches Ok(v) && rule_evaluated(Rule::FontFamily(*font_family), v, scope_suffix(context.scope@)),
{
    let style = evaluate_style_declarations(&font_family.declarations)?;
    Ok(virt::CSSRule::FontFamily(virt::FontFamilyRule { style }))
}

fn evaluate_media_rule(rule: &ConditionRule, context: &Context) -> (r: Result<virt::CSSRule, EvalError>)
    ensures
        r matches Ok(v) && rule_evaluated(Rule::Media(*rule), v, scope_suffix(context.scope@)),
{
    Ok(virt::CSSRule::Media(evaluate_condition_rule(rule, context)?))
}

fn evaluate_supports_rule(rule: &ConditionRule, context: &Context) -> (r: Result<virt::CSSRule, EvalError>)
    ensures
        r matches Ok(v) && rule_evaluated(Rule::Supports(*rule), v, scope_suffix(context.scope@)),
{
    Ok(virt::CSSRule::Supports(evaluate_condition_rule(rule, context)?))
}

fn evaluate_page_rule(rule: &ConditionRule, context: &Context) -> (r: Result<virt::CSSRule, EvalError>)
    ensures
        r matches Ok(v) && rule_evaluated(Rule::Page(*rule), v, scope_suffix(context.scope@)),
{
    Ok(virt::CSSRule::Page(evaluate_condition_rule(rule, context)?))
}

fn evaluate_document_rule(rule: &ConditionRule, context: &Context) -> (r: Result<virt::CSSRule, EvalError>)
    ensures
        r matches Ok(v) && rule_evaluated(Rule::Document(*rule), v, scope_suffix(context.scope@)),
{
    Ok(virt::CSSRule::Document(evaluate_condition_rule(rule, context)?))
}

fn evaluate_condition_rule(rule: &ConditionRule, context: &Context) -> (r: Result<virt::ConditionRule, EvalError>)
    ensures
        r matches Ok(v) && condition_evaluated(*rule, v, scope_suffix(context.scope@)),
{
    Ok(virt::ConditionRule {
        name: rule.name.clone(),
        condition_text: rule.condition_text.clone(),
        rules: evaluate_style_rules(&rule.rules, context)?,
    })
}

fn evaluate_keyframes_rule(rule: &KeyframesRule, context: &Context) -> (r: Result<virt::CSSRule, EvalError>)
    ensures
        r matches Ok(v) && rule_evaluated(Rule::Keyframes(*rule), v, scope_suffix(context.scope@)),
{
    let mut rules: Vec<virt::KeyframeRule> = Vec::new();
    let mut i: usize = 0;
    while i < rule.rules.len()
        invariant
            i <= rule.rules@.len(),
            rules@.len() == i,
            forall|j: int| 0 <= j < i ==> keyframe_evaluated(#[trigger] rule.rules@[j], rules@[j]),
        decreases rule.rules@.len() - i,
    {
        let v = evaluate_keyframe_rule(&rule.rules[i], context)?;
        rules.push(v);
        i = i + 1;
    }
    Ok(virt::CSSRule::Keyframes(virt::KeyframesRule { name: rule.name.clone(), rules }))
}

fn evaluate_keyframe_rule(rule: &KeyframeRule, context: &Context) -> (r: Result<virt::KeyframeRule, EvalError>)
    ensures
        r matches Ok(v) && keyframe_evaluated(*rule, v),
{
    let mut style: Vec<virt::CSSStyleProperty> = Vec::new();
    let mut i: usize = 0;
    while i < rule.declarations.len()
        invariant
            i <= rule.declarations@.len(),
            decls_copied(rule.declarations@.subrange(0, i as int), style@),
        decreases rule.declarations@.len() - i,
    {
        let decl = &rule.declarations[i];
        style.push(virt::CSSStyleProperty { name: decl.name.clone(), value: decl.value.clone() });
        i = i + 1;
    }
    assert(rule.declarations@.subrange(0, i as int) =~= rule.declarations@);
    Ok(virt::KeyframeRule { key: rule.key.clone(), style })
}

fn evaluate_style_declarations(declarations: &Vec<Declaration>) -> (r: Result<Vec<virt::CSSStyleProperty>, EvalError>)
    ensures
        r matches Ok(v) && decls_copied(declarations@, v@),
{
    let mut style: Vec<virt::CSSStyleProperty> = Vec::new();
    let mut i: usize = 0;
    while i < declarations.len()
        invariant
            i <= declarations@.len(),
            decls_copied(declarations@.subrange(0, i as int), style@),
        decreases declarations@.len() - i,
    {
        let p = evaluate_style(&declarations[i])?;
        style.push(p);
        i = i + 1;
    }
    assert(declarations@.subrange(0, i as int) =~= declarations@);
    Ok(style)
}

fn evaluate_style_rule(expr: &StyleRule, context: &Context) -> (r: Result<virt::CSSRule, EvalError>)
    ensures
        r matches Ok(v) && rule_evaluated(Rule::Style(*expr), v, scope_suffix(context.scope@)),
{
    Ok(virt::CSSRule::CSSStyleRule(evaluate_style_rule2(expr, context)?))
}

fn evaluate_style_rule2(expr: &StyleRule, context: &Context) -> (r: Result<virt::CSSStyleRule, EvalError>)
    ensures
        r matches Ok(v) && style_rule_evaluated(*expr, v, scope_suffix(context.scope@)),
{
    let style = evaluate_style_declarations(&expr.declarations)?;
    let selector_text = stringify_element_selector(&expr.selector, context);
    Ok(virt::CSSStyleRule { selector_text, style })
}

fn evaluate_style(expr: &Declaration) -> (r: Result<virt::CSSStyleProperty, EvalError>)
    ensures
        r matches Ok(p) && p.name@ == expr.name@ && p.value@ == expr.value@,
{
    Ok(virt::CSSStyleProperty { name: expr.name.clone(), value: expr.value.clone() })
}

/// `[data-pc-<scope>]`.
fn scope_selector(scope: &str) -> (r: String)
    ensures
        r@ == scope_suffix(scope@),
{
    let mut r = String::new();
    r.append("[data-pc-");
    r.append(scope);
    r.append("]");
    proof {
        reveal_strlit("[data-pc-");
        reveal_strlit("]");
    }
    assert(r@ =~= scope_suffix(scope@));
    r
}

/// `a`, then `sep`, then `b`.
fn joined(a: String, sep: &str, b: &str) -> (r: String)
    ensures
        r@ == join2(a@, sep@, b@),
{
    let mut r = a;
    r.append(sep);
    r.append(b);
    r
}

/// The text of a selector as written.
pub fn selector_to_string(selector: &Selector) -> (r: String)
    ensures
        r@ == selector_text(*selector),
    decreases selector,
{
    proof {
        reveal_strlit("*");
        reveal_strlit(".");
        reveal_strlit("#");
        reveal_strlit(":");
        reveal_strlit("(");
        reveal_strlit(")");
        reveal_strlit(":not(");
        reveal_strlit(" ");
        reveal_strlit(" > ");
        reveal_strlit(" + ");
        reveal_strlit(" ~ ");
    }
    match selector {
        Selector::AllSelector => {
            let r = String::from_str("*");
            assert(r@ =~= selector_text(*selector));
            r
        },
        Selector::Class { class_name } => {
            let r = String::from_str(".").concat(class_name.as_str());
            r
        },
        Selector::Id { id } => String::from_str("#").concat(id.as_str()),
        Selector::Element { tag_name } => tag_name.clone(),
        Selector::PseudoElement { name } => String::from_str(":").concat(name.as_str()),
        Selector::PseudoParamElement { name, param } => {
            String::from_str(":").concat(name.as_str()).concat("(").concat(param.as_str()).concat(")")
        },
        Selector::Attribute { name, value } => attribute_to_string(name, value),
        Selector::Not(inner) => {
            let t = selector_to_string(&**inner);
            String::from_str(":not(").concat(t.as_str()).concat(")")
        },
        Selector::Descendent { parent, descendent } => {
            let a = selector_to_string(&**parent);
            let b = selector_to_string(&**descendent);
            joined(a, " ", b.as_str())
        },
        Selector::Child { parent, child } => {
            let a = selector_to_string(&**parent);
            let b = selector_to_string(&**child);
            joined(a, " > ", b.as_str())
        },
        Selector::Adjacent { selector: s, next_sibling_selector } => {
            let a = selector_to_string(&**s);
            let b = selector_to_string(&**next_sibling_selector);
            joined(a, " + ", b.as_str())
        },
        Selector::Sibling { selector: s, sibling_selector } => {
            let a = selector_to_string(&**s);
            let b = selector_to_string(&**sibling_selector);
            joined(a, " ~ ", b.as_str())
        },
        Selector::Group { selectors } => {
            let mut r = String::new();
            let mut i: usize = 0;
            while i < selectors.len()
                invariant
                    *selector == (Selector::Group { selectors: *selectors }),
                    i <= selectors@.len(),
                    r@ == group_text(selectors@.subrange(0, i as int)),
                decreases selectors@.len() - i,
            {
                proof { lemma_member_decreases(*selector, *selectors, i as int); }
                let t = selector_to_string(&selectors[i]);
                let ghost pre = selectors@.subrange(0, i as int);
                assert(selectors@.subrange(0, i + 1).drop_last() =~= pre);
                if i == 0 {
                    r = t;
                } else {
                    r = joined(r, ", ", t.as_str());
                    proof { reveal_strlit(", "); }
                }
                i = i + 1;
            }
            assert(selectors@.subrange(0, i as int) =~= selectors@);
            r
        },
        Selector::Combo { selectors } => {
            let mut r = String::new();
            let mut i: usize = 0;
            while i < selectors.len()
                invariant
                    *selector == (Selector::Combo { selectors: *selectors }),
                    i <= selectors@.len(),
                    r@ == combo_text(selectors@.subrange(0, i as int)),
                decreases selectors@.len() - i,
            {
                proof { lemma_member_decreases(*selector, *selectors, i as int); }
                let t = selector_to_string(&selectors[i]);
                assert(selectors@.subrange(0, i + 1).drop_last() =~= selectors@.subrange(0, i as int));
                r.append(t.as_str());
                i = i + 1;
            }
            assert(selectors@.subrange(0, i as int) =~= selectors@);
            r
        },
    }
}

/// The selector rewritten under the context's scope (see `scoped`).
fn stringify_element_selector(selector: &Selector, context: &Context) -> (r: String)
    ensures
        r@ == scoped(*selector, scope_suffix(context.scope@)),
    decreases selector,
{
    let ghost suf = scope_suffix(context.scope@);
    proof {
        reveal_strlit(":not(");
        reveal_strlit(")");
        reveal_strlit(" ");
        reveal_strlit(" > ");
        reveal_strlit(" + ");
        reveal_strlit(" ~ ");
        reveal_strlit(", ");
    }
    let scope_selector = scope_selector(context.scope);
    match selector {
        Selector::AllSelector => scope_selector,
        Selector::Class { .. } | Selector::Id { .. } | Selector::Element { .. } | Selector::Attribute { .. } => {
            selector_to_string(selector).concat(scope_selector.as_str())
        },
        Selector::PseudoElement { .. } | Selector::PseudoParamElement { .. } => {
            let t = selector_to_string(selector);
            scope_selector.concat(t.as_str())
        },
        Selector::Not(inner) => {
            let t = stringify_element_selector(&**inner, context);
            let r = scope_selector.concat(":not(").concat(t.as_str()).concat(")");
            assert(r@ =~= scoped(*selector, suf));
            r
        },
        Selector::Descendent { parent, descendent } => {
            let a = stringify_element_selector(&**parent, context);
            let b = stringify_element_selector(&**descendent, context);
            joined(a, " ", b.as_str())
        },
        Selector::Child { parent, child } => {
            let a = stringify_element_selector(&**parent, context);
            let b = stringify_element_selector(&**child, context);
            joined(a, " > ", b.as_str())
        },
        Selector::Adjacent { selector: s, next_sibling_selector } => {
            let a = stringify_element_selector(&**s, context);
            let b = stringify_element_selector(&**next_sibling_selector, context);
            joined(a, " + ", b.as_str())
        },
        Selector::Sibling { selector: s, sibling_selector } => {
            let a = stringify_element_selector(&**s, context);
            let b = stringify_element_selector(&**sibling_selector, context);
            joined(a, " ~ ", b.as_str())
        },
        Selector::Group { selectors } => {
            let mut r = String::new();
            let mut i: usize = 0;
            while i < selectors.len()
                invariant
                    *selector == (Selector::Group { selectors: *selectors }),
                    i <= selectors@.len(),
                    suf == scope_suffix(context.scope@),
                    r@ == scoped_group(selectors@.subrange(0, i as int), suf),
                decreases selectors@.len() - i,
            {
                proof { lemma_member_decreases(*selector, *selectors, i as int); }
                let t = stringify_element_selector(&selectors[i], context);
                proof { reveal_strlit(", "); }
                assert(selectors@.subrange(0, i + 1).drop_last() =~= selectors@.subrange(0, i as int));
                assert(selectors@.subrange(0, i + 1).last() == selectors@[i as int]);
                if i == 0 {
                    assert(selectors@.subrange(0, 1)[0] == selectors@[0]);
                    r = t;
                } else {
                    r = joined(r, ", ", t.as_str());
                }
                i = i + 1;
            }
            assert(selectors@.subrange(0, i as int) =~= selectors@);
            r
        },
        Selector::Combo { selectors } => {
            let ghost sels = selectors@;
            // the pseudo parts that end the compound come after the scope marker
            let mut k: usize = selectors.len();
            assert(sels.subrange(0, k as int) =~= sels);
            while k > 0 && is_pseudo_exec(&selectors[k - 1])
                invariant
                    k <= sels.len(),
                    sels == selectors@,
                    pseudo_tail_start(sels) == pseudo_tail_start(sels.subrange(0, k as int)),
                decreases k,
            {
                let ghost sub = sels.subrange(0, k as int);
                assert(sub.drop_last() =~= sels.subrange(0, k - 1));
                k = k - 1;
            }
            proof {
                let sub = sels.subrange(0, k as int);
                if k == sels.len() {
                    assert(sub =~= sels);
                }
                lemma_scoped_combo_split(sels, suf);
                lemma_pseudo_tail_start_bounds(sels);
            }
            assert(pseudo_tail_start(sels) == k);
            let mut r = String::new();
            let mut i: usize = 0;
            while i < k
                invariant
                    *selector == (Selector::Combo { selectors: *selectors }),
                    i <= k <= sels.len(),
                    sels == selectors@,
                    r@ == combo_text(sels.subrange(0, i as int)),
                decreases k - i,
            {
                proof { lemma_member_decreases(*selector, *selectors, i as int); }
                let t = selector_to_string(&selectors[i]);
                assert(sels.subrange(0, i + 1).drop_last() =~= sels.subrange(0, i as int));
                r.append(t.as_str());
                i = i + 1;
            }
            r.append(scope_selector.as_str());
            while i < selectors.len()
                invariant
                    *selector == (Selector::Combo { selectors: *selectors }),
                    k <= i <= sels.len(),
                    sels == selectors@,
                    suf == scope_suffix(context.scope@),
                    r@ == combo_text(sels.subrange(0, k as int)) + suf + pseudo_seq_text(sels.subrange(k as int, i as int), suf),
                decreases sels.len() - i,
            {
                proof { lemma_member_decreases(*selector, *selectors, i as int); }
                assert(sels.subrange(k as int, i + 1).drop_last() =~= sels.subrange(k as int, i as int));
                assert(sels.subrange(k as int, i + 1).last() == sels[i as int]);
                proof {
                    reveal_strlit(":not(");
                    reveal_strlit(")");
                }
                let part = match &selectors[i] {
                    Selector::Not(inner) => {
                        assert(decreases_to!(selectors@[i as int] => **inner));
                        assert(decreases_to!(*selector => **inner));
                        let t = stringify_element_selector(&**inner, context);
                        String::from_str(":not(").concat(t.as_str()).concat(")")
                    },
                    other => selector_to_string(other),
                };
                assert(part@ =~= pseudo_text(sels[i as int], suf));
                assert(pseudo_seq_text(sels.subrange(k as int, i + 1), suf)
                    == pseudo_seq_text(sels.subrange(k as int, i as int), suf) + pseudo_text(sels[i as int], suf));
                r.append(part.as_str());
                assert(r@ =~= combo_text(sels.subrange(0, k as int)) + suf + pseudo_seq_text(sels.subrange(k as int, i + 1), suf));
                i = i + 1;
            }
            r
        },
    }
}

proof fn lemma_member_decreases(sel: Selector, v: Vec<Selector>, i: int)
    requires
        sel == (Selector::Group { selectors: v }) || sel == (Selector::Combo { selectors: v }),
        0 <= i < v@.len(),
    ensures
        decreases_to!(sel => v@[i]),
{
    broadcast use vstd::std_specs::vec::axiom_vec_decreases_to_view, vstd::seq::axiom_seq_index_decreases;
    match sel {
        Selector::Group { .. } => assert(decreases_to!(sel => sel->Group_selectors)),
        _ => assert(decreases_to!(sel => sel->Combo_selectors)),
    }
    assert(decreases_to!(v => v@));
    assert(decreases_to!(v@ => v@[i]));
}

fn is_pseudo_exec(sel: &Selector) -> (r: bool)
    ensures
        r == is_pseudo(*sel),
{
    match sel {
        Selector::PseudoElement { .. } | Selector::PseudoParamElement { .. } | Selector::Not(_) => true,
        _ => false,
    }
}

fn attribute_to_string(name: &String, value: &Option<String>) -> (r: String)
    ensures
        r@ == attribute_text(name@, *value),
{
    proof {
        reveal_strlit("[");
        reveal_strlit("=");
        reveal_strlit("]");
    }
    let mut r = String::from_str("[");
    r.append(name.as_str());
    match value {
        Some(v) => {
            r.append("=");
            r.append(v.as_str());
        },
        None => {},
    }
    r.append("]");
    r
}

} // verus!
