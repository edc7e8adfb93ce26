use vstd::prelude::*;

verus! {

/// A parsed style sheet.
#[derive(Debug, PartialEq, Eq)]
pub struct Sheet {
    pub rules: Vec<Rule>,
}

#[derive(Debug, PartialEq, Eq)]
pub enum Rule {
    Charset(String),
    Namespace(String),
    FontFamily(FontFamilyRule),
    Media(ConditionRule),
    Style(StyleRule),
    Keyframes(KeyframesRule),
    Supports(ConditionRule),
    Document(ConditionRule),
    Page(ConditionRule),
}

#[derive(Debug, PartialEq, Eq)]
pub struct FontFamilyRule {
    pub declarations: Vec<Declaration>,
}

/// An at-rule with a condition (`@media`, `@supports`, ...) and nested style rules.
#[derive(Debug, PartialEq, Eq)]
pub struct ConditionRule {
    pub name: String,
    pub condition_text: String,
    pub rules: Vec<StyleRule>,
}

#[derive(Debug, PartialEq, Eq)]
pub struct KeyframesRule {
    pub name: String,
    pub rules: Vec<KeyframeRule>,
}

#[derive(Debug, PartialEq, Eq)]
pub struct KeyframeRule {
    pub key: String,
    pub declarations: Vec<Declaration>,
}

#[derive(Debug, PartialEq, Eq)]
pub struct StyleRule {
    pub selector: Selector,
    pub declarations: Vec<Declaration>,
}

#[derive(Debug, PartialEq, Eq)]
pub struct Declaration {
    pub name: String,
    pub value: String,
}

#[derive(Debug, PartialEq, Eq)]
pub enum Selector {
    AllSelector,
    Class { class_name: String },
    Id { id: String },
    Element { tag_name: String },
    PseudoElement { name: String },
    PseudoParamElement { name: String, param: String },
    Attribute { name: String, value: Option<String> },
    Not(Box<Selector>),
    Descendent { parent: Box<Selector>, descendent: Box<Selector> },
    Child { parent: Box<Selector>, child: Box<Selector> },
    Adjacent { selector: Box<Selector>, next_sibling_selector: Box<Selector> },
    Sibling { selector: Box<Selector>, sibling_selector: Box<Selector> },
    Group { selectors: Vec<Selector> },
    Combo { selectors: Vec<Selector> },
}

/// The text of `s` followed by `sep` and `t`.
pub open spec fn join2(s: Seq<char>, sep: Seq<char>, t: Seq<char>) -> Seq<char> {
    s + sep + t
}

/// The source text of a selector, as written.
pub open spec fn selector_text(sel: Selector) -> Seq<char>
    decreases sel,
{
    match sel {
        Selector::AllSelector => seq!['*'],
        Selector::Class { class_name } => seq!['.'] + class_name@,
        Selector::Id { id } => seq!['#'] + id@,
        Selector::Element { tag_name } => tag_name@,
        Selector::PseudoElement { name } => seq![':'] + name@,
        Selector::PseudoParamElement { name, param } => seq![':'] + name@ + seq!['('] + param@ + seq![')'],
        Selector::Attribute { name, value } => attribute_text(name@, value),
        Selector::Not(inner) => seq![':', 'n', 'o', 't', '('] + selector_text(*inner) + seq![')'],
        Selector::Descendent { parent, descendent } => join2(selector_text(*parent), seq![' '], selector_text(*descendent)),
        Selector::Child { parent, child } => join2(selector_text(*parent), seq![' ', '>', ' '], selector_text(*child)),
        Selector::Adjacent { selector, next_sibling_selector } => join2(selector_text(*selector), seq![' ', '+', ' '], selector_text(*next_sibling_selector)),
        Selector::Sibling { selector, sibling_selector } => join2(selector_text(*selector), seq![' ', '~', ' '], selector_text(*sibling_selector)),
        Selector::Group { selectors } => group_text(selectors@),
        Selector::Combo { selectors } => combo_text(selectors@),
    }
}

pub open spec fn attribute_text(name: Seq<char>, value: Option<String>) -> Seq<char> {
    match value {
        Some(v) => seq!['['] + name + seq!['='] + v@ + seq![']'],
        None => seq!['['] + name + seq![']'],
    }
}

/// The members' texts joined by `", "`.
pub open spec fn group_text(sels: Seq<Selector>) -> Seq<char>
    decreases sels,
{
    if sels.len() == 0 {
        seq![]
    } else if sels.len() == 1 {
        selector_text(sels[0])
    } else {
        join2(group_text(sels.drop_last()), seq![',', ' '], selector_text(sels.last()))
    }
}

/// The members' texts side by side.
pub open spec fn combo_text(sels: Seq<Selector>) -> Seq<char>
    decreases sels,
{
    if sels.len() == 0 {
        seq![]
    } else {
        combo_text(sels.drop_last()) + selector_text(sels.last())
    }
}

} // verus!
