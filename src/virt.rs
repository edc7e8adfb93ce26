use vstd::prelude::*;

verus! {

/// An evaluated style sheet whose selectors are scope-qualified text.
#[derive(Debug, PartialEq, Eq)]
pub struct CSSSheet {
    pub rules: Vec<CSSRule>,
}

#[derive(Debug, PartialEq, Eq)]
pub enum CSSRule {
    CSSCharset(String),
    CSSNamespace(String),
    FontFamily(FontFamilyRule),
    Media(ConditionRule),
    CSSStyleRule(CSSStyleRule),
    Keyframes(KeyframesRule),
    Supports(ConditionRule),
    Document(ConditionRule),
    Page(ConditionRule),
}

#[derive(Debug, PartialEq, Eq)]
pub struct FontFamilyRule {
    pub style: Vec<CSSStyleProperty>,
}

#[derive(Debug, PartialEq, Eq)]
pub struct ConditionRule {
    pub name: String,
    pub condition_text: String,
    pub rules: Vec<CSSStyleRule>,
}

#[derive(Debug, PartialEq, Eq)]
pub struct KeyframesRule {
    pub name: String,
    pub rules: Vec<KeyframeRule>,
}

#[derive(Debug, PartialEq, Eq)]
pub struct KeyframeRule {
    pub key: String,
    pub style: Vec<CSSStyleProperty>,
}

#[derive(Debug, PartialEq, Eq)]
pub struct CSSStyleRule {
    pub selector_text: String,
    pub style: Vec<CSSStyleProperty>,
}

#[derive(Debug, PartialEq, Eq)]
pub struct CSSStyleProperty {
    pub name: String,
    pub value: String,
}

} // verus!
