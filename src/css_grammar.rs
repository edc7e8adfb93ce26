use vstd::prelude::*;
use crate::css_ast::{Selector, Declaration, Rule, StyleRule};
use crate::tokenizer::{ParseError, is_space};
use crate::css_parser::is_name_char;
use crate::grammar::prepend;

verus! {

/// A selector as text.
pub enum SelView {
    All,
    Class(Seq<char>),
    Id(Seq<char>),
    Element(Seq<char>),
    Pseudo(Seq<char>),
    PseudoParam(Seq<char>, Seq<char>),
    Attribute(Seq<char>, Option<Seq<char>>),
    Not(Box<SelView>),
    Descendent(Box<SelView>, Box<SelView>),
    Child(Box<SelView>, Box<SelView>),
    Adjacent(Box<SelView>, Box<SelView>),
    Sibling(Box<SelView>, Box<SelView>),
    Group(Seq<SelView>),
    Combo(Seq<SelView>),
}

/// A declaration as text: its name and its value.
pub type DeclView = (Seq<char>, Seq<char>);

/// A style rule as text: its selector and its declarations.
pub type RuleView = (SelView, Seq<DeclView>);

pub open spec fn sel_view(s: Selector) -> SelView
    decreases s,
{
    match s {
        Selector::AllSelector => SelView::All,
        Selector::Class { class_name } => SelView::Class(class_name@),
        Selector::Id { id } => SelView::Id(id@),
        Selector::Element { tag_name } => SelView::Element(tag_name@),
        Selector::PseudoElement { name } => SelView::Pseudo(name@),
        Selector::PseudoParamElement { name, param } => SelView::PseudoParam(name@, param@),
        Selector::Attribute { name, value } => SelView::Attribute(name@, match value {
            Some(v) => Some(v@),
            None => None,
        }),
        Selector::Not(inner) => SelView::Not(Box::new(sel_view(*inner))),
        Selector::Descendent { parent, descendent } => SelView::Descendent(Box::new(sel_view(*parent)), Box::new(sel_view(*descendent))),
        Selector::Child { parent, child } => SelView::Child(Box::new(sel_view(*parent)), Box::new(sel_view(*child))),
        Selector::Adjacent { selector, next_sibling_selector } => SelView::Adjacent(Box::new(sel_view(*selector)), Box::new(sel_view(*next_sibling_selector))),
        Selector::Sibling { selector, sibling_selector } => SelView::Sibling(Box::new(sel_view(*selector)), Box::new(sel_view(*sibling_selector))),
        Selector::Group { selectors } => SelView::Group(sels_view(selectors@)),
        Selector::Combo { selectors } => SelView::Combo(sels_view(selectors@)),
    }
}

pub open spec fn sels_view(ss: Seq<Selector>) -> Seq<SelView>
    decreases ss,
{
    if ss.len() == 0 {
        seq![]
    } else {
        sels_view(ss.drop_last()).push(sel_view(ss.last()))
    }
}

pub open spec fn decls_view(ds: Seq<Declaration>) -> Seq<DeclView> {
    ds.map_values(|d: Declaration| (d.name@, d.value@))
}

/// The view of a sheet's rules; a rule other than a style rule has no view in
/// this grammar and stands as an empty one.
pub open spec fn rules_view(rs: Seq<Rule>) -> Seq<RuleView> {
    rs.map_values(|r: Rule| match r {
        Rule::Style(s) => (sel_view(s.selector), decls_view(s.declarations@)),
        _ => (SelView::All, seq![]),
    })
}

pub open spec fn ch(s: Seq<char>, i: int, hi: int, c: char) -> bool {
    i < hi && s[i] == c
}

pub open spec fn unexpected_at(i: int, hi: int) -> ParseError {
    if i >= hi {
        ParseError::UnexpectedEof
    } else {
        ParseError::UnexpectedToken { position: i as usize }
    }
}

/// The first position at or after `i` before `hi` that is not whitespace.
pub open spec fn ws_end(s: Seq<char>, i: int, hi: int) -> int
    decreases hi - i,
{
    if i >= hi || !is_space(s[i]) { i } else { ws_end(s, i + 1, hi) }
}

/// The end of the run of name characters from `i`.
pub open spec fn name_run_end(s: Seq<char>, i: int, hi: int) -> int
    decreases hi - i,
{
    if i >= hi || !is_name_char(s[i]) { i } else { name_run_end(s, i + 1, hi) }
}

/// The first position at or after `i` that holds `c`, or `hi`.
pub open spec fn find(s: Seq<char>, i: int, hi: int, c: char) -> int
    decreases hi - i,
{
    if i >= hi || s[i] == c { i } else { find(s, i + 1, hi, c) }
}

/// The first position at or after `i` that holds `;` or `}`, or `hi`.
pub open spec fn value_end(s: Seq<char>, i: int, hi: int) -> int
    decreases hi - i,
{
    if i >= hi || s[i] == ';' || s[i] == '}' { i } else { value_end(s, i + 1, hi) }
}

/// `e` moved back over the whitespace that ends the text from `lo`.
pub open spec fn trim_end(s: Seq<char>, lo: int, e: int) -> int
    decreases e - lo,
{
    if e > lo && is_space(s[e - 1]) { trim_end(s, lo, e - 1) } else { e }
}

pub proof fn lemma_scans(s: Seq<char>, i: int, hi: int, c: char)
    requires
        i <= hi,
    ensures
        i <= ws_end(s, i, hi) <= hi,
        i <= name_run_end(s, i, hi) <= hi,
        i <= find(s, i, hi, c) <= hi,
        i <= value_end(s, i, hi) <= hi,
    decreases hi - i,
{
    if i < hi {
        lemma_scans(s, i + 1, hi, c);
    }
}

/// Selectors separated by commas.
pub open spec fn gram_group(s: Seq<char>, i: int, hi: int) -> Result<(SelView, int), ParseError>
    decreases hi - i, 3int,
{
    match gram_complex(s, i, hi) {
        Err(e) => Err(e),
        Ok((first, j)) => if !ch(s, j, hi, ',') {
            Ok((first, j))
        } else if i < j <= hi {
            match gram_group_more(s, j, hi) {
                Err(e) => Err(e),
                Ok((rest, k)) => Ok((SelView::Group(seq![first] + rest), k)),
            }
        } else {
            Err(ParseError::UnexpectedEof)
        },
    }
}

/// `, selector` parts from `j` on.
pub open spec fn gram_group_more(s: Seq<char>, j: int, hi: int) -> Result<(Seq<SelView>, int), ParseError>
    decreases hi - j, 3int,
{
    if !ch(s, j, hi, ',') {
        Ok((seq![], j))
    } else if j < hi {
        match gram_complex(s, j + 1, hi) {
            Err(e) => Err(e),
            Ok((next, k)) => if j < k <= hi {
                prepend(seq![next], gram_group_more(s, k, hi))
            } else {
                Err(ParseError::UnexpectedEof)
            },
        }
    } else {
        Err(ParseError::UnexpectedEof)
    }
}

/// Compounds joined by combinators.
pub open spec fn gram_complex(s: Seq<char>, i: int, hi: int) -> Result<(SelView, int), ParseError>
    decreases hi - i, 2int,
{
    let start = ws_end(s, i, hi);
    if i <= start <= hi {
        match gram_compound(s, start, hi) {
            Err(e) => Err(e),
            Ok((left, j)) => if i < j <= hi { gram_complex_rest(s, left, j, hi) } else { Err(ParseError::UnexpectedEof) },
        }
    } else {
        Err(ParseError::UnexpectedEof)
    }
}

/// The combinators and compounds after `left`, which ends at `j`.
pub open spec fn gram_complex_rest(s: Seq<char>, left: SelView, j: int, hi: int) -> Result<(SelView, int), ParseError>
    decreases hi - j, 2int,
{
    let k = ws_end(s, j, hi);
    if k >= hi || s[k] == ',' || s[k] == ')' || s[k] == '{' {
        Ok((left, k))
    } else if !(j <= k < hi) {
        Err(ParseError::UnexpectedEof)
    } else if s[k] == '>' || s[k] == '+' || s[k] == '~' {
        let m = ws_end(s, k + 1, hi);
        if j < m <= hi {
            match gram_compound(s, m, hi) {
                Err(e) => Err(e),
                Ok((right, e)) => {
                    let joined = if s[k] == '>' {
                        SelView::Child(Box::new(left), Box::new(right))
                    } else if s[k] == '+' {
                        SelView::Adjacent(Box::new(left), Box::new(right))
                    } else {
                        SelView::Sibling(Box::new(left), Box::new(right))
                    };
                    if j < e <= hi { gram_complex_rest(s, joined, e, hi) } else { Err(ParseError::UnexpectedEof) }
                },
            }
        } else {
            Err(ParseError::UnexpectedEof)
        }
    } else if k > j {
        match gram_compound(s, k, hi) {
            Err(e) => Err(e),
            Ok((right, e)) => if j < e <= hi {
                gram_complex_rest(s, SelView::Descendent(Box::new(left), Box::new(right)), e, hi)
            } else {
                Err(ParseError::UnexpectedEof)
            },
        }
    } else {
        Err(unexpected_at(k, hi))
    }
}

/// Simple selectors and pseudo parts with no combinator: one alone, or a compound.
pub open spec fn gram_compound(s: Seq<char>, i: int, hi: int) -> Result<(SelView, int), ParseError>
    decreases hi - i, 1int,
{
    match gram_parts(s, i, hi) {
        Err(e) => Err(e),
        Ok((ps, j)) => if ps.len() == 0 {
            Err(unexpected_at(j, hi))
        } else if ps.len() == 1 {
            Ok((ps[0], j))
        } else {
            Ok((SelView::Combo(ps), j))
        },
    }
}

/// The parts of a compound from `j` on.
pub open spec fn gram_parts(s: Seq<char>, j: int, hi: int) -> Result<(Seq<SelView>, int), ParseError>
    decreases hi - j, 0int,
{
    if j >= hi {
        Ok((seq![], j))
    } else {
        let c = s[j];
        if c == '*' {
            prepend(seq![SelView::All], gram_parts(s, j + 1, hi))
        } else if c == '.' || c == '#' {
            let e = name_run_end(s, j + 1, hi);
            if e == j + 1 {
                Err(unexpected_at(e, hi))
            } else if j < e <= hi {
                let name = s.subrange(j + 1, e);
                prepend(seq![if c == '.' { SelView::Class(name) } else { SelView::Id(name) }], gram_parts(s, e, hi))
            } else {
                Err(ParseError::UnexpectedEof)
            }
        } else if c == '[' {
            let e = name_run_end(s, j + 1, hi);
            let close = find(s, e, hi, ']');
            if e == j + 1 {
                Err(unexpected_at(e, hi))
            } else if close >= hi {
                Err(ParseError::UnexpectedEof)
            } else if s[e] != '=' && e != close {
                Err(unexpected_at(e, hi))
            } else if j < close + 1 <= hi {
                let value = if s[e] == '=' { Some(s.subrange(e + 1, close)) } else { None };
                prepend(seq![SelView::Attribute(s.subrange(j + 1, e), value)], gram_parts(s, close + 1, hi))
            } else {
                Err(ParseError::UnexpectedEof)
            }
        } else if c == ':' {
            let ns = if ch(s, j + 1, hi, ':') { j + 2 } else { j + 1 };
            let e = name_run_end(s, ns, hi);
            if e == ns {
                Err(unexpected_at(e, hi))
            } else if !(j < e <= hi) {
                Err(ParseError::UnexpectedEof)
            } else if ch(s, e, hi, '(') {
                if e - j == 4 && s[j + 1] == 'n' && s[j + 2] == 'o' && s[j + 3] == 't' {
                    match gram_group(s, e + 1, hi) {
                        Err(err) => Err(err),
                        Ok((inner, k)) => if !ch(s, k, hi, ')') {
                            Err(unexpected_at(k, hi))
                        } else if j < k + 1 <= hi {
                            prepend(seq![SelView::Not(Box::new(inner))], gram_parts(s, k + 1, hi))
                        } else {
                            Err(ParseError::UnexpectedEof)
                        },
                    }
                } else {
                    let close = find(s, e + 1, hi, ')');
                    if close >= hi {
                        Err(ParseError::UnexpectedEof)
                    } else if j < close + 1 <= hi {
                        prepend(seq![SelView::PseudoParam(s.subrange(j + 1, e), s.subrange(e + 1, close))],
                            gram_parts(s, close + 1, hi))
                    } else {
                        Err(ParseError::UnexpectedEof)
                    }
                }
            } else {
                prepend(seq![SelView::Pseudo(s.subrange(j + 1, e))], gram_parts(s, e, hi))
            }
        } else if is_name_char(c) {
            let e = name_run_end(s, j, hi);
            if j < e <= hi {
                prepend(seq![SelView::Element(s.subrange(j, e))], gram_parts(s, e, hi))
            } else {
                Err(ParseError::UnexpectedEof)
            }
        } else {
            Ok((seq![], j))
        }
    }
}

/// `name: value;` pairs from `j`, up to and including the closing `}`.
pub open spec fn gram_declarations(s: Seq<char>, j0: int, hi: int) -> Result<(Seq<DeclView>, int), ParseError>
    decreases hi - j0,
{
    let j = ws_end(s, j0, hi);
    if j >= hi {
        Err(ParseError::UnexpectedEof)
    } else if s[j] == '}' {
        Ok((seq![], j + 1))
    } else {
        let e = name_run_end(s, j, hi);
        let colon = ws_end(s, e, hi);
        let vstart = ws_end(s, colon + 1, hi);
        let vend = value_end(s, vstart, hi);
        if e == j {
            Err(unexpected_at(j, hi))
        } else if !ch(s, colon, hi, ':') {
            Err(unexpected_at(colon, hi))
        } else if vend >= hi {
            Err(ParseError::UnexpectedEof)
        } else {
            let next = if s[vend] == ';' { vend + 1 } else { vend };
            if j0 < next <= hi {
                prepend(seq![(s.subrange(j, e), s.subrange(vstart, trim_end(s, vstart, vend)))],
                    gram_declarations(s, next, hi))
            } else {
                Err(ParseError::UnexpectedEof)
            }
        }
    }
}

/// Style rules from `j` up to `hi`.
pub open spec fn gram_rules(s: Seq<char>, j: int, hi: int) -> Result<(Seq<RuleView>, int), ParseError>
    decreases hi - j,
{
    if j >= hi {
        Ok((seq![], j))
    } else {
        match gram_group(s, j, hi) {
            Err(e) => Err(e),
            Ok((sel, k)) => if !ch(s, k, hi, '{') {
                Err(unexpected_at(k, hi))
            } else {
                match gram_declarations(s, k + 1, hi) {
                    Err(e) => Err(e),
                    Ok((ds, e)) => {
                        let next = ws_end(s, e, hi);
                        if j < next <= hi {
                            prepend(seq![(sel, ds)], gram_rules(s, next, hi))
                        } else {
                            Err(ParseError::UnexpectedEof)
                        }
                    },
                }
            },
        }
    }
}

/// The style sheet written between `lo` and `hi`.
pub open spec fn gram_sheet(s: Seq<char>, lo: int, hi: int) -> Result<Seq<RuleView>, ParseError> {
    match gram_rules(s, ws_end(s, lo, hi), hi) {
        Err(e) => Err(e),
        Ok((rs, _)) => Ok(rs),
    }
}

} // verus!
