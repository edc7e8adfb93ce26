use vstd::prelude::*;
use crate::tokenizer::{Token, ParseError, token_kind, token_end, skip_space, scan_until, lemma_token_end_bounds};
use crate::markup::{Expression, Node, Attribute, AttributeValue};
use crate::css_grammar::{RuleView, rules_view, gram_sheet};

verus! {

/// An attribute as text: its name, and the text between the quotes of its value.
pub type AttrView = (Seq<char>, Option<Seq<char>>);

/// A markup tree as text; a style element is seen through its attributes and
/// the rules of its sheet.
pub enum NodeView {
    Text(Seq<char>),
    Slot(Seq<char>),
    Element(Seq<char>, Seq<AttrView>, Seq<NodeView>),
    Style(Seq<AttrView>, Seq<RuleView>),
    Fragment(Seq<NodeView>),
}

pub open spec fn attr_view(a: Attribute) -> AttrView {
    (a.name@, match a.value {
        Some(v) => match v.item {
            AttributeValue::String(s) => Some(s.value@),
        },
        None => None,
    })
}

pub open spec fn attrs_view(attrs: Seq<Expression<Attribute>>) -> Seq<AttrView> {
    attrs.map_values(|e: Expression<Attribute>| attr_view(e.item))
}

pub open spec fn node_view(n: Node) -> NodeView
    decreases n,
{
    match n {
        Node::Text(s) => NodeView::Text(s@),
        Node::Slot(s) => NodeView::Slot(s@),
        Node::Element(e) => NodeView::Element(e.tag_name@, attrs_view(e.attributes@), children_view(e.children@)),
        Node::StyleElement(e) => NodeView::Style(attrs_view(e.attributes@), rules_view(e.sheet.rules@)),
        Node::Fragment(f) => NodeView::Fragment(children_view(f.children@)),
    }
}

pub open spec fn children_view(cs: Seq<Expression<Node>>) -> Seq<NodeView>
    decreases cs,
{
    if cs.len() == 0 {
        seq![]
    } else {
        children_view(cs.drop_last()).push(node_view(cs.last().item))
    }
}

pub proof fn lemma_children_view_len(cs: Seq<Expression<Node>>)
    ensures
        children_view(cs).len() == cs.len(),
    decreases cs.len(),
{
    if cs.len() > 0 {
        lemma_children_view_len(cs.drop_last());
    }
}

/// `pre` in front of the list that `r` gives.
pub open spec fn prepend<T>(pre: Seq<T>, r: Result<(Seq<T>, int), ParseError>) -> Result<(Seq<T>, int), ParseError> {
    match r {
        Ok((xs, j)) => Ok((pre + xs, j)),
        Err(e) => Err(e),
    }
}

pub proof fn lemma_prepend_push<T>(pre: Seq<T>, a: T, r: Result<(Seq<T>, int), ParseError>)
    ensures
        prepend(pre, prepend(seq![a], r)) == prepend(pre.push(a), r),
{
    if let Ok((xs, j)) = r {
        assert(pre + (seq![a] + xs) =~= pre.push(a) + xs);
    }
}

/// The error for a token that fits nowhere at `i`, or for the end of input.
pub open spec fn fail_at(s: Seq<char>, i: int) -> ParseError {
    if i >= s.len() {
        ParseError::UnexpectedEof
    } else {
        ParseError::UnexpectedToken { position: i as usize }
    }
}

/// A tag or attribute name from `i`: the tokens up to whitespace, `>`, `=` or `/>`.
pub open spec fn gram_name(s: Seq<char>, i: int) -> Result<(Seq<char>, int), ParseError> {
    let n = scan_until(s, i, crate::parser::name_stops());
    if n == i {
        Err(fail_at(s, i))
    } else {
        Ok((s.subrange(i, n), n))
    }
}

/// A quoted string from its opening quote at `i`.
pub open spec fn gram_string(s: Seq<char>, i: int) -> Result<(Seq<char>, int), ParseError> {
    let start = token_end(s, i);
    let e = scan_until(s, start, crate::parser::kind_stops(token_kind(s, i)));
    if e >= s.len() {
        Err(ParseError::UnexpectedEof)
    } else {
        Ok((s.subrange(start, e), token_end(s, e)))
    }
}

pub open spec fn gram_value(s: Seq<char>, i: int) -> Result<(Seq<char>, int), ParseError> {
    match token_kind(s, i) {
        Token::Eof => Err(ParseError::UnexpectedEof),
        Token::SingleQuote | Token::DoubleQuote => gram_string(s, i),
        _ => Err(ParseError::UnexpectedToken { position: i as usize }),
    }
}

/// `name` or `name=<quoted string>`.
pub open spec fn gram_attribute(s: Seq<char>, i: int) -> Result<(AttrView, int), ParseError> {
    match gram_name(s, i) {
        Err(e) => Err(e),
        Ok((name, n)) => match token_kind(s, n) {
            Token::Eof => Err(ParseError::UnexpectedEof),
            Token::Equals => match gram_value(s, token_end(s, n)) {
                Err(e) => Err(e),
                Ok((v, k)) => Ok(((name, Some(v)), k)),
            },
            _ => Ok(((name, None), n)),
        },
    }
}

/// Attributes up to the `>` or `/>` that ends an opening tag (not consumed).
pub open spec fn gram_attributes(s: Seq<char>, i: int) -> Result<(Seq<AttrView>, int), ParseError>
    decreases s.len() - i,
{
    let j = skip_space(s, i);
    match token_kind(s, j) {
        Token::Eof => Err(ParseError::UnexpectedEof),
        Token::SelfCloseTag | Token::GreaterThan => Ok((seq![], j)),
        _ => match gram_attribute(s, j) {
            Err(e) => Err(e),
            Ok((a, k)) => if i < k <= s.len() {
                prepend(seq![a], gram_attributes(s, k))
            } else {
                Err(ParseError::UnexpectedEof)
            },
        },
    }
}

/// `</style` starts at `i`.
pub open spec fn style_close_at(s: Seq<char>, i: int) -> bool {
    &&& token_kind(s, i) == Token::CloseTag
    &&& i + 7 <= s.len()
    &&& s.subrange(i + 2, i + 7) == seq!['s', 't', 'y', 'l', 'e']
}

/// Where the body of a style element that starts at `i` ends: the first `</style`,
/// or the end of input.
pub open spec fn style_body_end(s: Seq<char>, i: int) -> int
    decreases s.len() - i,
    via style_body_end_decreases
{
    if i < 0 || i >= s.len() || style_close_at(s, i) {
        i
    } else {
        style_body_end(s, token_end(s, i))
    }
}

#[via_fn]
proof fn style_body_end_decreases(s: Seq<char>, i: int) {
    if 0 <= i < s.len() {
        lemma_token_end_bounds(s, i);
    }
}

/// After the attributes of `<style`: `>`, the body, `</style>`; the body is a
/// style sheet.
pub open spec fn gram_style(s: Seq<char>, i: int, attrs: Seq<AttrView>) -> Result<(NodeView, int), ParseError> {
    match token_kind(s, i) {
        Token::Eof => Err(ParseError::UnexpectedEof),
        Token::GreaterThan => {
            let end = style_body_end(s, token_end(s, i));
            let p2 = token_end(s, end);
            let close = token_end(s, p2);
            if token_kind(s, end) == Token::Eof || token_kind(s, p2) == Token::Eof
                || token_kind(s, close) == Token::Eof {
                Err(ParseError::UnexpectedEof)
            } else if token_kind(s, close) != Token::GreaterThan {
                Err(ParseError::UnexpectedToken { position: close as usize })
            } else {
                match gram_sheet(s, token_end(s, i), end) {
                    Err(e) => Err(e),
                    Ok(rules) => Ok((NodeView::Style(attrs, rules), token_end(s, close))),
                }
            }
        },
        _ => Err(ParseError::UnexpectedToken { position: i as usize }),
    }
}

pub open spec fn gram_slot(s: Seq<char>, i: int) -> Result<(NodeView, int), ParseError> {
    let e = scan_until(s, i, crate::parser::kind_stops(Token::SlotClose));
    if e >= s.len() {
        Err(ParseError::UnexpectedEof)
    } else {
        Ok((NodeView::Slot(s.subrange(i, e)), token_end(s, e)))
    }
}

/// A node after optional whitespace: a slot, an element, or a run of text.
pub open spec fn gram_node(s: Seq<char>, i: int) -> Result<(NodeView, int), ParseError>
    decreases s.len() - i, 2int,
{
    let p = skip_space(s, i);
    match token_kind(s, p) {
        Token::Eof => Err(ParseError::UnexpectedEof),
        Token::SlotOpen => gram_slot(s, token_end(s, p)),
        Token::LessThan => if i < token_end(s, p) <= s.len() {
            gram_element(s, token_end(s, p))
        } else {
            Err(ParseError::UnexpectedEof)
        },
        _ => {
            let e = scan_until(s, p, crate::parser::text_stops());
            if e == p {
                Err(ParseError::UnexpectedToken { position: p as usize })
            } else {
                Ok((NodeView::Text(s.subrange(p, e)), e))
            }
        },
    }
}

/// An element after its `<`: a tag name, attributes, and the rest.
pub open spec fn gram_element(s: Seq<char>, i: int) -> Result<(NodeView, int), ParseError>
    decreases s.len() - i, 1int,
{
    match gram_name(s, i) {
        Err(e) => Err(e),
        Ok((tag, n)) => match gram_attributes(s, n) {
            Err(e) => Err(e),
            Ok((attrs, m)) => if tag == seq!['s', 't', 'y', 'l', 'e'] {
                gram_style(s, m, attrs)
            } else if i <= m <= s.len() {
                match gram_element_rest(s, m) {
                    Err(e) => Err(e),
                    Ok((cs, e)) => Ok((NodeView::Element(tag, attrs, cs), e)),
                }
            } else {
                Err(ParseError::UnexpectedEof)
            },
        },
    }
}

/// After the attributes: `/>`, or `>`, the children and a closing tag.
pub open spec fn gram_element_rest(s: Seq<char>, i: int) -> Result<(Seq<NodeView>, int), ParseError>
    decreases s.len() - i, 0int,
{
    let j = skip_space(s, i);
    match token_kind(s, j) {
        Token::Eof => Err(ParseError::UnexpectedEof),
        Token::SelfCloseTag => Ok((seq![], token_end(s, j))),
        Token::GreaterThan => {
            let k = skip_space(s, token_end(s, j));
            if i < k <= s.len() {
                match gram_children(s, k) {
                    Err(e) => Err(e),
                    Ok((cs, c)) => match gram_name(s, token_end(s, c)) {
                        Err(e) => Err(e),
                        Ok((_, n)) => match token_kind(s, n) {
                            Token::Eof => Err(ParseError::UnexpectedEof),
                            Token::GreaterThan => Ok((cs, token_end(s, n))),
                            _ => Err(ParseError::UnexpectedToken { position: n as usize }),
                        },
                    },
                }
            } else {
                Err(ParseError::UnexpectedEof)
            }
        },
        _ => Err(ParseError::UnexpectedToken { position: j as usize }),
    }
}

/// Children up to the `</` of the closing tag (not consumed).
pub open spec fn gram_children(s: Seq<char>, i: int) -> Result<(Seq<NodeView>, int), ParseError>
    decreases s.len() - i, 3int,
{
    match token_kind(s, i) {
        Token::Eof => Err(ParseError::UnexpectedEof),
        Token::CloseTag => Ok((seq![], i)),
        _ => match gram_node(s, i) {
            Err(e) => Err(e),
            Ok((v, j)) => {
                let k = skip_space(s, j);
                if i < k <= s.len() {
                    prepend(seq![v], gram_children(s, k))
                } else {
                    Err(ParseError::UnexpectedEof)
                }
            },
        },
    }
}

/// Nodes up to the end of input.
pub open spec fn gram_nodes(s: Seq<char>, i: int) -> Result<(Seq<NodeView>, int), ParseError>
    decreases s.len() - i,
{
    if i >= s.len() {
        Ok((seq![], i))
    } else {
        match gram_node(s, i) {
            Err(e) => Err(e),
            Ok((v, j)) => {
                let k = skip_space(s, j);
                if i < k <= s.len() {
                    prepend(seq![v], gram_nodes(s, k))
                } else {
                    Err(ParseError::UnexpectedEof)
                }
            },
        }
    }
}

/// A whole source: one node, or a fragment of all of them when there is not
/// exactly one.
pub open spec fn gram_source(s: Seq<char>) -> Result<NodeView, ParseError> {
    match gram_nodes(s, 0) {
        Err(e) => Err(e),
        Ok((vs, _)) => Ok(if vs.len() == 1 { vs[0] } else { NodeView::Fragment(vs) }),
    }
}

/// `got`, an outcome of the parser, is what the grammar gives as `want`, with the
/// cursor at `pos`: its value when the grammar succeeds, its error when it fails.
pub open spec fn agrees_exactly<T>(got: Result<T, ParseError>, pos: int, want: Result<(T, int), ParseError>) -> bool {
    match want {
        Ok((v, j)) => got == Ok::<T, ParseError>(v) && pos == j,
        Err(e) => got == Err::<T, ParseError>(e),
    }
}

pub open spec fn node_result(r: Result<Expression<Node>, ParseError>) -> Result<NodeView, ParseError> {
    match r {
        Ok(e) => Ok(node_view(e.item)),
        Err(e) => Err(e),
    }
}

} // verus!
