use vstd::prelude::*;
use crate::markup::{Expression, Node, Element, StyleElement, Fragment, Attribute, AttributeValue, Str, node_wf, children_wf, attributes_wf};
use crate::tokenizer::{Tokenizer, Token, ParseError, token_kind, token_end, scan_until, skip_space};
use crate::css_parser::parse_sheet;
use crate::render::node_source;
use crate::grammar::{
    NodeView, AttrView, attr_view, attrs_view, node_view, children_view, prepend,
    lemma_prepend_push, gram_name, gram_string, gram_value, gram_attribute, gram_attributes, style_close_at,
    style_body_end, gram_style, gram_slot, gram_node, gram_element, gram_element_rest, gram_children, gram_nodes,
    gram_source, lemma_children_view_len, agrees_exactly, node_result,
};

verus! {

/// The cursor moved over the same text and did not go back.
pub open spec fn advanced(a: Tokenizer, b: Tokenizer) -> bool {
    &&& b.wf()
    &&& b.source == a.source
    &&& b.chars == a.chars
    &&& a.pos <= b.pos
}

/// A name ends at whitespace, `>`, `=` or `/>`.
pub open spec fn ends_name(k: Token) -> bool {
    k == Token::Whitespace || k == Token::GreaterThan || k == Token::Equals || k == Token::SelfCloseTag
}

/// Tokens that end a name.
pub open spec fn name_stops() -> spec_fn(Token) -> bool {
    |k: Token| ends_name(k)
}

/// Tokens that end a run of text: the start of a slot, of an element, or of a
/// closing tag.
pub open spec fn text_stops() -> spec_fn(Token) -> bool {
    |k: Token| k == Token::SlotOpen || k == Token::LessThan || k == Token::CloseTag
}

/// The token `k` alone.
pub open spec fn kind_stops(k: Token) -> spec_fn(Token) -> bool {
    |t: Token| t == k
}

pub open spec fn str_result(r: Result<&str, ParseError>) -> Result<Seq<char>, ParseError> {
    match r {
        Ok(x) => Ok(x@),
        Err(e) => Err(e),
    }
}

pub open spec fn value_result(r: Result<Expression<AttributeValue>, ParseError>) -> Result<Seq<char>, ParseError> {
    match r {
        Ok(e) => match e.item {
            AttributeValue::String(s) => Ok(s.value@),
        },
        Err(e) => Err(e),
    }
}

pub open spec fn attribute_result(r: Result<Expression<Attribute>, ParseError>) -> Result<AttrView, ParseError> {
    match r {
        Ok(e) => Ok(attr_view(e.item)),
        Err(e) => Err(e),
    }
}

pub open spec fn attributes_result(r: Result<Vec<Expression<Attribute>>, ParseError>) -> Result<Seq<AttrView>, ParseError> {
    match r {
        Ok(v) => Ok(attrs_view(v@)),
        Err(e) => Err(e),
    }
}

/// The children of an element that the parser returned.
pub open spec fn children_result(r: Result<Expression<Node>, ParseError>) -> Result<Seq<NodeView>, ParseError> {
    match r {
        Ok(e) => match e.item {
            Node::Element(el) => Ok(children_view(el.children@)),
            _ => Ok(seq![]),
        },
        Err(e) => Err(e),
    }
}

/// What `parse` returns is what the grammar gives for the source: its tree, or
/// its error.
pub open spec fn source_agrees(r: Result<Expression<Node>, ParseError>, s: Seq<char>) -> bool {
    match gram_source(s) {
        Ok(v) => r matches Ok(e) && node_view(e.item) == v,
        Err(x) => r == Err::<Expression<Node>, ParseError>(x),
    }
}

/// Parses markup: one node, or a fragment of the nodes when there are several.
pub fn parse<'a>(str: &'a str) -> (r: Result<Expression<Node<'a>>, ParseError>)
    ensures
        source_agrees(r, str@),
        r matches Ok(e) ==> node_wf(e.item),
        r matches Err(ParseError::UnexpectedToken { position }) ==> position < str@.len(),
{
    let mut tokenizer = Tokenizer::new(str);
    parse_fragment(&mut tokenizer)
}

fn parse_fragment<'a>(tokenizer: &mut Tokenizer<'a>) -> (r: Result<Expression<Node<'a>>, ParseError>)
    requires
        old(tokenizer).wf(),
    ensures
        advanced(*old(tokenizer), *final(tokenizer)),
        old(tokenizer).pos == 0 ==> source_agrees(r, old(tokenizer).text()),
        r matches Ok(e) ==> node_wf(e.item),
        r matches Err(ParseError::UnexpectedToken { position }) ==> position < old(tokenizer).text().len(),
{
    let mut children: Vec<Expression<Node<'a>>> = Vec::new();
    let ghost start = *tokenizer;
    while !tokenizer.is_eof()
        invariant
            start == *old(tokenizer),
            advanced(start, *tokenizer),
            children_wf(children@),
            gram_nodes(start.text(), start.pos as int)
                == prepend(children_view(children@), gram_nodes(start.text(), tokenizer.pos as int)),
        decreases tokenizer.text().len() - tokenizer.pos,
    {
        let ghost top = tokenizer.pos as int;
        let node = parse_node(tokenizer)?;
        let ghost before = children@;
        proof {
            lemma_prepend_push(children_view(before), node_view(node.item),
                gram_nodes(start.text(), skip_space(start.text(), tokenizer.pos as int)));
        }
        children.push(node);
        assert(children@.drop_last() =~= before);
        assert(children_view(children@) == children_view(before).push(node_view(node.item)));
        tokenizer.eat_whitespace();
    }
    assert(children_view(children@) + seq![] =~= children_view(children@));
    assert(gram_nodes(start.text(), tokenizer.pos as int) == Ok::<(Seq<NodeView>, int), ParseError>((seq![], tokenizer.pos as int)));
    assert(gram_nodes(start.text(), start.pos as int) == Ok::<(Seq<NodeView>, int), ParseError>((children_view(children@), tokenizer.pos as int)));
    proof { lemma_children_view_len(children@); }
    if children.len() == 1 {
        let ghost cs = children@;
        assert(cs.drop_last().len() == 0);
        assert(children_view(cs) == children_view(cs.drop_last()).push(node_view(cs.last().item)));
        let only = children.pop().unwrap();
        assert(only == cs.last());
        Ok(only)
    } else {
        Ok(Expression { item: Node::Fragment(Fragment { children }) })
    }
}

/// A slot, an element, or a run of text.
pub fn parse_node<'a>(tokenizer: &mut Tokenizer<'a>) -> (r: Result<Expression<Node<'a>>, ParseError>)
    requires
        old(tokenizer).wf(),
    ensures
        advanced(*old(tokenizer), *final(tokenizer)),
        agrees_exactly(node_result(r), final(tokenizer).pos as int, gram_node(old(tokenizer).text(), old(tokenizer).pos as int)),
        r matches Ok(e) ==> node_wf(e.item),
        r matches Err(ParseError::UnexpectedToken { position }) ==> position < old(tokenizer).text().len(),
        r is Ok ==> old(tokenizer).pos < final(tokenizer).pos,
        r matches Ok(e) ==> (e.item matches Node::Text(s) ==> ({
            let p = skip_space(old(tokenizer).text(), old(tokenizer).pos as int);
            &&& final(tokenizer).pos == scan_until(old(tokenizer).text(), p, text_stops())
            &&& s@ == old(tokenizer).text().subrange(p, final(tokenizer).pos as int)
        })),
        r matches Ok(e) ==> ((e.item is Text || e.item is Slot) ==> node_source(e.item)
            == old(tokenizer).text().subrange(skip_space(old(tokenizer).text(), old(tokenizer).pos as int), final(tokenizer).pos as int)),
    decreases old(tokenizer).text().len() - old(tokenizer).pos, 2nat,
{
    tokenizer.eat_whitespace();
    let pos = tokenizer.pos;
    let token = tokenizer.next()?;
    match token {
        Token::SlotOpen => {
            let r = parse_slot(tokenizer);
            proof {
                if r is Ok {
                    let e = r->Ok_0;
                    let text = tokenizer.text();
                    let end = tokenizer.pos as int;
                    reveal_strlit("{{");
                    assert(text[pos as int] == '{' && text[pos + 1] == '{');
                    assert(text[end - 2] == '}' && text[end - 1] == '}');
                    assert(node_source(e.item) =~= text.subrange(pos as int, end));
                }
            }
            r
        },
        Token::LessThan => parse_element(tokenizer),
        _ => {
            tokenizer.pos = pos;
            while !stops_text(tokenizer.current_kind())
                invariant
                    advanced(*old(tokenizer), *tokenizer),
                    pos <= tokenizer.pos,
                    scan_until(tokenizer.text(), pos as int, text_stops())
                        == scan_until(tokenizer.text(), tokenizer.pos as int, text_stops()),
                decreases tokenizer.text().len() - tokenizer.pos,
            {
                let _ = tokenizer.next();
            }
            if tokenizer.pos == pos {
                return Err(ParseError::UnexpectedToken { position: pos });
            }
            Ok(Expression { item: Node::Text(tokenizer.slice(pos, tokenizer.pos)) })
        },
    }
}

/// A text run ends where a slot, an element or a closing tag starts.
fn stops_text(k: Token) -> (r: bool)
    ensures
        r == (k == Token::SlotOpen || k == Token::LessThan || k == Token::CloseTag || k == Token::Eof),
{
    k == Token::SlotOpen || k == Token::LessThan || k == Token::CloseTag || k == Token::Eof
}

/// The body of a slot after its `{{`, up to and including `}}`.
fn parse_slot<'a>(tokenizer: &mut Tokenizer<'a>) -> (r: Result<Expression<Node<'a>>, ParseError>)
    requires
        old(tokenizer).wf(),
    ensures
        advanced(*old(tokenizer), *final(tokenizer)),
        agrees_exactly(node_result(r), final(tokenizer).pos as int, gram_slot(old(tokenizer).text(), old(tokenizer).pos as int)),
        r matches Err(ParseError::UnexpectedToken { position }) ==> position < old(tokenizer).text().len(),
        r is Ok ==> old(tokenizer).pos < final(tokenizer).pos,
        r matches Ok(e) ==> e.item matches Node::Slot(script)
            && final(tokenizer).pos >= old(tokenizer).pos + 2
            && final(tokenizer).pos - 2 == scan_until(old(tokenizer).text(), old(tokenizer).pos as int, kind_stops(Token::SlotClose))
            && script@ == old(tokenizer).text().subrange(old(tokenizer).pos as int, final(tokenizer).pos - 2)
            && token_kind(old(tokenizer).text(), final(tokenizer).pos - 2) == Token::SlotClose,
{
    let start = tokenizer.pos;
    while !tokenizer.is_eof() && tokenizer.current_kind() != Token::SlotClose
        invariant
            advanced(*old(tokenizer), *tokenizer),
            start == old(tokenizer).pos,
            scan_until(tokenizer.text(), start as int, kind_stops(Token::SlotClose))
                == scan_until(tokenizer.text(), tokenizer.pos as int, kind_stops(Token::SlotClose)),
        decreases tokenizer.text().len() - tokenizer.pos,
    {
        let _ = tokenizer.next();
    }
    let end = tokenizer.pos;
    let script = tokenizer.slice(start, end);
    tokenizer.next()?;
    Ok(Expression { item: Node::Slot(script) })
}

/// An element after its `<`.
pub fn parse_element<'a>(tokenizer: &mut Tokenizer<'a>) -> (r: Result<Expression<Node<'a>>, ParseError>)
    requires
        old(tokenizer).wf(),
    ensures
        advanced(*old(tokenizer), *final(tokenizer)),
        agrees_exactly(node_result(r), final(tokenizer).pos as int, gram_element(old(tokenizer).text(), old(tokenizer).pos as int)),
        r matches Ok(e) ==> e.item is Element || e.item is StyleElement,
        r matches Ok(e) ==> (e.item matches Node::Element(el) ==> el.tag_name@ == old(tokenizer).text().subrange(
            old(tokenizer).pos as int, scan_until(old(tokenizer).text(), old(tokenizer).pos as int, name_stops()))),
        r matches Ok(e) ==> node_wf(e.item),
        r matches Err(ParseError::UnexpectedToken { position }) ==> position < old(tokenizer).text().len(),
        r is Ok ==> old(tokenizer).pos < final(tokenizer).pos,
    decreases old(tokenizer).text().len() - old(tokenizer).pos, 1nat,
{
    let start = tokenizer.pos;
    let tag_name = parse_tag_name(tokenizer)?;
    let end = tokenizer.pos;
    let attributes = parse_attributes(tokenizer)?;
    assert(tag_name@.len() > 0);
    assert(gram_name(tokenizer.text(), start as int) == Ok::<(Seq<char>, int), ParseError>((tag_name@, end as int)));
    assert(gram_attributes(tokenizer.text(), end as int) == Ok::<(Seq<AttrView>, int), ParseError>((attrs_view(attributes@), tokenizer.pos as int)));
    let ghost s = tokenizer.text();
    let ghost m = tokenizer.pos as int;
    let ghost av = attrs_view(attributes@);
    if is_style(tokenizer, start, end) {
        assert(gram_element(s, start as int) == gram_style(s, m, av));
        parse_next_style_element_parts(attributes, tokenizer)
    } else {
        assert(gram_element(s, start as int) == match gram_element_rest(s, m) {
            Err(e) => Err(e),
            Ok((cs, e)) => Ok((NodeView::Element(tag_name@, av, cs), e)),
        });
        parse_next_basic_element_parts(tag_name, attributes, tokenizer)
    }
}

/// The text between `from` and `to` is `style`.
fn is_style(tokenizer: &Tokenizer, from: usize, to: usize) -> (r: bool)
    requires
        tokenizer.wf(),
        from <= to <= tokenizer.text().len(),
    ensures
        r == (tokenizer.text().subrange(from as int, to as int) == seq!['s', 't', 'y', 'l', 'e']),
{
    if to - from != 5 {
        proof {
            assert(tokenizer.text().subrange(from as int, to as int).len() != 5);
        }
        return false;
    }
    let c = &tokenizer.chars;
    let r = c[from] == 's' && c[from + 1] == 't' && c[from + 2] == 'y' && c[from + 3] == 'l' && c[from + 4] == 'e';
    proof {
        let s = tokenizer.text().subrange(from as int, to as int);
        if r {
            assert(s =~= seq!['s', 't', 'y', 'l', 'e']);
        } else {
            assert(s[0] != 's' || s[1] != 't' || s[2] != 'y' || s[3] != 'l' || s[4] != 'e');
        }
    }
    r
}

fn parse_next_basic_element_parts<'a>(
    tag_name: &'a str,
    attributes: Vec<Expression<Attribute<'a>>>,
    tokenizer: &mut Tokenizer<'a>,
) -> (r: Result<Expression<Node<'a>>, ParseError>)
    requires
        old(tokenizer).wf(),
    ensures
        advanced(*old(tokenizer), *final(tokenizer)),
        agrees_exactly(children_result(r), final(tokenizer).pos as int, gram_element_rest(old(tokenizer).text(), old(tokenizer).pos as int)),
        r matches Err(ParseError::UnexpectedToken { position }) ==> position < old(tokenizer).text().len(),
        r is Ok ==> old(tokenizer).pos < final(tokenizer).pos,
        r matches Ok(e) ==> e.item matches Node::Element(el) && el.tag_name == tag_name && el.attributes == attributes
            && children_wf(el.children@)
            && (token_kind(old(tokenizer).text(), skip_space(old(tokenizer).text(), old(tokenizer).pos as int))
                == Token::SelfCloseTag ==> el.children@.len() == 0),
    decreases old(tokenizer).text().len() - old(tokenizer).pos, 0nat,
{
    let mut children: Vec<Expression<Node<'a>>> = Vec::new();
    tokenizer.eat_whitespace();
    let pos = tokenizer.pos;
    match tokenizer.next()? {
        Token::SelfCloseTag => {},
        Token::GreaterThan => {
            tokenizer.eat_whitespace();
            let ghost k0 = tokenizer.pos as int;
            let ghost s = tokenizer.text();
            while tokenizer.peek(1)? != Token::CloseTag
                invariant
                    advanced(*old(tokenizer), *tokenizer),
                    s == old(tokenizer).text(),
                    old(tokenizer).pos < k0 <= tokenizer.pos,
                    token_kind(s, skip_space(s, old(tokenizer).pos as int)) == Token::GreaterThan,
                    k0 == skip_space(s, token_end(s, skip_space(s, old(tokenizer).pos as int))),
                    children_wf(children@),
                    gram_children(s, k0) == prepend(children_view(children@), gram_children(s, tokenizer.pos as int)),
                decreases tokenizer.text().len() - tokenizer.pos,
            {
                let ghost top = tokenizer.pos as int;
                let child = parse_node(tokenizer)?;
                let ghost before = children@;
                proof {
                    lemma_prepend_push(children_view(before), node_view(child.item),
                        gram_children(s, skip_space(s, tokenizer.pos as int)));
                }
                children.push(child);
                assert(children@.drop_last() =~= before);
                assert(children_view(children@) == children_view(before).push(node_view(child.item)));
                tokenizer.eat_whitespace();
            }
            assert(children_view(children@) + seq![] =~= children_view(children@));
            tokenizer.next()?;
            parse_tag_name(tokenizer)?;
            let close = tokenizer.pos;
            if tokenizer.next()? != Token::GreaterThan {
                return Err(ParseError::UnexpectedToken { position: close });
            }
        },
        _ => {
            return Err(ParseError::UnexpectedToken { position: pos });
        },
    }
    Ok(Expression { item: Node::Element(Element { tag_name, attributes, children }) })
}

/// The body of a style element, after its attributes, up to and including
/// `</style>`; the body is handed to the style-sheet parser.
fn parse_next_style_element_parts<'a>(
    attributes: Vec<Expression<Attribute<'a>>>,
    tokenizer: &mut Tokenizer<'a>,
) -> (r: Result<Expression<Node<'a>>, ParseError>)
    requires
        old(tokenizer).wf(),
    ensures
        advanced(*old(tokenizer), *final(tokenizer)),
        agrees_exactly(node_result(r), final(tokenizer).pos as int, gram_style(old(tokenizer).text(), old(tokenizer).pos as int, attrs_view(attributes@))),
        r matches Err(ParseError::UnexpectedToken { position }) ==> position < old(tokenizer).text().len(),
        r is Ok ==> old(tokenizer).pos < final(tokenizer).pos,
        r matches Ok(e) ==> e.item matches Node::StyleElement(el) && el.attributes == attributes,
{
    let pos = tokenizer.pos;
    if tokenizer.next()? != Token::GreaterThan {
        return Err(ParseError::UnexpectedToken { position: pos });
    }
    let start = tokenizer.pos;
    while !tokenizer.is_eof() && !at_style_close(tokenizer)
        invariant
            advanced(*old(tokenizer), *tokenizer),
            start <= tokenizer.pos,
            style_body_end(tokenizer.text(), start as int) == style_body_end(tokenizer.text(), tokenizer.pos as int),
        decreases tokenizer.text().len() - tokenizer.pos,
    {
        let _ = tokenizer.next();
    }
    let end = tokenizer.pos;
    tokenizer.next()?;
    tokenizer.next()?;
    let close = tokenizer.pos;
    if tokenizer.next()? != Token::GreaterThan {
        return Err(ParseError::UnexpectedToken { position: close });
    }
    let sheet = parse_sheet(tokenizer, start, end)?;
    Ok(Expression { item: Node::StyleElement(StyleElement { attributes, sheet }) })
}

/// The cursor stands on `</style`.
fn at_style_close(tokenizer: &Tokenizer) -> (r: bool)
    requires
        tokenizer.wf(),
    ensures
        r == style_close_at(tokenizer.text(), tokenizer.pos as int),
{
    let (k, e) = tokenizer.token_at(tokenizer.pos);
    if k != Token::CloseTag {
        return false;
    }
    proof { crate::tokenizer::lemma_token_end_bounds(tokenizer.text(), tokenizer.pos as int); }
    let n = tokenizer.chars.len();
    if n - e < 5 {
        return false;
    }
    is_style(tokenizer, e, e + 5)
}

/// A tag or attribute name: the text up to whitespace, `>`, `=` or `/>`.
fn parse_tag_name<'a>(tokenizer: &mut Tokenizer<'a>) -> (r: Result<&'a str, ParseError>)
    requires
        old(tokenizer).wf(),
    ensures
        advanced(*old(tokenizer), *final(tokenizer)),
        agrees_exactly(str_result(r), final(tokenizer).pos as int, gram_name(old(tokenizer).text(), old(tokenizer).pos as int)),
        r matches Err(ParseError::UnexpectedToken { position }) ==> position < old(tokenizer).text().len(),
        r is Ok ==> old(tokenizer).pos < final(tokenizer).pos,
        r is Ok <==> scan_until(old(tokenizer).text(), old(tokenizer).pos as int, name_stops()) > old(tokenizer).pos,
        r is Ok ==> final(tokenizer).pos == scan_until(old(tokenizer).text(), old(tokenizer).pos as int, name_stops()),
        r matches Ok(name) ==> name@ == old(tokenizer).text().subrange(old(tokenizer).pos as int, final(tokenizer).pos as int)
            && (ends_name(final(tokenizer).current()) || final(tokenizer).current() == Token::Eof),
{
    let start = tokenizer.pos;
    while !tokenizer.is_eof() && !name_stop(tokenizer.current_kind())
        invariant
            advanced(*old(tokenizer), *tokenizer),
            start == old(tokenizer).pos,
            scan_until(tokenizer.text(), start as int, name_stops())
                == scan_until(tokenizer.text(), tokenizer.pos as int, name_stops()),
        decreases tokenizer.text().len() - tokenizer.pos,
    {
        let _ = tokenizer.next();
    }
    if tokenizer.pos == start {
        if tokenizer.is_eof() {
            return Err(ParseError::UnexpectedEof);
        }
        return Err(ParseError::UnexpectedToken { position: start });
    }
    Ok(tokenizer.slice(start, tokenizer.pos))
}

fn name_stop(k: Token) -> (r: bool)
    ensures
        r == ends_name(k),
{
    k == Token::Whitespace || k == Token::GreaterThan || k == Token::Equals || k == Token::SelfCloseTag
}

fn parse_attributes<'a>(tokenizer: &mut Tokenizer<'a>) -> (r: Result<Vec<Expression<Attribute<'a>>>, ParseError>)
    requires
        old(tokenizer).wf(),
    ensures
        advanced(*old(tokenizer), *final(tokenizer)),
        agrees_exactly(attributes_result(r), final(tokenizer).pos as int, gram_attributes(old(tokenizer).text(), old(tokenizer).pos as int)),
        r matches Ok(attrs) ==> attributes_wf(attrs@),
        r matches Err(ParseError::UnexpectedToken { position }) ==> position < old(tokenizer).text().len(),
        r is Ok ==> final(tokenizer).current() == Token::SelfCloseTag || final(tokenizer).current() == Token::GreaterThan,
{
    let mut attributes: Vec<Expression<Attribute<'a>>> = Vec::new();
    let ghost s = tokenizer.text();
    loop
        invariant
            advanced(*old(tokenizer), *tokenizer),
            s == old(tokenizer).text(),
            attributes_wf(attributes@),
            gram_attributes(s, old(tokenizer).pos as int)
                == prepend(attrs_view(attributes@), gram_attributes(s, tokenizer.pos as int)),
        ensures
            tokenizer.current() == Token::SelfCloseTag || tokenizer.current() == Token::GreaterThan,
            gram_attributes(s, old(tokenizer).pos as int) == Ok::<(Seq<AttrView>, int), ParseError>((attrs_view(attributes@), tokenizer.pos as int)),
        decreases tokenizer.text().len() - tokenizer.pos,
    {
        let ghost top = tokenizer.pos as int;
        tokenizer.eat_whitespace();
        match tokenizer.peek(1)? {
            Token::SelfCloseTag | Token::GreaterThan => {
                assert(attrs_view(attributes@) + seq![] =~= attrs_view(attributes@));
                break;
            },
            _ => {
                let attribute = parse_attribute(tokenizer)?;
                proof {
                    lemma_prepend_push(attrs_view(attributes@), attr_view(attribute.item), gram_attributes(s, tokenizer.pos as int));
                    assert(attrs_view(attributes@.push(attribute)) =~= attrs_view(attributes@).push(attr_view(attribute.item)));
                }
                attributes.push(attribute);
            },
        }
    }
    Ok(attributes)
}

fn parse_attribute<'a>(tokenizer: &mut Tokenizer<'a>) -> (r: Result<Expression<Attribute<'a>>, ParseError>)
    requires
        old(tokenizer).wf(),
    ensures
        advanced(*old(tokenizer), *final(tokenizer)),
        agrees_exactly(attribute_result(r), final(tokenizer).pos as int, gram_attribute(old(tokenizer).text(), old(tokenizer).pos as int)),
        r matches Err(ParseError::UnexpectedToken { position }) ==> position < old(tokenizer).text().len(),
        r is Ok ==> old(tokenizer).pos < final(tokenizer).pos,
        r matches Ok(a) ==> a.item.name@.len() > 0,
{
    let name = parse_tag_name(tokenizer)?;
    let mut value = None;
    if tokenizer.peek(1)? == Token::Equals {
        tokenizer.next()?;
        value = Some(parse_attribute_value(tokenizer)?);
    }
    Ok(Expression { item: Attribute { name, value } })
}

fn parse_attribute_value<'a>(tokenizer: &mut Tokenizer<'a>) -> (r: Result<Expression<AttributeValue<'a>>, ParseError>)
    requires
        old(tokenizer).wf(),
    ensures
        advanced(*old(tokenizer), *final(tokenizer)),
        agrees_exactly(value_result(r), final(tokenizer).pos as int, gram_value(old(tokenizer).text(), old(tokenizer).pos as int)),
        r matches Err(ParseError::UnexpectedToken { position }) ==> position < old(tokenizer).text().len(),
        old(tokenizer).current() == Token::Eof ==> r == Err::<Expression<AttributeValue<'a>>, ParseError>(ParseError::UnexpectedEof),
{
    match tokenizer.peek(1)? {
        Token::SingleQuote | Token::DoubleQuote => parse_string(tokenizer),
        _ => Err(ParseError::UnexpectedToken { position: tokenizer.pos }),
    }
}

/// A quoted string; the value is the text between the quotes.
fn parse_string<'a>(tokenizer: &mut Tokenizer<'a>) -> (r: Result<Expression<AttributeValue<'a>>, ParseError>)
    requires
        old(tokenizer).wf(),
        old(tokenizer).current() == Token::SingleQuote || old(tokenizer).current() == Token::DoubleQuote,
    ensures
        advanced(*old(tokenizer), *final(tokenizer)),
        agrees_exactly(value_result(r), final(tokenizer).pos as int, gram_string(old(tokenizer).text(), old(tokenizer).pos as int)),
        r matches Err(ParseError::UnexpectedToken { position }) ==> position < old(tokenizer).text().len(),
        r matches Ok(e) ==> e.item matches AttributeValue::String(s)
            && final(tokenizer).pos >= old(tokenizer).pos + 2
            && final(tokenizer).pos - 1 == scan_until(old(tokenizer).text(), old(tokenizer).pos + 1, kind_stops(old(tokenizer).current()))
            && s.value@ == old(tokenizer).text().subrange(old(tokenizer).pos + 1, final(tokenizer).pos - 1)
            && token_kind(old(tokenizer).text(), final(tokenizer).pos - 1) == old(tokenizer).current(),
{
    let quote = tokenizer.next()?;
    let start = tokenizer.pos;
    while !tokenizer.is_eof() && tokenizer.current_kind() != quote
        invariant
            advanced(*old(tokenizer), *tokenizer),
            start <= tokenizer.pos,
            start == old(tokenizer).pos + 1,
            quote == old(tokenizer).current(),
            scan_until(tokenizer.text(), start as int, kind_stops(quote))
                == scan_until(tokenizer.text(), tokenizer.pos as int, kind_stops(quote)),
        decreases tokenizer.text().len() - tokenizer.pos,
    {
        let _ = tokenizer.next();
    }
    let end = tokenizer.pos;
    let value = tokenizer.slice(start, end);
    tokenizer.next()?;
    Ok(Expression { item: AttributeValue::String(Str { value }) })
}

} // verus!
