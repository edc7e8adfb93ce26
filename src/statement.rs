use vstd::prelude::*;
use crate::markup::{Expression, Node};
use crate::tokenizer::{Tokenizer, Token, ParseError, token_kind, token_end, skip_space};
use crate::parser::{parse_element, advanced};
use crate::grammar::{NodeView, node_view, prepend, lemma_prepend_push, gram_element, agrees_exactly};

verus! {

/// A dotted path such as `a.b.c`.
#[derive(Debug, PartialEq, Eq)]
pub struct Reference {
    pub path: Vec<String>,
}

/// An embedded expression: an element, or a reference.
#[derive(Debug, PartialEq, Eq)]
pub enum Statement<'a> {
    Node(Box<Expression<Node<'a>>>),
    Reference(Reference),
}

/// A statement as text: an element's tree, or the words of a path.
pub enum StatementView {
    Node(NodeView),
    Reference(Seq<Seq<char>>),
}

pub open spec fn path_view(path: Seq<String>) -> Seq<Seq<char>> {
    path.map_values(|w: String| w@)
}

pub open spec fn statement_result(r: Result<Statement, ParseError>) -> Result<StatementView, ParseError> {
    match r {
        Ok(Statement::Node(e)) => Ok(StatementView::Node(node_view(e.item))),
        Ok(Statement::Reference(reference)) => Ok(StatementView::Reference(path_view(reference.path@))),
        Err(e) => Err(e),
    }
}

/// `.word` parts from `j` on, as long as a dot follows.
pub open spec fn gram_path(s: Seq<char>, j: int) -> Result<(Seq<Seq<char>>, int), ParseError>
    decreases s.len() - j,
{
    if j >= s.len() || token_kind(s, j) != Token::Dot {
        Ok((seq![], j))
    } else {
        let w = token_end(s, j);
        match token_kind(s, w) {
            Token::Eof => Err(ParseError::UnexpectedEof),
            Token::Word => if j < token_end(s, w) <= s.len() {
                prepend(seq![s.subrange(w, token_end(s, w))], gram_path(s, token_end(s, w)))
            } else {
                Err(ParseError::UnexpectedEof)
            },
            _ => Err(ParseError::UnexpectedToken { position: w as usize }),
        }
    }
}

/// `word(.word)*` at `i`.
pub open spec fn gram_reference(s: Seq<char>, i: int) -> Result<(Seq<Seq<char>>, int), ParseError> {
    match token_kind(s, i) {
        Token::Eof => Err(ParseError::UnexpectedEof),
        Token::Word => prepend(seq![s.subrange(i, token_end(s, i))], gram_path(s, token_end(s, i))),
        _ => Err(ParseError::UnexpectedToken { position: i as usize }),
    }
}

/// After optional whitespace: an element at `<`, otherwise a reference; then
/// optional whitespace.
pub open spec fn gram_statement(s: Seq<char>, i: int) -> Result<(StatementView, int), ParseError> {
    let p = skip_space(s, i);
    let r = match token_kind(s, p) {
        Token::Eof => Err(ParseError::UnexpectedEof),
        Token::LessThan => match gram_element(s, token_end(s, p)) {
            Ok((v, e)) => Ok((StatementView::Node(v), e)),
            Err(e) => Err(e),
        },
        _ => match gram_reference(s, p) {
            Ok((path, e)) => Ok((StatementView::Reference(path), e)),
            Err(e) => Err(e),
        },
    };
    match r {
        Ok((v, e)) => Ok((v, skip_space(s, e))),
        Err(e) => Err(e),
    }
}

fn _parse<'a>(source: &'a str) -> (r: Result<Statement<'a>, ParseError>) {
    let mut tokenizer = Tokenizer::new(source);
    parse_with_tokenizer(&mut tokenizer, |_token: Token| true)
}

/// Parses an element (at `<`) or a reference from the cursor, with the
/// whitespace around it.
pub fn parse_with_tokenizer<'a, FUntil>(tokenizer: &mut Tokenizer<'a>, _until: FUntil) -> (r: Result<Statement<'a>, ParseError>)
    where
        FUntil: Fn(Token) -> bool,
    requires
        old(tokenizer).wf(),
    ensures
        advanced(*old(tokenizer), *final(tokenizer)),
        agrees_exactly(statement_result(r), final(tokenizer).pos as int,
            gram_statement(old(tokenizer).text(), old(tokenizer).pos as int)),
        r matches Ok(Statement::Reference(reference)) ==> reference.path@.len() >= 1,
{
    tokenizer.eat_whitespace();
    let result = match tokenizer.peek(1)? {
        Token::LessThan => parse_node(tokenizer),
        _ => parse_reference(tokenizer),
    };
    let ghost e = tokenizer.pos as int;
    tokenizer.eat_whitespace();
    assert(tokenizer.pos == skip_space(tokenizer.text(), e));
    result
}

fn parse_node<'a>(tokenizer: &mut Tokenizer<'a>) -> (r: Result<Statement<'a>, ParseError>)
    requires
        old(tokenizer).wf(),
        old(tokenizer).current() == Token::LessThan,
    ensures
        advanced(*old(tokenizer), *final(tokenizer)),
        agrees_exactly(statement_result(r), final(tokenizer).pos as int, match gram_element(old(tokenizer).text(), old(tokenizer).pos + 1) {
            Ok((v, e)) => Ok((StatementView::Node(v), e)),
            Err(e) => Err(e),
        }),
        r matches Ok(s) ==> s is Node,
{
    tokenizer.next()?;
    Ok(Statement::Node(Box::new(parse_element(tokenizer)?)))
}

/// Words joined by dots.
fn parse_reference<'a>(tokenizer: &mut Tokenizer<'a>) -> (r: Result<Statement<'a>, ParseError>)
    requires
        old(tokenizer).wf(),
    ensures
        advanced(*old(tokenizer), *final(tokenizer)),
        r matches Ok(s) ==> s matches Statement::Reference(reference) && reference.path@.len() >= 1,
        agrees_exactly(statement_result(r), final(tokenizer).pos as int, match gram_reference(old(tokenizer).text(), old(tokenizer).pos as int) {
            Ok((path, e)) => Ok((StatementView::Reference(path), e)),
            Err(e) => Err(e),
        }),
        old(tokenizer).current() != Token::Word && old(tokenizer).current() != Token::Eof
            ==> r == Err::<Statement<'a>, ParseError>(ParseError::UnexpectedToken { position: old(tokenizer).pos }),
{
    let pos = tokenizer.pos;
    if tokenizer.next()? != Token::Word {
        return Err(ParseError::UnexpectedToken { position: pos });
    }
    let ghost s = tokenizer.text();
    let first = String::from_str(tokenizer.slice(pos, tokenizer.pos));
    let mut path: Vec<String> = Vec::new();
    path.push(first);
    assert(path_view(path@) =~= seq![first@]);
    while !tokenizer.is_eof() && tokenizer.current_kind() == Token::Dot
        invariant
            advanced(*old(tokenizer), *tokenizer),
            s == old(tokenizer).text(),
            old(tokenizer).current() == Token::Word,
            path@.len() >= 1,
            gram_reference(s, old(tokenizer).pos as int) == prepend(path_view(path@), gram_path(s, tokenizer.pos as int)),
        decreases tokenizer.text().len() - tokenizer.pos,
    {
        let ghost j = tokenizer.pos as int;
        tokenizer.next()?;
        let pos = tokenizer.pos;
        if tokenizer.next()? != Token::Word {
            return Err(ParseError::UnexpectedToken { position: pos });
        }
        let word = String::from_str(tokenizer.slice(pos, tokenizer.pos));
        proof {
            lemma_prepend_push(path_view(path@), word@, gram_path(s, tokenizer.pos as int));
        }
        let ghost before = path@;
        path.push(word);
        assert(path_view(path@) =~= path_view(before).push(word@));
    }
    assert(path_view(path@) + seq![] =~= path_view(path@));
    Ok(Statement::Reference(Reference { path }))
}

} // verus!
