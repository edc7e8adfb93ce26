use vstd::prelude::*;

verus! {

/// The kinds of lexical unit that the markup grammar distinguishes.
#[derive(Debug, Clone, Copy, PartialEq, Eq, Structural)]
pub enum Token {
    Word,
    Whitespace,
    LessThan,
    GreaterThan,
    SelfCloseTag,
    CloseTag,
    SlotOpen,
    SlotClose,
    SingleQuote,
    DoubleQuote,
    Equals,
    Dot,
    Eof,
}

/// Failure of a parse: a token that fits no production, or the end of input
/// reached in the middle of one. A position counts characters from the start
/// of the source.
#[derive(Debug, Clone, Copy, PartialEq, Eq, Structural)]
pub enum ParseError {
    UnexpectedToken { position: usize },
    UnexpectedEof,
}

pub open spec fn is_space(c: char) -> bool {
    c == ' ' || c == '\n' || c == '\t' || c == '\r'
}

/// A character that ends a word: whitespace or one that starts a token of its own.
pub open spec fn is_delimiter(c: char) -> bool {
    is_space(c) || c == '<' || c == '>' || c == '/' || c == '{' || c == '}' || c == '\''
        || c == '"' || c == '=' || c == '.'
}

pub open spec fn char_at_is(s: Seq<char>, i: int, c: char) -> bool {
    0 <= i < s.len() && s[i] == c
}

/// The kind of the token that starts at `i`.
pub open spec fn token_kind(s: Seq<char>, i: int) -> Token {
    if i >= s.len() {
        Token::Eof
    } else if s[i] == '{' && char_at_is(s, i + 1, '{') {
        Token::SlotOpen
    } else if s[i] == '}' && char_at_is(s, i + 1, '}') {
        Token::SlotClose
    } else if s[i] == '<' && char_at_is(s, i + 1, '/') {
        Token::CloseTag
    } else if s[i] == '/' && char_at_is(s, i + 1, '>') {
        Token::SelfCloseTag
    } else if s[i] == '<' {
        Token::LessThan
    } else if s[i] == '>' {
        Token::GreaterThan
    } else if s[i] == '\'' {
        Token::SingleQuote
    } else if s[i] == '"' {
        Token::DoubleQuote
    } else if s[i] == '=' {
        Token::Equals
    } else if s[i] == '.' {
        Token::Dot
    } else if is_space(s[i]) {
        Token::Whitespace
    } else {
        Token::Word
    }
}

/// The end of the maximal run, from `i`, of characters that `is_space` or that
/// do not `is_delimiter`, as `space` says.
pub open spec fn run_end(s: Seq<char>, i: int, space: bool) -> int
    decreases s.len() - i,
{
    if i < 0 || i >= s.len() {
        i
    } else if space && is_space(s[i]) {
        run_end(s, i + 1, space)
    } else if !space && !is_delimiter(s[i]) {
        run_end(s, i + 1, space)
    } else {
        i
    }
}

/// The position just after the token that starts at `i`.
pub open spec fn token_end(s: Seq<char>, i: int) -> int {
    match token_kind(s, i) {
        Token::Eof => i,
        Token::SlotOpen | Token::SlotClose | Token::CloseTag | Token::SelfCloseTag => i + 2,
        Token::Whitespace => run_end(s, i, true),
        Token::Word => if is_delimiter(s[i]) { i + 1 } else { run_end(s, i, false) },
        _ => i + 1,
    }
}

pub proof fn lemma_run_end_bounds(s: Seq<char>, i: int, space: bool)
    requires
        0 <= i <= s.len(),
    ensures
        i <= run_end(s, i, space) <= s.len(),
        forall|k: int| i <= k < run_end(s, i, space) ==> (if space { is_space(s[k]) } else { !is_delimiter(s[k]) }),
        run_end(s, i, space) < s.len() ==> (if space { !is_space(s[run_end(s, i, space)]) } else { is_delimiter(s[run_end(s, i, space)]) }),
    decreases s.len() - i,
{
    if i < s.len() {
        if (space && is_space(s[i])) || (!space && !is_delimiter(s[i])) {
            lemma_run_end_bounds(s, i + 1, space);
        }
    }
}

pub proof fn lemma_token_end_bounds(s: Seq<char>, i: int)
    requires
        0 <= i <= s.len(),
    ensures
        i <= token_end(s, i) <= s.len(),
        i < s.len() ==> i < token_end(s, i),
{
    lemma_run_end_bounds(s, i, true);
    lemma_run_end_bounds(s, i, false);
}

/// Where a run of tokens from `i` ends: at the first token that `stop` accepts,
/// or at the end of the text.
pub open spec fn scan_until(s: Seq<char>, i: int, stop: spec_fn(Token) -> bool) -> int
    decreases s.len() - i,
    via scan_until_decreases
{
    if i < 0 || i >= s.len() || stop(token_kind(s, i)) {
        i
    } else {
        scan_until(s, token_end(s, i), stop)
    }
}

#[via_fn]
proof fn scan_until_decreases(s: Seq<char>, i: int, stop: spec_fn(Token) -> bool) {
    if 0 <= i < s.len() {
        lemma_token_end_bounds(s, i);
    }
}

/// The position after the whitespace token at `i`, if there is one.
pub open spec fn skip_space(s: Seq<char>, i: int) -> int {
    if token_kind(s, i) == Token::Whitespace {
        token_end(s, i)
    } else {
        i
    }
}

/// A cursor over the characters of a source text.
pub struct Tokenizer<'a> {
    pub source: &'a str,
    pub chars: Vec<char>,
    pub pos: usize,
}

impl<'a> Tokenizer<'a> {
    pub open spec fn wf(&self) -> bool {
        &&& self.chars@ == self.source@
        &&& self.pos <= self.chars@.len()
    }

    pub open spec fn text(&self) -> Seq<char> {
        self.chars@
    }

    pub fn new(source: &'a str) -> (t: Tokenizer<'a>)
        ensures
            t.wf(),
            t.source == source,
            t.pos == 0,
    {
        let n = source.unicode_len();
        let mut chars: Vec<char> = Vec::new();
        let mut i: usize = 0;
        while i < n
            invariant
                n == source@.len(),
                i <= n,
                chars@ == source@.subrange(0, i as int),
            decreases n - i,
        {
            let c = source.get_char(i);
            chars.push(c);
            i = i + 1;
            assert(chars@ =~= source@.subrange(0, i as int));
        }
        assert(chars@ =~= source@);
        Tokenizer { source, chars, pos: 0 }
    }

    pub fn is_eof(&self) -> (r: bool)
        requires
            self.wf(),
        ensures
            r == (self.pos >= self.text().len()),
    {
        self.pos >= self.chars.len()
    }

    fn char_is(&self, i: usize, c: char) -> (r: bool)
        ensures
            r == char_at_is(self.chars@, i as int, c),
    {
        i < self.chars.len() && self.chars[i] == c
    }

    fn run_end_exec(&self, i: usize, space: bool) -> (r: usize)
        requires
            self.wf(),
            i <= self.chars@.len(),
        ensures
            r as int == run_end(self.chars@, i as int, space),
    {
        let mut j = i;
        while j < self.chars.len()
            invariant
                self.wf(),
                i <= j <= self.chars@.len(),
                run_end(self.chars@, i as int, space) == run_end(self.chars@, j as int, space),
            decreases self.chars@.len() - j,
        {
            let c = self.chars[j];
            let go = if space { c == ' ' || c == '\n' || c == '\t' || c == '\r' } else {
                !(c == ' ' || c == '\n' || c == '\t' || c == '\r' || c == '<' || c == '>' || c == '/'
                    || c == '{' || c == '}' || c == '\'' || c == '"' || c == '=' || c == '.')
            };
            if !go {
                return j;
            }
            j = j + 1;
        }
        j
    }

    /// The kind of the token at `i`, and the position just after it.
    pub fn token_at(&self, i: usize) -> (r: (Token, usize))
        requires
            self.wf(),
            i <= self.chars@.len(),
        ensures
            r.0 == token_kind(self.text(), i as int),
            r.1 as int == token_end(self.text(), i as int),
    {
        proof { lemma_token_end_bounds(self.chars@, i as int); }
        if i >= self.chars.len() {
            return (Token::Eof, i);
        }
        let c = self.chars[i];
        if c == '{' && self.char_is(i + 1, '{') {
            (Token::SlotOpen, i + 2)
        } else if c == '}' && self.char_is(i + 1, '}') {
            (Token::SlotClose, i + 2)
        } else if c == '<' && self.char_is(i + 1, '/') {
            (Token::CloseTag, i + 2)
        } else if c == '/' && self.char_is(i + 1, '>') {
            (Token::SelfCloseTag, i + 2)
        } else if c == '<' {
            (Token::LessThan, i + 1)
        } else if c == '>' {
            (Token::GreaterThan, i + 1)
        } else if c == '\'' {
            (Token::SingleQuote, i + 1)
        } else if c == '"' {
            (Token::DoubleQuote, i + 1)
        } else if c == '=' {
            (Token::Equals, i + 1)
        } else if c == '.' {
            (Token::Dot, i + 1)
        } else if c == ' ' || c == '\n' || c == '\t' || c == '\r' {
            (Token::Whitespace, self.run_end_exec(i, true))
        } else if c == '/' || c == '{' || c == '}' {
            (Token::Word, i + 1)
        } else {
            (Token::Word, self.run_end_exec(i, false))
        }
    }
}

impl<'a> Tokenizer<'a> {
    /// The kind of the token under the cursor.
    pub open spec fn current(&self) -> Token {
        token_kind(self.text(), self.pos as int)
    }

    /// The kind of the token after the one under the cursor.
    pub open spec fn second(&self) -> Token {
        token_kind(self.text(), token_end(self.text(), self.pos as int))
    }

    /// The `n`-th token from the cursor (1 or 2); the end of input is an error.
    pub fn peek(&self, n: usize) -> (r: Result<Token, ParseError>)
        requires
            self.wf(),
            1 <= n <= 2,
        ensures
            ({ let k = if n == 1 { self.current() } else { self.second() };
               if k == Token::Eof { r == Err::<Token, ParseError>(ParseError::UnexpectedEof) } else { r == Ok::<Token, ParseError>(k) } }),
    {
        proof { lemma_token_end_bounds(self.chars@, self.pos as int); }
        let (k1, e1) = self.token_at(self.pos);
        let k = if n == 1 { k1 } else { self.token_at(e1).0 };
        if k == Token::Eof {
            Err(ParseError::UnexpectedEof)
        } else {
            Ok(k)
        }
    }

    /// The kind of the token under the cursor, `Eof` at the end.
    pub fn current_kind(&self) -> (r: Token)
        requires
            self.wf(),
        ensures
            r == self.current(),
    {
        self.token_at(self.pos).0
    }

    /// Moves past the token under the cursor and returns its kind; the end of
    /// input is an error.
    pub fn next(&mut self) -> (r: Result<Token, ParseError>)
        requires
            old(self).wf(),
        ensures
            final(self).wf(),
            final(self).source == old(self).source,
            final(self).chars == old(self).chars,
            old(self).current() == Token::Eof ==> r == Err::<Token, ParseError>(ParseError::UnexpectedEof) && final(self).pos == old(self).pos,
            old(self).current() != Token::Eof ==> r == Ok::<Token, ParseError>(old(self).current())
                && final(self).pos == token_end(old(self).text(), old(self).pos as int)
                && final(self).pos > old(self).pos,
    {
        proof { lemma_token_end_bounds(self.chars@, self.pos as int); }
        let (k, e) = self.token_at(self.pos);
        if k == Token::Eof {
            Err(ParseError::UnexpectedEof)
        } else {
            self.pos = e;
            Ok(k)
        }
    }

    /// Skips a run of whitespace under the cursor, if there is one.
    pub fn eat_whitespace(&mut self)
        requires
            old(self).wf(),
        ensures
            final(self).wf(),
            final(self).source == old(self).source,
            final(self).chars == old(self).chars,
            old(self).pos <= final(self).pos,
            final(self).current() != Token::Whitespace,
            final(self).pos == skip_space(old(self).text(), old(self).pos as int),
    {
        proof { lemma_token_end_bounds(self.chars@, self.pos as int); }
        let (k, e) = self.token_at(self.pos);
        if k == Token::Whitespace {
            proof { lemma_run_end_bounds(self.chars@, self.pos as int, true); }
            self.pos = e;
        }
    }

    /// The source text between two positions.
    pub fn slice(&self, from: usize, to: usize) -> (r: &'a str)
        requires
            self.wf(),
            from <= to <= self.text().len(),
        ensures
            r@ == self.text().subrange(from as int, to as int),
    {
        self.source.substring_char(from, to)
    }
}

} // verus!
