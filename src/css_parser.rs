use vstd::prelude::*;
use crate::css_ast::{Sheet, Rule, StyleRule, Declaration, Selector};
use crate::tokenizer::{Tokenizer, ParseError, is_space};
use crate::grammar::{prepend, lemma_prepend_push};
use crate::css_grammar::{
    SelView, DeclView, RuleView, sel_view, sels_view, decls_view, rules_view, ws_end, name_run_end, find, value_end,
    trim_end, lemma_scans, gram_group, gram_group_more, gram_complex, gram_complex_rest, gram_compound, gram_parts,
    gram_declarations, gram_rules, gram_sheet,
};

verus! {

/// A character that may stand in a name: none of the selector and block
/// punctuation, and no whitespace.
pub open spec fn is_name_char(c: char) -> bool {
    !is_space(c) && c != '.' && c != '#' && c != '[' && c != ']' && c != '(' && c != ')' && c != ':'
        && c != ',' && c != '>' && c != '+' && c != '~' && c != '*' && c != '{' && c != '}'
        && c != ';' && c != '='
}

fn name_char(c: char) -> (r: bool)
    ensures
        r == is_name_char(c),
{
    !(c == ' ' || c == '\n' || c == '\t' || c == '\r') && c != '.' && c != '#' && c != '[' && c != ']'
        && c != '(' && c != ')' && c != ':' && c != ',' && c != '>' && c != '+' && c != '~'
        && c != '*' && c != '{' && c != '}' && c != ';' && c != '='
}

fn space(c: char) -> (r: bool)
    ensures
        r == is_space(c),
{
    c == ' ' || c == '\n' || c == '\t' || c == '\r'
}

/// The first position at or after `i` that holds no whitespace, or `hi`.
fn skip_ws(t: &Tokenizer, i: usize, hi: usize) -> (r: usize)
    requires
        t.wf(),
        i <= hi <= t.text().len(),
    ensures
        i <= r <= hi,
        forall|k: int| i <= k < r ==> is_space(t.text()[k]),
        r < hi ==> !is_space(t.text()[r as int]),
        r == ws_end(t.text(), i as int, hi as int),
{
    let mut j = i;
    while j < hi && space(t.chars[j])
        invariant
            t.wf(),
            i <= j <= hi <= t.text().len(),
            forall|k: int| i <= k < j ==> is_space(t.text()[k]),
            ws_end(t.text(), i as int, hi as int) == ws_end(t.text(), j as int, hi as int),
        decreases hi - j,
    {
        j = j + 1;
    }
    j
}

/// The end of the run of name characters that starts at `i`.
fn name_end(t: &Tokenizer, i: usize, hi: usize) -> (r: usize)
    requires
        t.wf(),
        i <= hi <= t.text().len(),
    ensures
        i <= r <= hi,
        forall|k: int| i <= k < r ==> is_name_char(t.text()[k]),
        r < hi ==> !is_name_char(t.text()[r as int]),
        r == name_run_end(t.text(), i as int, hi as int),
{
    let mut j = i;
    while j < hi && name_char(t.chars[j])
        invariant
            t.wf(),
            i <= j <= hi <= t.text().len(),
            forall|k: int| i <= k < j ==> is_name_char(t.text()[k]),
            name_run_end(t.text(), i as int, hi as int) == name_run_end(t.text(), j as int, hi as int),
        decreases hi - j,
    {
        j = j + 1;
    }
    j
}

/// The first position at or after `i` that holds `c`, or `hi`.
fn find_char(t: &Tokenizer, i: usize, hi: usize, c: char) -> (r: usize)
    requires
        t.wf(),
        i <= hi <= t.text().len(),
    ensures
        i <= r <= hi,
        forall|k: int| i <= k < r ==> t.text()[k] != c,
        r < hi ==> t.text()[r as int] == c,
        r == find(t.text(), i as int, hi as int, c),
{
    let mut j = i;
    while j < hi && t.chars[j] != c
        invariant
            t.wf(),
            i <= j <= hi <= t.text().len(),
            forall|k: int| i <= k < j ==> t.text()[k] != c,
            find(t.text(), i as int, hi as int, c) == find(t.text(), j as int, hi as int, c),
        decreases hi - j,
    {
        j = j + 1;
    }
    j
}

fn owned(t: &Tokenizer, from: usize, to: usize) -> (r: String)
    requires
        t.wf(),
        from <= to <= t.text().len(),
    ensures
        r@ == t.text().subrange(from as int, to as int),
{
    String::from_str(t.slice(from, to))
}

fn at(t: &Tokenizer, i: usize, hi: usize, c: char) -> (r: bool)
    requires
        t.wf(),
        hi <= t.text().len(),
    ensures
        r == (i < hi && t.text()[i as int] == c),
{
    i < hi && t.chars[i] == c
}

fn unexpected(i: usize, hi: usize) -> (r: ParseError)
    ensures
        i >= hi ==> r == ParseError::UnexpectedEof,
        i < hi ==> r == (ParseError::UnexpectedToken { position: i }),
{
    if i >= hi {
        ParseError::UnexpectedEof
    } else {
        ParseError::UnexpectedToken { position: i }
    }
}

pub open spec fn sel_result(r: Result<(Selector, usize), ParseError>) -> Result<(SelView, int), ParseError> {
    match r {
        Ok((sel, j)) => Ok((sel_view(sel), j as int)),
        Err(e) => Err(e),
    }
}

pub open spec fn decls_result(r: Result<(Vec<Declaration>, usize), ParseError>) -> Result<(Seq<DeclView>, int), ParseError> {
    match r {
        Ok((ds, j)) => Ok((decls_view(ds@), j as int)),
        Err(e) => Err(e),
    }
}

pub open spec fn sheet_result(r: Result<Sheet, ParseError>) -> Result<Seq<RuleView>, ParseError> {
    match r {
        Ok(sheet) => Ok(rules_view(sheet.rules@)),
        Err(e) => Err(e),
    }
}

pub proof fn lemma_sels_view_len(ss: Seq<Selector>)
    ensures
        sels_view(ss).len() == ss.len(),
    decreases ss.len(),
{
    if ss.len() > 0 {
        lemma_sels_view_len(ss.drop_last());
    }
}

proof fn lemma_sels_view_push(ss: Seq<Selector>, x: Selector)
    ensures
        sels_view(ss.push(x)) == sels_view(ss).push(sel_view(x)),
{
    assert(ss.push(x).drop_last() =~= ss);
}

/// Selectors separated by commas, from `i` up to the first character that
/// ends a selector list (`{`, `)` or `hi`).
fn parse_group(t: &Tokenizer, i: usize, hi: usize) -> (r: Result<(Selector, usize), ParseError>)
    requires
        t.wf(),
        i <= hi <= t.text().len(),
    ensures
        r matches Ok((_, j)) ==> i < j <= hi,
        r matches Err(ParseError::UnexpectedToken { position }) ==> position < hi,
        sel_result(r) == gram_group(t.text(), i as int, hi as int),
    decreases hi - i, 3nat,
{
    let (first, mut j) = parse_complex(t, i, hi)?;
    proof { assert(seq![sel_view(first)] =~= sels_view(seq![first])) by { lemma_sels_view_push(Seq::empty(), first); assert(Seq::<Selector>::empty().push(first) =~= seq![first]); } }
    if !at(t, j, hi, ',') {
        return Ok((first, j));
    }
    let mut selectors: Vec<Selector> = Vec::new();
    selectors.push(first);
    proof {
        lemma_sels_view_push(Seq::empty(), first);
        assert(Seq::<Selector>::empty().push(first) =~= selectors@);
    }
    let ghost s = t.text();
    while at(t, j, hi, ',')
        invariant
            t.wf(),
            s == t.text(),
            i < j <= hi <= t.text().len(),
            gram_group(s, i as int, hi as int) == match gram_group_more(s, j as int, hi as int) {
                Err(e) => Err(e),
                Ok((rest, k)) => Ok((SelView::Group(sels_view(selectors@) + rest), k)),
            },
        decreases hi - j,
    {
        let (next, k) = parse_complex(t, j + 1, hi)?;
        proof {
            lemma_sels_view_push(selectors@, next);
            let pre = sels_view(selectors@);
            if let Ok((rest, m)) = gram_group_more(s, k as int, hi as int) {
                assert(pre + (seq![sel_view(next)] + rest) =~= pre.push(sel_view(next)) + rest);
            }
        }
        selectors.push(next);
        j = k;
    }
    assert(sels_view(selectors@) + seq![] =~= sels_view(selectors@));
    Ok((Selector::Group { selectors }, j))
}

/// Compound selectors joined by combinators (whitespace, `>`, `+`, `~`).
fn parse_complex(t: &Tokenizer, i: usize, hi: usize) -> (r: Result<(Selector, usize), ParseError>)
    requires
        t.wf(),
        i <= hi <= t.text().len(),
    ensures
        r matches Ok((_, j)) ==> i < j <= hi,
        r matches Err(ParseError::UnexpectedToken { position }) ==> position < hi,
        sel_result(r) == gram_complex(t.text(), i as int, hi as int),
    decreases hi - i, 2nat,
{
    let start = skip_ws(t, i, hi);
    proof { lemma_scans(t.text(), i as int, hi as int, ' '); }
    let (mut left, mut j) = parse_compound(t, start, hi)?;
    loop
        invariant
            t.wf(),
            i < j <= hi <= t.text().len(),
            gram_complex(t.text(), i as int, hi as int) == gram_complex_rest(t.text(), sel_view(left), j as int, hi as int),
        decreases hi - j,
    {
        let k = skip_ws(t, j, hi);
        if k >= hi || t.chars[k] == ',' || t.chars[k] == ')' || t.chars[k] == '{' {
            return Ok((left, k));
        }
        let c = t.chars[k];
        if c == '>' || c == '+' || c == '~' {
            let m = skip_ws(t, k + 1, hi);
            let (right, e) = parse_compound(t, m, hi)?;
            proof {
                let joined = if c == '>' {
                    SelView::Child(Box::new(sel_view(left)), Box::new(sel_view(right)))
                } else if c == '+' {
                    SelView::Adjacent(Box::new(sel_view(left)), Box::new(sel_view(right)))
                } else {
                    SelView::Sibling(Box::new(sel_view(left)), Box::new(sel_view(right)))
                };
                assert(gram_complex_rest(t.text(), sel_view(left), j as int, hi as int)
                    == gram_complex_rest(t.text(), joined, e as int, hi as int));
            }
            left = if c == '>' {
                Selector::Child { parent: Box::new(left), child: Box::new(right) }
            } else if c == '+' {
                Selector::Adjacent { selector: Box::new(left), next_sibling_selector: Box::new(right) }
            } else {
                Selector::Sibling { selector: Box::new(left), sibling_selector: Box::new(right) }
            };
            j = e;
        } else if k > j {
            let (right, e) = parse_compound(t, k, hi)?;
            left = Selector::Descendent { parent: Box::new(left), descendent: Box::new(right) };
            j = e;
        } else {
            return Err(unexpected(k, hi));
        }
    }
}

/// Simple selectors and pseudo parts side by side, with no combinator.
fn parse_compound(t: &Tokenizer, i: usize, hi: usize) -> (r: Result<(Selector, usize), ParseError>)
    requires
        t.wf(),
        i <= hi <= t.text().len(),
    ensures
        r matches Ok((_, j)) ==> i < j <= hi,
        r matches Err(ParseError::UnexpectedToken { position }) ==> position < hi,
        sel_result(r) == gram_compound(t.text(), i as int, hi as int),
    decreases hi - i, 1nat,
{
    let mut parts: Vec<Selector> = Vec::new();
    let mut j = i;
    loop
        invariant
            t.wf(),
            i <= j <= hi <= t.text().len(),
            parts@.len() > 0 ==> i < j,
            gram_parts(t.text(), i as int, hi as int) == prepend(sels_view(parts@), gram_parts(t.text(), j as int, hi as int)),
        ensures
            i <= j <= hi,
            parts@.len() > 0 ==> i < j,
            gram_parts(t.text(), i as int, hi as int) == Ok::<(Seq<SelView>, int), ParseError>((sels_view(parts@), j as int)),
        decreases hi - j,
    {
        match parse_part(t, j, hi)? {
            None => {
                assert(sels_view(parts@) + seq![] =~= sels_view(parts@));
                break;
            },
            Some((part, e)) => {
                proof {
                    lemma_sels_view_push(parts@, part);
                    lemma_prepend_push(sels_view(parts@), sel_view(part), gram_parts(t.text(), e as int, hi as int));
                }
                parts.push(part);
                j = e;
            },
        }
    }
    proof { lemma_sels_view_len(parts@); }
    if parts.len() == 0 {
        Err(unexpected(j, hi))
    } else if parts.len() == 1 {
        let ghost ps = parts@;
        let only = parts.pop().unwrap();
        proof {
            assert(ps =~= Seq::<Selector>::empty().push(only));
            lemma_sels_view_push(Seq::empty(), only);
        }
        Ok((only, j))
    } else {
        Ok((Selector::Combo { selectors: parts }, j))
    }
}

/// One part of a compound at `j`, or none where no part starts.
fn parse_part(t: &Tokenizer, j: usize, hi: usize) -> (r: Result<Option<(Selector, usize)>, ParseError>)
    requires
        t.wf(),
        j <= hi <= t.text().len(),
    ensures
        r matches Err(ParseError::UnexpectedToken { position }) ==> position < hi,
        match r {
            Ok(None) => gram_parts(t.text(), j as int, hi as int) == Ok::<(Seq<SelView>, int), ParseError>((seq![], j as int)),
            Ok(Some((p, e))) => j < e <= hi && gram_parts(t.text(), j as int, hi as int)
                == prepend(seq![sel_view(p)], gram_parts(t.text(), e as int, hi as int)),
            Err(x) => gram_parts(t.text(), j as int, hi as int) == Err::<(Seq<SelView>, int), ParseError>(x),
        },
    decreases hi - j, 0nat,
{
    if j >= hi {
        return Ok(None);
    }
    let c = t.chars[j];
    if c == '*' {
        Ok(Some((Selector::AllSelector, j + 1)))
    } else if c == '.' || c == '#' {
        let e = name_end(t, j + 1, hi);
        if e == j + 1 {
            return Err(unexpected(e, hi));
        }
        let name = owned(t, j + 1, e);
        Ok(Some((if c == '.' { Selector::Class { class_name: name } } else { Selector::Id { id: name } }, e)))
    } else if c == '[' {
        let e = name_end(t, j + 1, hi);
        if e == j + 1 {
            return Err(unexpected(e, hi));
        }
        let name = owned(t, j + 1, e);
        let close = find_char(t, e, hi, ']');
        if close >= hi {
            return Err(ParseError::UnexpectedEof);
        }
        let value = if t.chars[e] == '=' {
            Some(owned(t, e + 1, close))
        } else if e == close {
            None
        } else {
            return Err(unexpected(e, hi));
        };
        Ok(Some((Selector::Attribute { name, value }, close + 1)))
    } else if c == ':' {
        let ns = if at(t, j + 1, hi, ':') { j + 2 } else { j + 1 };
        let e = name_end(t, ns, hi);
        if e == ns {
            return Err(unexpected(e, hi));
        }
        if at(t, e, hi, '(') {
            if e - j == 4 && t.chars[j + 1] == 'n' && t.chars[j + 2] == 'o' && t.chars[j + 3] == 't' {
                let (inner, k) = parse_group(t, e + 1, hi)?;
                if !at(t, k, hi, ')') {
                    return Err(unexpected(k, hi));
                }
                Ok(Some((Selector::Not(Box::new(inner)), k + 1)))
            } else {
                let close = find_char(t, e + 1, hi, ')');
                if close >= hi {
                    return Err(ParseError::UnexpectedEof);
                }
                Ok(Some((Selector::PseudoParamElement { name: owned(t, j + 1, e), param: owned(t, e + 1, close) }, close + 1)))
            }
        } else {
            Ok(Some((Selector::PseudoElement { name: owned(t, j + 1, e) }, e)))
        }
    } else if name_char(c) {
        let e = name_end(t, j, hi);
        Ok(Some((Selector::Element { tag_name: owned(t, j, e) }, e)))
    } else {
        Ok(None)
    }
}

/// `name: value;` pairs from `i` up to and including the closing `}`.
fn parse_declarations(t: &Tokenizer, i: usize, hi: usize) -> (r: Result<(Vec<Declaration>, usize), ParseError>)
    requires
        t.wf(),
        i <= hi <= t.text().len(),
    ensures
        r matches Ok((_, j)) ==> i < j <= hi,
        r matches Err(ParseError::UnexpectedToken { position }) ==> position < hi,
        decls_result(r) == gram_declarations(t.text(), i as int, hi as int),
{
    let mut declarations: Vec<Declaration> = Vec::new();
    let mut j = i;
    loop
        invariant
            t.wf(),
            i <= j <= hi <= t.text().len(),
            gram_declarations(t.text(), i as int, hi as int)
                == prepend(decls_view(declarations@), gram_declarations(t.text(), j as int, hi as int)),
        decreases hi - j,
    {
        let j0 = j;
        j = skip_ws(t, j, hi);
        if j >= hi {
            return Err(ParseError::UnexpectedEof);
        }
        if t.chars[j] == '}' {
            assert(decls_view(declarations@) + seq![] =~= decls_view(declarations@));
            return Ok((declarations, j + 1));
        }
        let e = name_end(t, j, hi);
        if e == j {
            return Err(unexpected(j, hi));
        }
        let colon = skip_ws(t, e, hi);
        if !at(t, colon, hi, ':') {
            return Err(unexpected(colon, hi));
        }
        let vstart = skip_ws(t, colon + 1, hi);
        let mut vend = vstart;
        while vend < hi && t.chars[vend] != ';' && t.chars[vend] != '}'
            invariant
                t.wf(),
                vstart <= vend <= hi <= t.text().len(),
                value_end(t.text(), vstart as int, hi as int) == value_end(t.text(), vend as int, hi as int),
            decreases hi - vend,
        {
            vend = vend + 1;
        }
        if vend >= hi {
            return Err(ParseError::UnexpectedEof);
        }
        let mut trimmed = vend;
        while trimmed > vstart && space(t.chars[trimmed - 1])
            invariant
                t.wf(),
                vstart <= trimmed <= vend < hi <= t.text().len(),
                trim_end(t.text(), vstart as int, vend as int) == trim_end(t.text(), vstart as int, trimmed as int),
            decreases trimmed,
        {
            trimmed = trimmed - 1;
        }
        let d = Declaration { name: owned(t, j, e), value: owned(t, vstart, trimmed) };
        let next = if t.chars[vend] == ';' { vend + 1 } else { vend };
        proof {
            lemma_prepend_push(decls_view(declarations@), (d.name@, d.value@), gram_declarations(t.text(), next as int, hi as int));
            assert(decls_view(declarations@.push(d)) =~= decls_view(declarations@).push((d.name@, d.value@)));
            assert(gram_declarations(t.text(), j0 as int, hi as int)
                == prepend(seq![(d.name@, d.value@)], gram_declarations(t.text(), next as int, hi as int)));
        }
        declarations.push(d);
        j = next;
    }
}

/// The style rules of the text between `lo` and `hi`.
pub fn parse_sheet(t: &Tokenizer, lo: usize, hi: usize) -> (r: Result<Sheet, ParseError>)
    requires
        t.wf(),
        lo <= hi <= t.text().len(),
    ensures
        r matches Ok(sheet) ==> forall|i: int| 0 <= i < sheet.rules@.len() ==> (#[trigger] sheet.rules@[i]) is Style,
        r matches Err(ParseError::UnexpectedToken { position }) ==> position < hi,
        sheet_result(r) == gram_sheet(t.text(), lo as int, hi as int),
{
    let mut rules: Vec<Rule> = Vec::new();
    let mut j = skip_ws(t, lo, hi);
    let ghost first = j as int;
    while j < hi
        invariant
            t.wf(),
            lo <= j <= hi <= t.text().len(),
            forall|i: int| 0 <= i < rules@.len() ==> (#[trigger] rules@[i]) is Style,
            first == ws_end(t.text(), lo as int, hi as int),
            gram_rules(t.text(), first, hi as int) == prepend(rules_view(rules@), gram_rules(t.text(), j as int, hi as int)),
        decreases hi - j,
    {
        let (selector, k) = parse_group(t, j, hi)?;
        if !at(t, k, hi, '{') {
            return Err(unexpected(k, hi));
        }
        let (declarations, e) = parse_declarations(t, k + 1, hi)?;
        let next = skip_ws(t, e, hi);
        let rule = Rule::Style(StyleRule { selector, declarations });
        proof {
            let rv = (sel_view(selector), decls_view(declarations@));
            lemma_prepend_push(rules_view(rules@), rv, gram_rules(t.text(), next as int, hi as int));
            assert(rules_view(rules@.push(rule)) =~= rules_view(rules@).push(rv));
        }
        rules.push(rule);
        j = next;
    }
    assert(rules_view(rules@) + seq![] =~= rules_view(rules@));
    Ok(Sheet { rules })
}

/// Parses a style sheet made of style rules.
pub fn parse(source: &str) -> (r: Result<Sheet, ParseError>)
    ensures
        r matches Ok(sheet) ==> forall|i: int| 0 <= i < sheet.rules@.len() ==> (#[trigger] sheet.rules@[i]) is Style,
        r matches Err(ParseError::UnexpectedToken { position }) ==> position < source@.len(),
        sheet_result(r) == gram_sheet(source@, 0, source@.len() as int),
{
    let t = Tokenizer::new(source);
    let n = t.chars.len();
    parse_sheet(&t, 0, n)
}

} // verus!
