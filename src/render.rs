use vstd::prelude::*;
use crate::markup::{Expression, Node, Attribute, AttributeValue};
use crate::css_ast::{Sheet, Rule, StyleRule, Declaration, KeyframeRule, ConditionRule, selector_text};
use crate::evaluator::selector_to_string;

verus! {

/// ` name` or ` name="value"`.
pub open spec fn attribute_source(a: Attribute) -> Seq<char> {
    match a.value {
        Some(v) => match v.item {
            AttributeValue::String(s) => seq![' '] + a.name@ + seq!['=', '"'] + s.value@ + seq!['"'],
        },
        None => seq![' '] + a.name@,
    }
}

pub open spec fn attributes_source(attrs: Seq<Expression<Attribute>>) -> Seq<char>
    decreases attrs.len(),
{
    if attrs.len() == 0 {
        seq![]
    } else {
        attributes_source(attrs.drop_last()) + attribute_source(attrs.last().item)
    }
}

/// `  name: value;` on a line of its own.
pub open spec fn declaration_source(d: Declaration) -> Seq<char> {
    seq![' ', ' '] + d.name@ + seq![':', ' '] + d.value@ + seq![';', '\n']
}

pub open spec fn declarations_source(ds: Seq<Declaration>) -> Seq<char>
    decreases ds.len(),
{
    if ds.len() == 0 {
        seq![]
    } else {
        declarations_source(ds.drop_last()) + declaration_source(ds.last())
    }
}

/// `head  {`, the declarations, `}`.
pub open spec fn block_source(head: Seq<char>, ds: Seq<Declaration>) -> Seq<char> {
    head + seq![' ', ' ', '{', '\n'] + declarations_source(ds) + seq!['}', '\n']
}

pub open spec fn style_rules_source(rs: Seq<StyleRule>) -> Seq<char>
    decreases rs.len(),
{
    if rs.len() == 0 {
        seq![]
    } else {
        style_rules_source(rs.drop_last()) + block_source(selector_text(rs.last().selector), rs.last().declarations@)
    }
}

pub open spec fn keyframes_source(rs: Seq<KeyframeRule>) -> Seq<char>
    decreases rs.len(),
{
    if rs.len() == 0 {
        seq![]
    } else {
        keyframes_source(rs.drop_last()) + block_source(rs.last().key@, rs.last().declarations@)
    }
}

/// `@name condition {`, the nested rules, `}`.
pub open spec fn condition_source(c: ConditionRule) -> Seq<char> {
    seq!['@'] + c.name@ + seq![' '] + c.condition_text@ + seq![' ', '{', '\n'] + style_rules_source(c.rules@)
        + seq!['}', '\n']
}

pub open spec fn rule_source(r: Rule) -> Seq<char> {
    match r {
        Rule::Charset(s) => seq!['@', 'c', 'h', 'a', 'r', 's', 'e', 't', ' '] + s@ + seq![';', '\n'],
        Rule::Namespace(s) => seq!['@', 'n', 'a', 'm', 'e', 's', 'p', 'a', 'c', 'e', ' '] + s@ + seq![';', '\n'],
        Rule::FontFamily(f) => block_source(seq!['@', 'f', 'o', 'n', 't', '-', 'f', 'a', 'c', 'e'], f.declarations@),
        Rule::Style(s) => block_source(selector_text(s.selector), s.declarations@),
        Rule::Keyframes(k) => seq!['@', 'k', 'e', 'y', 'f', 'r', 'a', 'm', 'e', 's', ' '] + k.name@
            + seq![' ', '{', '\n'] + keyframes_source(k.rules@) + seq!['}', '\n'],
        Rule::Media(c) => condition_source(c),
        Rule::Supports(c) => condition_source(c),
        Rule::Document(c) => condition_source(c),
        Rule::Page(c) => condition_source(c),
    }
}

pub open spec fn rules_source(rs: Seq<Rule>) -> Seq<char>
    decreases rs.len(),
{
    if rs.len() == 0 {
        seq![]
    } else {
        rules_source(rs.drop_last()) + rule_source(rs.last())
    }
}

/// The text of a style sheet: each rule as a block.
pub open spec fn sheet_source(s: Sheet) -> Seq<char> {
    rules_source(s.rules@)
}

/// The text of a markup node; an element is always written with its closing tag.
pub open spec fn node_source(n: Node) -> Seq<char>
    decreases n,
{
    match n {
        Node::Text(s) => s@,
        Node::Slot(s) => seq!['{', '{'] + s@ + seq!['}', '}'],
        Node::Element(e) => seq!['<'] + e.tag_name@ + attributes_source(e.attributes@) + seq!['>']
            + children_source(e.children@) + seq!['<', '/'] + e.tag_name@ + seq!['>'],
        Node::StyleElement(e) => seq!['<', 's', 't', 'y', 'l', 'e'] + attributes_source(e.attributes@) + seq!['>']
            + sheet_source(e.sheet) + seq!['<', '/', 's', 't', 'y', 'l', 'e', '>'],
        Node::Fragment(f) => children_source(f.children@),
    }
}

pub open spec fn children_source(cs: Seq<Expression<Node>>) -> Seq<char>
    decreases cs,
{
    if cs.len() == 0 {
        seq![]
    } else {
        children_source(cs.drop_last()) + node_source(cs.last().item)
    }
}

fn attributes_to_string(attrs: &Vec<Expression<Attribute>>) -> (r: String)
    ensures
        r@ == attributes_source(attrs@),
{
    let mut r = String::new();
    let mut i: usize = 0;
    while i < attrs.len()
        invariant
            i <= attrs@.len(),
            r@ == attributes_source(attrs@.subrange(0, i as int)),
        decreases attrs@.len() - i,
    {
        proof {
            reveal_strlit(" ");
            reveal_strlit("=\"");
            reveal_strlit("\"");
        }
        let a = &attrs[i].item;
        r.append(" ");
        r.append(a.name);
        match &a.value {
            Some(v) => match &v.item {
                AttributeValue::String(s) => {
                    r.append("=\"");
                    r.append(s.value);
                    r.append("\"");
                },
            },
            None => {},
        }
        assert(attrs@.subrange(0, i + 1).drop_last() =~= attrs@.subrange(0, i as int));
        assert(attrs@.subrange(0, i + 1).last() == attrs@[i as int]);
        i = i + 1;
    }
    assert(attrs@.subrange(0, i as int) =~= attrs@);
    r
}

fn declarations_to_string(ds: &Vec<Declaration>) -> (r: String)
    ensures
        r@ == declarations_source(ds@),
{
    let mut r = String::new();
    let mut i: usize = 0;
    while i < ds.len()
        invariant
            i <= ds@.len(),
            r@ == declarations_source(ds@.subrange(0, i as int)),
        decreases ds@.len() - i,
    {
        proof {
            reveal_strlit("  ");
            reveal_strlit(": ");
            reveal_strlit(";\n");
        }
        r.append("  ");
        r.append(ds[i].name.as_str());
        r.append(": ");
        r.append(ds[i].value.as_str());
        r.append(";\n");
        assert(ds@.subrange(0, i + 1).drop_last() =~= ds@.subrange(0, i as int));
        assert(ds@.subrange(0, i + 1).last() == ds@[i as int]);
        i = i + 1;
    }
    assert(ds@.subrange(0, i as int) =~= ds@);
    r
}

fn block_to_string(head: String, ds: &Vec<Declaration>) -> (r: String)
    ensures
        r@ == block_source(head@, ds@),
{
    proof {
        reveal_strlit("  {\n");
        reveal_strlit("}\n");
    }
    let d = declarations_to_string(ds);
    head.concat("  {\n").concat(d.as_str()).concat("}\n")
}

fn style_rules_to_string(rs: &Vec<StyleRule>) -> (r: String)
    ensures
        r@ == style_rules_source(rs@),
{
    let mut r = String::new();
    let mut i: usize = 0;
    while i < rs.len()
        invariant
            i <= rs@.len(),
            r@ == style_rules_source(rs@.subrange(0, i as int)),
        decreases rs@.len() - i,
    {
        let b = block_to_string(selector_to_string(&rs[i].selector), &rs[i].declarations);
        r.append(b.as_str());
        assert(rs@.subrange(0, i + 1).drop_last() =~= rs@.subrange(0, i as int));
        assert(rs@.subrange(0, i + 1).last() == rs@[i as int]);
        i = i + 1;
    }
    assert(rs@.subrange(0, i as int) =~= rs@);
    r
}

fn keyframes_to_string(rs: &Vec<KeyframeRule>) -> (r: String)
    ensures
        r@ == keyframes_source(rs@),
{
    let mut r = String::new();
    let mut i: usize = 0;
    while i < rs.len()
        invariant
            i <= rs@.len(),
            r@ == keyframes_source(rs@.subrange(0, i as int)),
        decreases rs@.len() - i,
    {
        let b = block_to_string(rs[i].key.clone(), &rs[i].declarations);
        r.append(b.as_str());
        assert(rs@.subrange(0, i + 1).drop_last() =~= rs@.subrange(0, i as int));
        assert(rs@.subrange(0, i + 1).last() == rs@[i as int]);
        i = i + 1;
    }
    assert(rs@.subrange(0, i as int) =~= rs@);
    r
}

fn condition_to_string(c: &ConditionRule) -> (r: String)
    ensures
        r@ == condition_source(*c),
{
    proof {
        reveal_strlit("@");
        reveal_strlit(" ");
        reveal_strlit(" {\n");
        reveal_strlit("}\n");
    }
    let body = style_rules_to_string(&c.rules);
    String::from_str("@").concat(c.name.as_str()).concat(" ").concat(c.condition_text.as_str()).concat(" {\n")
        .concat(body.as_str()).concat("}\n")
}

fn rule_to_string(rule: &Rule) -> (r: String)
    ensures
        r@ == rule_source(*rule),
{
    proof {
        reveal_strlit("@charset ");
        reveal_strlit("@namespace ");
        reveal_strlit("@font-face");
        reveal_strlit("@keyframes ");
        reveal_strlit(";\n");
        reveal_strlit(" {\n");
        reveal_strlit("}\n");
    }
    match rule {
        Rule::Charset(s) => String::from_str("@charset ").concat(s.as_str()).concat(";\n"),
        Rule::Namespace(s) => String::from_str("@namespace ").concat(s.as_str()).concat(";\n"),
        Rule::FontFamily(f) => block_to_string(String::from_str("@font-face"), &f.declarations),
        Rule::Style(s) => block_to_string(selector_to_string(&s.selector), &s.declarations),
        Rule::Keyframes(k) => {
            let body = keyframes_to_string(&k.rules);
            String::from_str("@keyframes ").concat(k.name.as_str()).concat(" {\n").concat(body.as_str()).concat("}\n")
        },
        Rule::Media(c) | Rule::Supports(c) | Rule::Document(c) | Rule::Page(c) => condition_to_string(c),
    }
}

/// The text of a style sheet (see `sheet_source`).
pub fn sheet_to_string(sheet: &Sheet) -> (r: String)
    ensures
        r@ == sheet_source(*sheet),
{
    let mut r = String::new();
    let mut i: usize = 0;
    while i < sheet.rules.len()
        invariant
            i <= sheet.rules@.len(),
            r@ == rules_source(sheet.rules@.subrange(0, i as int)),
        decreases sheet.rules@.len() - i,
    {
        let b = rule_to_string(&sheet.rules[i]);
        r.append(b.as_str());
        assert(sheet.rules@.subrange(0, i + 1).drop_last() =~= sheet.rules@.subrange(0, i as int));
        assert(sheet.rules@.subrange(0, i + 1).last() == sheet.rules@[i as int]);
        i = i + 1;
    }
    assert(sheet.rules@.subrange(0, i as int) =~= sheet.rules@);
    r
}

proof fn lemma_child_decreases<'a>(n: Node<'a>, cs: Vec<Expression<Node<'a>>>, i: int)
    requires
        (n matches Node::Element(e) && e.children == cs) || (n matches Node::Fragment(f) && f.children == cs),
        0 <= i < cs@.len(),
    ensures
        decreases_to!(n => cs@[i].item),
{
    broadcast use vstd::std_specs::vec::axiom_vec_decreases_to_view, vstd::seq::axiom_seq_index_decreases;
    match n {
        Node::Element(e) => {
            assert(decreases_to!(n => n->Element_0));
            assert(decreases_to!(e => e.children));
        },
        Node::Fragment(f) => {
            assert(decreases_to!(n => n->Fragment_0));
            assert(decreases_to!(f => f.children));
        },
        _ => {},
    }
    assert(decreases_to!(cs => cs@));
    assert(decreases_to!(cs@ => cs@[i]));
    assert(decreases_to!(cs@[i] => cs@[i].item));
}

fn children_to_string<'a>(n: &Node<'a>, cs: &Vec<Expression<Node<'a>>>) -> (r: String)
    requires
        (n matches Node::Element(e) && e.children == *cs) || (n matches Node::Fragment(f) && f.children == *cs),
    ensures
        r@ == children_source(cs@),
    decreases *n, 0nat,
{
    let mut r = String::new();
    let mut i: usize = 0;
    while i < cs.len()
        invariant
            (n matches Node::Element(e) && e.children == *cs) || (n matches Node::Fragment(f) && f.children == *cs),
            i <= cs@.len(),
            r@ == children_source(cs@.subrange(0, i as int)),
        decreases cs@.len() - i,
    {
        proof { lemma_child_decreases(*n, *cs, i as int); }
        let t = node_to_string(&cs[i].item);
        r.append(t.as_str());
        assert(cs@.subrange(0, i + 1).drop_last() =~= cs@.subrange(0, i as int));
        assert(cs@.subrange(0, i + 1).last() == cs@[i as int]);
        i = i + 1;
    }
    assert(cs@.subrange(0, i as int) =~= cs@);
    r
}

/// The text of a markup node (see `node_source`).
pub fn node_to_string<'a>(node: &Node<'a>) -> (r: String)
    ensures
        r@ == node_source(*node),
    decreases *node, 1nat,
{
    proof {
        reveal_strlit("{{");
        reveal_strlit("}}");
        reveal_strlit("<");
        reveal_strlit(">");
        reveal_strlit("</");
        reveal_strlit("<style");
        reveal_strlit("</style>");
    }
    match node {
        Node::Text(s) => String::from_str(s),
        Node::Slot(s) => String::from_str("{{").concat(s).concat("}}"),
        Node::Element(e) => {
            let a = attributes_to_string(&e.attributes);
            let c = children_to_string(node, &e.children);
            String::from_str("<").concat(e.tag_name).concat(a.as_str()).concat(">").concat(c.as_str())
                .concat("</").concat(e.tag_name).concat(">")
        },
        Node::StyleElement(e) => {
            let a = attributes_to_string(&e.attributes);
            let s = sheet_to_string(&e.sheet);
            String::from_str("<style").concat(a.as_str()).concat(">").concat(s.as_str()).concat("</style>")
        },
        Node::Fragment(f) => children_to_string(node, &f.children),
    }
}

impl<'a> Expression<Node<'a>> {
    /// The source text of the node (see `node_source`).
    pub fn to_string(&self) -> (r: String)
        ensures
            r@ == node_source(self.item),
    {
        node_to_string(&self.item)
    }
}

} // verus!
