use vstd::prelude::*;
use crate::css_ast::{Selector, selector_text, combo_text, join2};

verus! {

/// The attribute selector that marks elements of the component with scope `scope`:
/// `[data-pc-<scope>]`.
pub open spec fn scope_suffix(scope: Seq<char>) -> Seq<char> {
    seq!['[', 'd', 'a', 't', 'a', '-', 'p', 'c', '-'] + scope + seq![']']
}

/// Pseudo-classes and negations attach to the element that a compound selects.
pub open spec fn is_pseudo(sel: Selector) -> bool {
    sel is PseudoElement || sel is PseudoParamElement || sel is Not
}

/// `sel` rewritten so that every element it names must also carry the scope
/// marker `suf`.
pub open spec fn scoped(sel: Selector, suf: Seq<char>) -> Seq<char>
    decreases sel,
{
    match sel {
        Selector::AllSelector => suf,
        Selector::Class { .. } => selector_text(sel) + suf,
        Selector::Id { .. } => selector_text(sel) + suf,
        Selector::Element { .. } => selector_text(sel) + suf,
        Selector::Attribute { .. } => selector_text(sel) + suf,
        Selector::PseudoElement { .. } => suf + selector_text(sel),
        Selector::PseudoParamElement { .. } => suf + selector_text(sel),
        Selector::Not(inner) => suf + seq![':', 'n', 'o', 't', '('] + scoped(*inner, suf) + seq![')'],
        Selector::Descendent { parent, descendent } => join2(scoped(*parent, suf), seq![' '], scoped(*descendent, suf)),
        Selector::Child { parent, child } => join2(scoped(*parent, suf), seq![' ', '>', ' '], scoped(*child, suf)),
        Selector::Adjacent { selector, next_sibling_selector } => join2(scoped(*selector, suf), seq![' ', '+', ' '], scoped(*next_sibling_selector, suf)),
        Selector::Sibling { selector, sibling_selector } => join2(scoped(*selector, suf), seq![' ', '~', ' '], scoped(*sibling_selector, suf)),
        Selector::Group { selectors } => scoped_group(selectors@, suf),
        Selector::Combo { selectors } => scoped_combo(selectors@, suf),
    }
}

/// The text of a pseudo part after the scope marker; a negation scopes its
/// argument.
pub open spec fn pseudo_text(sel: Selector, suf: Seq<char>) -> Seq<char>
    decreases sel,
{
    match sel {
        Selector::Not(inner) => seq![':', 'n', 'o', 't', '('] + scoped(*inner, suf) + seq![')'],
        _ => selector_text(sel),
    }
}

/// A compound: its members' texts side by side with the scope marker placed
/// once, after the simple selectors and before the pseudo parts that end it.
/// Only those trailing pseudo parts are rewritten (a negation's argument gets
/// scoped); a pseudo part that stands before a simple selector, as in
/// `:not(.b).a`, is part of the text in front of the marker and is kept as
/// written, so that the marker still follows the element's own selectors.
pub open spec fn scoped_combo(sels: Seq<Selector>, suf: Seq<char>) -> Seq<char>
    decreases sels,
{
    if sels.len() == 0 {
        suf
    } else if is_pseudo(sels.last()) {
        scoped_combo(sels.drop_last(), suf) + pseudo_text(sels.last(), suf)
    } else {
        combo_text(sels) + suf
    }
}

/// Where the run of pseudo parts that ends a compound begins.
pub open spec fn pseudo_tail_start(sels: Seq<Selector>) -> int
    decreases sels.len(),
{
    if sels.len() == 0 {
        0
    } else if is_pseudo(sels.last()) {
        pseudo_tail_start(sels.drop_last())
    } else {
        sels.len() as int
    }
}

pub open spec fn pseudo_seq_text(sels: Seq<Selector>, suf: Seq<char>) -> Seq<char>
    decreases sels,
{
    if sels.len() == 0 {
        seq![]
    } else {
        pseudo_seq_text(sels.drop_last(), suf) + pseudo_text(sels.last(), suf)
    }
}

/// Each member scoped on its own, joined by `", "`.
pub open spec fn scoped_group(sels: Seq<Selector>, suf: Seq<char>) -> Seq<char>
    decreases sels,
{
    if sels.len() == 0 {
        seq![]
    } else if sels.len() == 1 {
        scoped(sels[0], suf)
    } else {
        join2(scoped_group(sels.drop_last(), suf), seq![',', ' '], scoped(sels.last(), suf))
    }
}

pub proof fn lemma_pseudo_tail_start_bounds(sels: Seq<Selector>)
    ensures
        0 <= pseudo_tail_start(sels) <= sels.len(),
        forall|i: int| pseudo_tail_start(sels) <= i < sels.len() ==> is_pseudo(#[trigger] sels[i]),
    decreases sels.len(),
{
    if sels.len() > 0 && is_pseudo(sels.last()) {
        lemma_pseudo_tail_start_bounds(sels.drop_last());
        assert forall|i: int| pseudo_tail_start(sels) <= i < sels.len() implies is_pseudo(#[trigger] sels[i]) by {
            if i < sels.len() - 1 {
                assert(sels[i] == sels.drop_last()[i]);
            }
        }
    }
}

pub proof fn lemma_scoped_combo_split(sels: Seq<Selector>, suf: Seq<char>)
    ensures
        scoped_combo(sels, suf) == combo_text(sels.subrange(0, pseudo_tail_start(sels)))
            + suf + pseudo_seq_text(sels.subrange(pseudo_tail_start(sels), sels.len() as int), suf),
    decreases sels.len(),
{
    let k = pseudo_tail_start(sels);
    if sels.len() > 0 && is_pseudo(sels.last()) {
        let dl = sels.drop_last();
        lemma_scoped_combo_split(dl, suf);
        lemma_pseudo_tail_start_bounds(dl);
        let tail = sels.subrange(k, sels.len() as int);
        assert(tail.drop_last() =~= dl.subrange(k, dl.len() as int));
        assert(tail.last() == sels.last());
        assert(sels.subrange(0, k) =~= dl.subrange(0, k));
    } else if sels.len() > 0 {
        assert(sels.subrange(0, k) =~= sels);
        assert(sels.subrange(k, sels.len() as int) =~= Seq::<Selector>::empty());
    } else {
        assert(sels.subrange(0, k) =~= Seq::<Selector>::empty());
        assert(sels.subrange(k, sels.len() as int) =~= Seq::<Selector>::empty());
    }
}

/// A compound of simple selectors names one element: its members' texts stand
/// side by side and the scope marker is appended once, at the end.
pub proof fn lemma_compound_scoped_once(sels: Seq<Selector>, suf: Seq<char>)
    requires
        sels.len() > 0,
        forall|i: int| 0 <= i < sels.len() ==> !is_pseudo(#[trigger] sels[i]),
    ensures
        scoped_combo(sels, suf) == combo_text(sels) + suf,
{
}

/// A combinator relates two elements: each side is scoped on its own and the
/// combinator's text stands between them.
pub proof fn lemma_combinator_scopes_both_sides(sel: Selector, suf: Seq<char>)
    requires
        sel is Descendent || sel is Child || sel is Adjacent || sel is Sibling,
    ensures
        sel matches Selector::Descendent { parent, descendent }
            ==> scoped(sel, suf) == scoped(*parent, suf) + seq![' '] + scoped(*descendent, suf),
        sel matches Selector::Child { parent, child }
            ==> scoped(sel, suf) == scoped(*parent, suf) + seq![' ', '>', ' '] + scoped(*child, suf),
        sel matches Selector::Adjacent { selector, next_sibling_selector }
            ==> scoped(sel, suf) == scoped(*selector, suf) + seq![' ', '+', ' '] + scoped(*next_sibling_selector, suf),
        sel matches Selector::Sibling { selector, sibling_selector }
            ==> scoped(sel, suf) == scoped(*selector, suf) + seq![' ', '~', ' '] + scoped(*sibling_selector, suf),
{
}

/// A simple selector keeps its text and gains the scope marker after it; so a
/// descendant combinator between two simple selectors carries the marker twice.
pub proof fn lemma_simple_descendant_scoped_twice(parent: Selector, descendent: Selector, suf: Seq<char>)
    requires
        parent is Class || parent is Id || parent is Element || parent is Attribute,
        descendent is Class || descendent is Id || descendent is Element || descendent is Attribute,
    ensures
        scoped(Selector::Descendent { parent: Box::new(parent), descendent: Box::new(descendent) }, suf)
            == selector_text(parent) + suf + seq![' '] + selector_text(descendent) + suf,
{
    let d = Selector::Descendent { parent: Box::new(parent), descendent: Box::new(descendent) };
    assert(scoped(parent, suf) == selector_text(parent) + suf);
    assert(scoped(descendent, suf) == selector_text(descendent) + suf);
    assert(scoped(d, suf) == join2(scoped(parent, suf), seq![' '], scoped(descendent, suf)));
    assert(scoped(d, suf) =~= selector_text(parent) + suf + seq![' '] + selector_text(descendent) + suf);
}

/// Scoping a group scopes each member independently and joins them with `", "`.
pub proof fn lemma_group_distributes(a: Selector, b: Selector, group: Selector, suf: Seq<char>)
    requires
        group matches Selector::Group { selectors } && selectors@ == seq![a, b],
    ensures
        scoped(group, suf) == scoped(a, suf) + seq![',', ' '] + scoped(b, suf),
{
    if let Selector::Group { selectors } = group {
        let s = selectors@;
        assert(s.drop_last() =~= seq![a]);
        assert(s.last() == b);
        assert(seq![a][0] == a);
        assert(scoped_group(seq![a], suf) == scoped(a, suf));
        assert(scoped_group(s, suf) == join2(scoped_group(s.drop_last(), suf), seq![',', ' '], scoped(b, suf)));
    }
}

/// Scoping a group of any length scopes each member independently: the result
/// is the first `n - 1` members' scoped group, `", "`, and the last member scoped.
pub proof fn lemma_group_appends_member(sels: Seq<Selector>, s: Selector, suf: Seq<char>)
    requires
        sels.len() > 0,
    ensures
        scoped_group(sels.push(s), suf) == scoped_group(sels, suf) + seq![',', ' '] + scoped(s, suf),
{
    assert(sels.push(s).drop_last() =~= sels);
}

/// How many times `p` occurs in `t` at or after position `i`.
pub open spec fn occurrences(t: Seq<char>, p: Seq<char>, i: int) -> nat
    decreases t.len() - i,
{
    if i < 0 || i >= t.len() || i + p.len() > t.len() {
        0
    } else {
        (if t.subrange(i, i + p.len()) == p { 1nat } else { 0nat }) + occurrences(t, p, i + 1)
    }
}

/// No occurrence starts where the first character of `p` is absent.
proof fn lemma_no_start(t: Seq<char>, p: Seq<char>, i: int, j: int)
    requires
        p.len() > 0,
        0 <= i <= j,
        forall|k: int| i <= k < j && k < t.len() ==> t[k] != p[0],
    ensures
        occurrences(t, p, i) == occurrences(t, p, j),
    decreases j - i,
{
    if i < j {
        if i + p.len() <= t.len() {
            assert(t.subrange(i, i + p.len())[0] == t[i]);
        }
        lemma_no_start(t, p, i + 1, j);
    }
}

pub open spec fn has_no_bracket(t: Seq<char>) -> bool {
    forall|k: int| 0 <= k < t.len() ==> t[k] != '['
}

proof fn lemma_ends_with_marker(t: Seq<char>, a: Seq<char>, suf: Seq<char>)
    requires
        t == a + suf,
        suf.len() > 0,
    ensures
        occurrences(t, suf, a.len() as int) == 1,
{
    assert(t.subrange(a.len() as int, a.len() + suf.len() as int) =~= suf);
    assert(occurrences(t, suf, a.len() as int + 1) == 0);
}

/// A compound of simple selectors whose text holds no `[` carries the scope
/// marker exactly once.
pub proof fn lemma_compound_marker_once(sels: Seq<Selector>, scope: Seq<char>)
    requires
        sels.len() > 0,
        forall|i: int| 0 <= i < sels.len() ==> !is_pseudo(#[trigger] sels[i]),
        has_no_bracket(combo_text(sels)),
    ensures
        occurrences(scoped_combo(sels, scope_suffix(scope)), scope_suffix(scope), 0) == 1,
{
    let suf = scope_suffix(scope);
    let a = combo_text(sels);
    lemma_compound_scoped_once(sels, suf);
    let t = a + suf;
    assert(suf[0] == '[');
    lemma_no_start(t, suf, 0, a.len() as int);
    lemma_ends_with_marker(t, a, suf);
}

/// A descendant combinator between two simple selectors whose texts hold no `[`
/// carries the scope marker exactly twice, when the scope holds no `[` either.
pub proof fn lemma_descendant_markers_twice(parent: Selector, descendent: Selector, scope: Seq<char>)
    requires
        parent is Class || parent is Id || parent is Element,
        descendent is Class || descendent is Id || descendent is Element,
        has_no_bracket(selector_text(parent)),
        has_no_bracket(selector_text(descendent)),
        has_no_bracket(scope),
    ensures
        occurrences(scoped(Selector::Descendent { parent: Box::new(parent), descendent: Box::new(descendent) },
            scope_suffix(scope)), scope_suffix(scope), 0) == 2,
{
    let suf = scope_suffix(scope);
    let a = selector_text(parent);
    let b = selector_text(descendent);
    lemma_simple_descendant_scoped_twice(parent, descendent, suf);
    let t = a + suf + seq![' '] + b + suf;
    let n1 = a.len() as int;
    let n2 = n1 + suf.len();
    let n3 = n2 + 1 + b.len();
    assert(suf[0] == '[');
    assert forall|k: int| 0 <= k < n1 && k < t.len() implies t[k] != suf[0] by {
        assert(t[k] == a[k]);
    }
    lemma_no_start(t, suf, 0, n1);
    assert(t.subrange(n1, n1 + suf.len()) =~= suf);
    assert forall|k: int| n1 + 1 <= k < n3 && k < t.len() implies t[k] != suf[0] by {
        if k < n2 {
            assert(t[k] == suf[k - n1]);
            if k - n1 >= 9 && k - n1 < 9 + scope.len() {
                assert(suf[k - n1] == scope[k - n1 - 9]);
            }
        } else if k == n2 {
            assert(t[k] == ' ');
        } else {
            assert(t[k] == b[k - n2 - 1]);
        }
    }
    lemma_no_start(t, suf, n1 + 1, n3);
    assert(t =~= (a + suf + seq![' '] + b) + suf);
    lemma_ends_with_marker(t, a + suf + seq![' '] + b, suf);
    assert(occurrences(t, suf, n1) == 1 + occurrences(t, suf, n1 + 1));
}

} // verus!
