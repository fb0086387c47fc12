use vstd::prelude::*;

use super::ast::{display, list_items, SpecSExp};

verus! {

/// How lists are displayed, in terms of the display of their items alone:
/// the empty list is `( )`; one more item `x` at the end goes before the
/// closing ` )`, after a space; so a one-element list `(x)` shows as
/// `( x )`, parentheses kept.
pub proof fn law_list_display(v: Seq<SpecSExp>, x: SpecSExp)
    ensures
        display(SpecSExp::List(Seq::empty())) == seq!['(', ' ', ')'],
        display(SpecSExp::List(v.push(x))) == display(SpecSExp::List(v)).subrange(
            0,
            display(SpecSExp::List(v)).len() - 2,
        ) + seq![' '] + display(x) + seq![' ', ')'],
        display(SpecSExp::List(seq![x])) == seq!['(', ' '] + display(x) + seq![' ', ')'],
{
    assert(list_items(Seq::<SpecSExp>::empty()) == Seq::<char>::empty());
    assert(display(SpecSExp::List(Seq::empty())) =~= seq!['(', ' ', ')']);
    let d = display(SpecSExp::List(v));
    assert(v.push(x).drop_last() =~= v);
    assert(list_items(v.push(x)) == list_items(v) + seq![' '] + display(x));
    assert(d.subrange(0, d.len() - 2) =~= seq!['('] + list_items(v));
    assert(display(SpecSExp::List(v.push(x))) =~= d.subrange(0, d.len() - 2) + seq![' '] + display(x)
        + seq![' ', ')']);
    let e = Seq::<SpecSExp>::empty();
    assert(e.push(x) =~= seq![x]);
    assert(list_items(e) == Seq::<char>::empty());
    assert(seq![x].drop_last() =~= e);
    assert(list_items(seq![x]) =~= seq![' '] + display(x));
    assert(display(SpecSExp::List(seq![x])) =~= seq!['(', ' '] + display(x) + seq![' ', ')']);
}

} // verus!
