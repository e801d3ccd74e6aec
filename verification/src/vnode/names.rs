//! Lists of names (classes, props, style texts) and of event kinds.

use vstd::prelude::*;
use crate::vnode::event_list::VNodeEventType;

verus! {

/// The members of `items` that neither `seen` holds nor an earlier place of
/// `items`: each new member once, where it first occurs.
pub open spec fn firsts<A>(seen: Seq<A>, items: Seq<A>) -> Seq<A>
    decreases items.len(),
{
    if items.len() == 0 {
        Seq::empty()
    } else {
        let earlier = firsts(seen, items.drop_last());
        if seen.contains(items.last()) || earlier.contains(items.last()) {
            earlier
        } else {
            earlier.push(items.last())
        }
    }
}

/// The test "`names` does not hold this name".
pub open spec fn absent_from<A>(names: Seq<A>) -> spec_fn(A) -> bool {
    |name: A| !names.contains(name)
}

/// The names of `current` that `next` lacks, in their order.
pub open spec fn dropped<A>(current: Seq<A>, next: Seq<A>) -> Seq<A> {
    current.filter(absent_from(next))
}

/// What `firsts` yields holds nothing twice, nothing of `seen`, and each
/// member of `items` that `seen` lacks.
pub proof fn lemma_firsts<A>(seen: Seq<A>, items: Seq<A>)
    ensures
        firsts(seen, items).no_duplicates(),
        forall|x: A|
            #![trigger firsts(seen, items).contains(x)]
            firsts(seen, items).contains(x) <==> items.contains(x) && !seen.contains(x),
    decreases items.len(),
{
    if items.len() > 0 {
        let earlier = firsts(seen, items.drop_last());
        let last = items.last();
        lemma_firsts(seen, items.drop_last());
        assert forall|x: A|
            #![trigger firsts(seen, items).contains(x)]
            firsts(seen, items).contains(x) <==> items.contains(x) && !seen.contains(x) by {
            if items.contains(x) {
                let k = choose|k: int| 0 <= k < items.len() && items[k] == x;
                if k < items.len() - 1 {
                    assert(items.drop_last()[k] == x);
                }
            }
            if items.drop_last().contains(x) {
                let k = choose|k: int| 0 <= k < items.len() - 1 && items.drop_last()[k] == x;
                assert(items[k] == x);
            }
            if firsts(seen, items).contains(x) && !earlier.contains(x) {
                let k = choose|k: int|
                    0 <= k < firsts(seen, items).len() && firsts(seen, items)[k] == x;
                assert(x == last);
                assert(items[items.len() - 1] == x);
            }
            if earlier.contains(x) {
                let k = choose|k: int| 0 <= k < earlier.len() && earlier[k] == x;
                if !(seen.contains(last) || earlier.contains(last)) {
                    assert(earlier.push(last)[k] == x);
                }
            }
            if x == last && !seen.contains(x) && !earlier.contains(x) {
                assert(earlier.push(last)[earlier.len() as int] == x);
            }
        }
    }
}

/// Whether `names` holds `name`.
pub fn has_name(names: &Vec<String>, name: &String) -> (found: bool)
    ensures
        found == names.deep_view().contains(name@),
{
    let mut i: usize = 0;
    while i < names.len()
        invariant
            i <= names.len(),
            forall|j: int| 0 <= j < i ==> names.deep_view()[j] != name@,
        decreases names.len() - i,
    {
        if names[i] == *name {
            assert(names.deep_view()[i as int] == name@);
            return true;
        }
        i = i + 1;
    }
    false
}

/// Whether two lists hold the same names in the same order.
pub fn same_names(a: &Vec<String>, b: &Vec<String>) -> (same: bool)
    ensures
        same == (a.deep_view() == b.deep_view()),
{
    if a.len() != b.len() {
        assert(a.deep_view().len() != b.deep_view().len());
        return false;
    }
    let mut i: usize = 0;
    while i < a.len()
        invariant
            i <= a.len(),
            a.len() == b.len(),
            forall|j: int| 0 <= j < i ==> a.deep_view()[j] == b.deep_view()[j],
        decreases a.len() - i,
    {
        if a[i] != b[i] {
            assert(a.deep_view()[i as int] != b.deep_view()[i as int]);
            return false;
        }
        i = i + 1;
    }
    assert(a.deep_view() =~= b.deep_view());
    true
}

/// A copy of `names`.
pub fn copy_names(names: &Vec<String>) -> (copy: Vec<String>)
    ensures
        copy.deep_view() == names.deep_view(),
{
    let mut copy: Vec<String> = Vec::new();
    let mut i: usize = 0;
    while i < names.len()
        invariant
            i <= names.len(),
            copy.len() == i,
            forall|j: int| 0 <= j < i ==> copy.deep_view()[j] == names.deep_view()[j],
        decreases names.len() - i,
    {
        copy.push(names[i].clone());
        i = i + 1;
    }
    assert(copy.deep_view() =~= names.deep_view());
    copy
}

/// Whether two lists hold the same event kinds in the same order.
pub fn same_kinds(a: &Vec<VNodeEventType>, b: &Vec<VNodeEventType>) -> (same: bool)
    ensures
        same == (a@ == b@),
{
    if a.len() != b.len() {
        return false;
    }
    let mut i: usize = 0;
    while i < a.len()
        invariant
            i <= a.len(),
            a.len() == b.len(),
            forall|j: int| 0 <= j < i ==> a@[j] == b@[j],
        decreases a.len() - i,
    {
        if a[i] != b[i] {
            return false;
        }
        i = i + 1;
    }
    assert(a@ =~= b@);
    true
}

/// A copy of `kinds`.
pub fn copy_kinds(kinds: &Vec<VNodeEventType>) -> (copy: Vec<VNodeEventType>)
    ensures
        copy@ == kinds@,
{
    let mut copy: Vec<VNodeEventType> = Vec::new();
    let mut i: usize = 0;
    while i < kinds.len()
        invariant
            i <= kinds.len(),
            copy.len() == i,
            forall|j: int| 0 <= j < i ==> copy@[j] == kinds@[j],
        decreases kinds.len() - i,
    {
        copy.push(kinds[i]);
        i = i + 1;
    }
    assert(copy@ =~= kinds@);
    copy
}

/// What it takes to bring the names `current` to those of `next`: the
/// names to add, each once and in the order of `next`, and the names to
/// take out, in the order of `current`. The order of the names is not
/// looked at otherwise.
pub fn diff_names(current: Vec<String>, next: &Vec<String>) -> (outcome: (Vec<String>, Vec<String>))
    ensures
        outcome.0.deep_view() == firsts(current.deep_view(), next.deep_view()),
        outcome.1.deep_view() == dropped(current.deep_view(), next.deep_view()),
{
    let ghost old_names = current.deep_view();
    let ghost new_names = next.deep_view();
    let mut added: Vec<String> = Vec::new();
    let mut i: usize = 0;
    proof {
        assert(new_names.take(0) =~= Seq::empty());
        assert(added.deep_view() =~= Seq::empty());
    }
    while i < next.len()
        invariant
            i <= next.len(),
            old_names == current.deep_view(),
            new_names == next.deep_view(),
            added.deep_view() == firsts(old_names, new_names.take(i as int)),
        decreases next.len() - i,
    {
        let ghost before = added.deep_view();
        proof {
            assert(new_names.take(i + 1).drop_last() =~= new_names.take(i as int));
            assert(new_names.take(i + 1).last() == next[i as int]@);
        }
        if !has_name(&current, &next[i]) && !has_name(&added, &next[i]) {
            added.push(next[i].clone());
            assert(added.deep_view() =~= before.push(next[i as int]@));
        }
        i = i + 1;
    }
    proof {
        assert(new_names.take(next.len() as int) =~= new_names);
    }
    let mut dropped_names: Vec<String> = Vec::new();
    let ghost drop = absent_from(new_names);
    proof {
        reveal(Seq::filter);
        assert(old_names.take(0) =~= Seq::empty());
        assert(dropped_names.deep_view() =~= old_names.take(0).filter(drop));
    }
    for name in it: current
        invariant
            old_names == current.deep_view(),
            new_names == next.deep_view(),
            drop == absent_from(new_names),
            dropped_names.deep_view() == old_names.take(it.index() as int).filter(drop),
    {
        let ghost k = it.index() as int;
        let ghost before_dropped = dropped_names.deep_view();
        proof {
            assert(name == current[k]);
            assert(old_names[k] == name@);
            old_names.lemma_take_succ_push(k);
            old_names.take(k).lemma_filter_push(name@, drop);
        }
        if !has_name(next, &name) {
            dropped_names.push(name);
            assert(dropped_names.deep_view() =~= before_dropped.push(old_names[k]));
        }
    }
    proof {
        assert(old_names.take(current.len() as int) =~= old_names);
    }
    (added, dropped_names)
}

} // verus!

verus! {

/// The list `items` back to front.
pub fn reversed<A>(items: Vec<A>) -> (turned: Vec<A>)
    ensures
        turned@ == items@.reverse(),
{
    let mut rest = items;
    let mut turned: Vec<A> = Vec::new();
    while rest.len() > 0
        invariant
            rest.len() <= items.len(),
            rest@ == items@.take(rest.len() as int),
            turned.len() == items.len() - rest.len(),
            forall|j: int| 0 <= j < turned.len() ==> turned@[j] == items@[items.len() - 1 - j],
        decreases rest.len(),
    {
        let item = rest.pop();
        match item {
            Some(item) => {
                turned.push(item);
            },
            None => {},
        }
    }
    assert(turned@ =~= items@.reverse());
    turned
}

/// What the front of a reversed tail is.
pub proof fn lemma_reversed_tail<A>(items: Seq<A>, k: int)
    requires
        0 <= k < items.len(),
    ensures
        items.skip(k).reverse().last() == items[k],
        items.skip(k).reverse().drop_last() == items.skip(k + 1).reverse(),
{
    assert(items.skip(k).reverse().drop_last() =~= items.skip(k + 1).reverse());
}

} // verus!
