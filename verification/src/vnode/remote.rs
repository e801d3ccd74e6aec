//! The model of the remote side: what a command does to the forest it is
//! applied to, and the proof that the commands of a draw bring the remote
//! forest to the rendered one.

use vstd::prelude::*;
use crate::vnode::command::{NameChange, Patch};
use crate::vnode::names::{absent_from, dropped, firsts, lemma_firsts};
use crate::vnode::rendered_vnode::{
    additions_of, insert_for, lemma_settled_new, lemma_settled_upto, mirrors, name_changes,
    patch_for, patches_for, patches_upto, removals, removals_of, settled, settled_at, settled_one,
    Retained,
};
use crate::vnode::Outline;
use crate::window::Message;

verus! {

/// A node as the remote side shows it: what a rendered node holds of
/// texts, tags, classes, props and children. The classes and the props of
/// an element are sets: the remote side adds and removes them by name and
/// keeps no order of them. Handles and subscribed kinds are left out: a
/// command tells the remote side of the subscription of an element only
/// where both of its lists change, so what the remote side knows of it may
/// lag behind.
pub ghost enum Shown {
    Text { text: Seq<char> },
    Element {
        tag: Seq<char>,
        class: Set<Seq<char>>,
        props: Set<Seq<char>>,
        children: Seq<Shown>,
    },
}

/// The rendered node as the remote side holds it.
pub open spec fn shown_one(node: Retained) -> Shown
    decreases node,
{
    match node {
        Retained::Text { text } => Shown::Text { text },
        Retained::Element { tag, class, props, children, .. } => Shown::Element {
            tag,
            class: class.to_set(),
            props: props.to_set(),
            children: shown(children),
        },
    }
}

/// The rendered forest as the remote side holds it.
pub open spec fn shown(forest: Seq<Retained>) -> Seq<Shown>
    decreases forest,
{
    if forest.len() == 0 {
        Seq::empty()
    } else {
        shown(forest.drop_last()).push(shown_one(forest.last()))
    }
}

/// The remote side holds a forest tree by tree.
pub proof fn lemma_shown(forest: Seq<Retained>)
    ensures
        shown(forest).len() == forest.len(),
        forall|i: int| 0 <= i < forest.len() ==> (#[trigger] shown(forest)[i]) == shown_one(forest[i]),
    decreases forest.len(),
{
    if forest.len() > 0 {
        lemma_shown(forest.drop_last());
    }
}

/// The names of an element after one change: a name that is added is
/// there, a name that is removed is not.
pub open spec fn apply_name(names: Set<Seq<char>>, change: NameChange) -> Set<Seq<char>> {
    match change {
        NameChange::Add(name) => names.insert(name),
        NameChange::Remove(name) => names.remove(name),
    }
}

/// The names of an element after the changes, applied in their order.
pub open spec fn apply_names(names: Set<Seq<char>>, changes: Seq<NameChange>) -> Set<Seq<char>>
    decreases changes.len(),
{
    if changes.len() == 0 {
        names
    } else {
        apply_name(apply_names(names, changes.drop_last()), changes.last())
    }
}

/// The element that a command describes in full.
pub open spec fn built(
    tag: Seq<char>,
    classes: Seq<Seq<char>>,
    props: Seq<Seq<char>>,
    children: Seq<Patch>,
) -> Shown
    decreases children, 1nat,
{
    Shown::Element {
        tag,
        class: classes.to_set(),
        props: props.to_set(),
        children: apply(children, Seq::empty()),
    }
}

/// The forest after one command. A command that addresses a place that
/// the forest lacks, or an element where a text stands, leaves the forest
/// as it is.
pub open spec fn apply_one(patch: Patch, forest: Seq<Shown>) -> Seq<Shown>
    decreases patch, 0nat,
{
    match patch {
        Patch::UpdateElement { index, class_diff, props_diff, children, .. } => {
            if 0 <= index < forest.len() && forest[index] is Element {
                forest.update(
                    index,
                    Shown::Element {
                        tag: forest[index]->tag,
                        class: apply_names(forest[index]->class, class_diff),
                        props: apply_names(forest[index]->props, props_diff),
                        children: apply(children, forest[index]->children),
                    },
                )
            } else {
                forest
            }
        },
        Patch::UpdateText { index, new_text } => {
            if 0 <= index < forest.len() {
                forest.update(index, Shown::Text { text: new_text })
            } else {
                forest
            }
        },
        Patch::ReplaceToElement { index, new_tag, classes, props, children, .. } => {
            if 0 <= index < forest.len() {
                forest.update(index, built(new_tag, classes, props, children))
            } else {
                forest
            }
        },
        Patch::ReplaceToText { index, text } => {
            if 0 <= index < forest.len() {
                forest.update(index, Shown::Text { text })
            } else {
                forest
            }
        },
        Patch::InsertElement { index, tag, classes, props, children, .. } => {
            if 0 <= index <= forest.len() {
                forest.insert(index, built(tag, classes, props, children))
            } else {
                forest
            }
        },
        Patch::InsertText { index, text } => {
            if 0 <= index <= forest.len() {
                forest.insert(index, Shown::Text { text })
            } else {
                forest
            }
        },
        Patch::Remove { index } => {
            if 0 <= index < forest.len() {
                forest.remove(index)
            } else {
                forest
            }
        },
    }
}

/// The forest after the commands, applied in their order.
pub open spec fn apply(patches: Seq<Patch>, forest: Seq<Shown>) -> Seq<Shown>
    decreases patches, 0nat,
{
    if patches.len() == 0 {
        forest
    } else {
        apply_one(patches.last(), apply(patches.drop_last(), forest))
    }
}

/// Applying two lists of commands one after the other is applying them
/// joined.
pub proof fn lemma_apply_concat(a: Seq<Patch>, b: Seq<Patch>, forest: Seq<Shown>)
    ensures
        apply(a + b, forest) == apply(b, apply(a, forest)),
    decreases b.len(),
{
    if b.len() == 0 {
        assert(a + b =~= a);
    } else {
        lemma_apply_concat(a, b.drop_last(), forest);
        assert((a + b).drop_last() =~= a + b.drop_last());
        assert((a + b).last() == b.last());
    }
}

/// Applying two lists of changes one after the other is applying them
/// joined.
pub proof fn lemma_apply_names_concat(
    names: Set<Seq<char>>,
    a: Seq<NameChange>,
    b: Seq<NameChange>,
)
    ensures
        apply_names(names, a + b) == apply_names(apply_names(names, a), b),
    decreases b.len(),
{
    if b.len() == 0 {
        assert(a + b =~= a);
    } else {
        lemma_apply_names_concat(names, a, b.drop_last());
        assert((a + b).drop_last() =~= a + b.drop_last());
        assert((a + b).last() == b.last());
    }
}

/// Adding names one by one leaves the names that were there and the added
/// ones.
proof fn lemma_apply_additions(names: Set<Seq<char>>, added: Seq<Seq<char>>, n: int)
    requires
        0 <= n <= added.len(),
    ensures
        apply_names(names, additions_of(added.take(n))) == names.union(added.take(n).to_set()),
    decreases n,
{
    if n == 0 {
        assert(additions_of(added.take(0)) =~= Seq::empty());
        assert(names.union(added.take(0).to_set()) =~= names);
    } else {
        lemma_apply_additions(names, added, n - 1);
        let changes = additions_of(added.take(n));
        assert(changes.drop_last() =~= additions_of(added.take(n - 1)));
        assert(changes.last() == NameChange::Add(added[n - 1]));
        let earlier = added.take(n - 1);
        let now = added.take(n);
        assert(now.drop_last() =~= earlier);
        assert forall|x: Seq<char>| now.contains(x) <==> earlier.contains(x) || x == added[n
            - 1] by {
            if now.contains(x) {
                let k = choose|k: int| 0 <= k < now.len() && now[k] == x;
                if k < n - 1 {
                    assert(earlier[k] == x);
                }
            }
            if earlier.contains(x) {
                let k = choose|k: int| 0 <= k < earlier.len() && earlier[k] == x;
                assert(now[k] == x);
            }
            assert(now[n - 1] == added[n - 1]);
        }
        assert(names.union(earlier.to_set()).insert(added[n - 1]) =~= names.union(now.to_set()));
    }
}

/// Removing names one by one leaves the names that are none of them.
proof fn lemma_apply_removals(names: Set<Seq<char>>, gone: Seq<Seq<char>>, n: int)
    requires
        0 <= n <= gone.len(),
    ensures
        apply_names(names, removals_of(gone.take(n))) == names.difference(gone.take(n).to_set()),
    decreases n,
{
    if n == 0 {
        assert(removals_of(gone.take(0)) =~= Seq::empty());
        assert(names.difference(gone.take(0).to_set()) =~= names);
    } else {
        lemma_apply_removals(names, gone, n - 1);
        let changes = removals_of(gone.take(n));
        assert(changes.drop_last() =~= removals_of(gone.take(n - 1)));
        assert(changes.last() == NameChange::Remove(gone[n - 1]));
        let earlier = gone.take(n - 1);
        let now = gone.take(n);
        assert(now.drop_last() =~= earlier);
        assert forall|x: Seq<char>| now.contains(x) <==> earlier.contains(x) || x == gone[n
            - 1] by {
            if now.contains(x) {
                let k = choose|k: int| 0 <= k < now.len() && now[k] == x;
                if k < n - 1 {
                    assert(earlier[k] == x);
                }
            }
            if earlier.contains(x) {
                let k = choose|k: int| 0 <= k < earlier.len() && earlier[k] == x;
                assert(now[k] == x);
            }
            assert(now[n - 1] == gone[n - 1]);
        }
        assert(names.difference(earlier.to_set()).remove(gone[n - 1]) =~= names.difference(
            now.to_set(),
        ));
    }
}

/// The changes that a draw sends for a list of names bring the names of the
/// remote element, which are those of the rendered one, to the names of the
/// frame.
pub proof fn lemma_apply_name_changes(current: Seq<Seq<char>>, next: Seq<Seq<char>>)
    ensures
        apply_names(current.to_set(), name_changes(current, next)) == next.to_set(),
{
    let added = firsts(current, next);
    let gone = dropped(current, next);
    lemma_firsts(current, next);
    lemma_apply_names_concat(current.to_set(), additions_of(added), removals_of(gone));
    lemma_apply_additions(current.to_set(), added, added.len() as int);
    assert(added.take(added.len() as int) =~= added);
    lemma_apply_removals(current.to_set().union(added.to_set()), gone, gone.len() as int);
    assert(gone.take(gone.len() as int) =~= gone);
    let after = current.to_set().union(added.to_set()).difference(gone.to_set());
    assert forall|x: Seq<char>| after.contains(x) <==> next.contains(x) by {
        assert(added.contains(x) <==> next.contains(x) && !current.contains(x)) by {
            assert(firsts(current, next).contains(x) <==> next.contains(x) && !current.contains(x));
        }
        if gone.contains(x) {
            let k = choose|k: int| 0 <= k < gone.len() && gone[k] == x;
            current.lemma_filter_pred(absent_from(next), k);
            current.lemma_filter_contains_rev(absent_from(next), x);
        }
        if current.contains(x) && !next.contains(x) {
            let k = choose|k: int| 0 <= k < current.len() && current[k] == x;
            current.lemma_filter_contains(absent_from(next), k);
        }
    }
    assert(after =~= next.to_set());
}

/// The remote forest while the commands of a draw are applied: the first
/// `n` places hold the new trees, the later ones what stood there.
pub open spec fn partly(forest: Seq<Retained>, out: Seq<Retained>, n: int) -> Seq<Shown> {
    shown(out.take(n)) + shown(forest.skip(if n < forest.len() { n } else { forest.len() as int }))
}

/// The command for a place brings the remote tree at that place to the
/// rendered one.
pub proof fn lemma_apply_patch<T: Message>(
    index: int,
    node: Retained,
    next: Outline<T>,
    out: Retained,
    remote: Seq<Shown>,
)
    requires
        settled_one(node, next, out),
        0 <= index < remote.len(),
        remote[index] == shown_one(node),
    ensures
        match patch_for(index, node, next, out) {
            Some(patch) => apply_one(patch, remote) == remote.update(index, shown_one(out)),
            None => out == node,
        },
    decreases next, 0nat,
{
    if !mirrors(node, next) {
        match next {
            Outline::Text { .. } => {},
            Outline::Element { tag, class, props, event, children, .. } => {
                if node is Element && node->tag == tag {
                    lemma_apply_name_changes(node->class, class);
                    lemma_apply_name_changes(node->props, props);
                    lemma_round_trip(node->children, children, out->children);
                } else {
                    lemma_settled_new(children, out->children);
                    lemma_round_trip(Seq::empty(), children, out->children);
                    assert(shown(Seq::<Retained>::empty()) =~= Seq::<Shown>::empty());
                }
            },
            Outline::Portal { .. } => {},
        }
    }
}

/// The commands for the first `n` places bring the remote forest to hold
/// the new trees at these places.
pub proof fn lemma_apply_upto<T: Message>(
    forest: Seq<Retained>,
    next: Seq<Outline<T>>,
    out: Seq<Retained>,
    n: nat,
)
    requires
        settled(forest, next, out),
        n <= next.len(),
    ensures
        apply(patches_upto(forest, next, out, n), shown(forest)) == partly(forest, out, n as int),
    decreases next, n,
{
    if n == 0 {
        assert(out.take(0) =~= Seq::<Retained>::empty());
        assert(forest.skip(0) =~= forest);
        assert(partly(forest, out, 0) =~= shown(forest));
    } else {
        let i = n - 1;
        lemma_apply_upto(forest, next, out, i as nat);
        lemma_settled_upto(forest, next, out, next.len());
        assert(settled_at(forest, next, out, i));
        let before = patches_upto(forest, next, out, i as nat);
        let remote = partly(forest, out, i);
        let rest_before = forest.skip(if i < forest.len() { i } else { forest.len() as int });
        let rest_after = forest.skip(if n < forest.len() { n as int } else { forest.len() as int });
        lemma_shown(out.take(i));
        lemma_shown(out.take(n as int));
        lemma_shown(rest_before);
        lemma_shown(rest_after);
        if i < forest.len() {
            assert(remote[i] == shown_one(forest[i]));
            lemma_apply_patch(i, forest[i], next[i], out[i], remote);
            assert(remote.update(i, shown_one(out[i])) =~= partly(forest, out, n as int));
            match patch_for(i, forest[i], next[i], out[i]) {
                Some(patch) => {
                    let all = before.push(patch);
                    assert(all.drop_last() =~= before);
                    assert(all.last() == patch);
                    assert(patches_upto(forest, next, out, n) == all);
                    assert(apply(all, shown(forest)) == apply_one(patch, remote));
                },
                None => {
                    assert(patches_upto(forest, next, out, n) == before);
                    assert(remote.update(i, shown_one(out[i])) =~= remote);
                },
            }
        } else {
            assert(remote =~= shown(out.take(i)));
            let patch = insert_for(i, next[i], out[i]);
            let all = before.push(patch);
            assert(all.drop_last() =~= before);
            assert(all.last() == patch);
            assert(patches_upto(forest, next, out, n) == all);
            assert(apply(all, shown(forest)) == apply_one(patch, remote));
            assert(mirrors(out[i], next[i]));
            match next[i] {
                Outline::Element { tag, class, props, event, children, .. } => {
                    lemma_settled_new(children, out[i]->children);
                    lemma_round_trip(Seq::empty(), children, out[i]->children);
                    assert(shown(Seq::<Retained>::empty()) =~= Seq::<Shown>::empty());
                    let made = built(
                        tag,
                        class,
                        props,
                        patches_for(Seq::empty(), children, out[i]->children),
                    );
                    assert(made == shown_one(out[i]));
                    assert(apply_one(patch, remote) == remote.insert(i, made));
                },
                Outline::Text { text } => {
                    assert(apply_one(patch, remote) == remote.insert(i, shown_one(out[i])));
                },
                Outline::Portal { .. } => {},
            }
            assert(remote.insert(i, shown_one(out[i])) =~= partly(forest, out, n as int));
        }
    }
}

/// Removing at one place as often as trees are to leave removes the trees
/// that follow that place, one after the other.
pub proof fn lemma_apply_removals_at(kept: Seq<Shown>, leaving: Seq<Shown>, times: int)
    requires
        0 <= times <= leaving.len(),
    ensures
        apply(removals(kept.len() as int, times), kept + leaving) == kept + leaving.skip(times),
    decreases times,
{
    let index = kept.len() as int;
    if times == 0 {
        assert(removals(index, 0) =~= Seq::<Patch>::empty());
        assert(leaving.skip(0) =~= leaving);
    } else {
        lemma_apply_removals_at(kept, leaving, times - 1);
        let all = removals(index, times);
        assert(all.drop_last() =~= removals(index, times - 1));
        assert(all.last() == Patch::Remove { index });
        let remote = kept + leaving.skip(times - 1);
        assert(apply(all, kept + leaving) == apply_one(all.last(), remote));
        assert(index < remote.len());
        assert(apply_one(all.last(), remote) == remote.remove(index));
        assert(remote.remove(index) =~= kept + leaving.skip(times));
    }
}

/// The commands of a draw, applied to a remote forest that shows the
/// rendered forest as it was before the draw, bring it to show the rendered
/// forest as it is after the draw.
pub proof fn lemma_round_trip<T: Message>(
    forest: Seq<Retained>,
    next: Seq<Outline<T>>,
    out: Seq<Retained>,
)
    requires
        settled(forest, next, out),
    ensures
        apply(patches_for(forest, next, out), shown(forest)) == shown(out),
    decreases next, next.len() + 1,
{
    let asked = next.len() as int;
    lemma_apply_upto(forest, next, out, next.len());
    lemma_apply_concat(
        patches_upto(forest, next, out, next.len()),
        removals(asked, forest.len() - asked),
        shown(forest),
    );
    assert(out.take(asked) =~= out);
    lemma_shown(out);
    if forest.len() > asked {
        let leaving = shown(forest.skip(asked));
        lemma_shown(forest.skip(asked));
        lemma_apply_removals_at(shown(out), leaving, forest.len() - asked);
        assert(leaving.skip(forest.len() - asked) =~= Seq::empty());
        assert(shown(out) + leaving.skip(forest.len() - asked) =~= shown(out));
    } else {
        assert(removals(asked, forest.len() - asked) =~= Seq::<Patch>::empty());
        assert(forest.skip(forest.len() as int) =~= Seq::<Retained>::empty());
        assert(shown(Seq::<Retained>::empty()) =~= Seq::<Shown>::empty());
        assert(partly(forest, out, asked) =~= shown(out));
    }
}

} // verus!
