//! What holds of every draw: laws of the reconciler and of the style
//! extractor, each proved from the definitions that the contracts use.

use vstd::prelude::*;
use crate::vnode::command::Patch;
use crate::vnode::names::{firsts, lemma_firsts};
use crate::vnode::processor::restocked;
use crate::vnode::remote::{apply, lemma_round_trip, shown, shown_one, Shown};
use crate::vnode::rendered_vnode::{
    count, count_tree, insert_for, lemma_mirrors_all, lemma_novel_new, lemma_owned_count,
    lemma_owned_holds, lemma_settled_new, lemma_settled_upto, listening, listening_tree, mirrors,
    mirrors_all, novel, novel_one, novel_upto, owned, owned_tree, patch_for, patches_for,
    patches_upto, rehomed, removals, retained, settled, settled_at, settled_one,
    RenderedVNodes, Retained,
};
use crate::vnode::style_extracted_vnode::{texts, used_by, StyleRule};
use crate::vnode::Outline;
use crate::window::Message;

verus! {

/// Drawing a frame that the rendered forest already shows is silent: the
/// forest stays as it is, no command goes out, and the registry holds the
/// handles it held. Since the forest stays, this holds of the next such
/// draw too.
pub proof fn lemma_redraw_is_silent<T: Message>(
    forest: Seq<Retained>,
    next: Seq<Outline<T>>,
    out: Seq<Retained>,
    before: Set<u128>,
    after: Set<u128>,
)
    requires
        mirrors_all(forest, next),
        settled(forest, next, out),
        owned(forest).subset_of(before),
        rehomed(before, owned(forest), owned(out), after),
    ensures
        out == forest,
        patches_for(forest, next, out) == Seq::<Patch>::empty(),
        after == before,
        mirrors_all(out, next),
{
    lemma_mirrors_all(forest, next);
    lemma_settled_upto(forest, next, out, next.len());
    assert forall|i: int| 0 <= i < next.len() implies out[i] == forest[i] by {
        assert(settled_at(forest, next, out, i));
        assert(mirrors(forest[i], next[i]));
    }
    assert(out =~= forest);
    lemma_no_patches(forest, next, out, next.len());
    assert(removals(next.len() as int, forest.len() - next.len()) =~= Seq::<Patch>::empty());
    assert(after =~= before);
}

/// Places that already show what is drawn need no command.
proof fn lemma_no_patches<T: Message>(
    forest: Seq<Retained>,
    next: Seq<Outline<T>>,
    out: Seq<Retained>,
    n: nat,
)
    requires
        n <= next.len(),
        forest.len() == next.len(),
        forall|i: int| 0 <= i < next.len() ==> #[trigger] mirrors(forest[i], next[i]),
    ensures
        patches_upto(forest, next, out, n) == Seq::<Patch>::empty(),
    decreases n,
{
    if n > 0 {
        lemma_no_patches(forest, next, out, (n - 1) as nat);
        assert(mirrors(forest[n - 1], next[n - 1]));
        assert(patch_for(n - 1, forest[n - 1], next[n - 1], out[n - 1]) is None);
    }
}

/// Whether the two descriptions differ in nothing but the callbacks they
/// hold: the same kinds of node, texts, tags, classes, props, subscribed
/// kinds and children. A frame built again from the same state is akin to
/// the frame built before.
pub open spec fn akin<T: Message>(a: Outline<T>, b: Outline<T>) -> bool
    decreases a,
{
    match a {
        Outline::Text { text } => b == (Outline::<T>::Text { text }),
        Outline::Element { tag, class, props, event, children, style } => {
            &&& b is Element
            &&& b->tag == tag
            &&& b->class == class
            &&& b->props == props
            &&& b->event.plain == event.plain
            &&& b->event.prevent == event.prevent
            &&& b->style == style
            &&& akin_all(children, b->Element_children)
        },
        Outline::Portal { children } => b is Portal && akin_all(children, b->Portal_children),
    }
}

/// Whether the two forests differ in nothing but the callbacks they hold.
pub open spec fn akin_all<T: Message>(a: Seq<Outline<T>>, b: Seq<Outline<T>>) -> bool
    decreases a,
{
    if a.len() == 0 {
        b.len() == 0
    } else {
        &&& b.len() > 0
        &&& akin_all(a.drop_last(), b.drop_last())
        &&& akin(a.last(), b.last())
    }
}

/// A node that shows a description shows every description akin to it.
pub proof fn lemma_mirrors_akin<T: Message>(node: Retained, a: Outline<T>, b: Outline<T>)
    requires
        mirrors(node, a),
        akin(a, b),
    ensures
        mirrors(node, b),
    decreases a,
{
    match a {
        Outline::Element { children, .. } => {
            lemma_mirrors_akin_all(node->children, children, b->Element_children);
        },
        _ => {},
    }
}

/// A forest that shows a description shows every description akin to it.
pub proof fn lemma_mirrors_akin_all<T: Message>(
    forest: Seq<Retained>,
    a: Seq<Outline<T>>,
    b: Seq<Outline<T>>,
)
    requires
        mirrors_all(forest, a),
        akin_all(a, b),
    ensures
        mirrors_all(forest, b),
    decreases a,
{
    if a.len() > 0 {
        lemma_mirrors_akin_all(forest.drop_last(), a.drop_last(), b.drop_last());
        lemma_mirrors_akin(forest.last(), a.last(), b.last());
    }
}

/// A draw leaves a node that shows what was drawn.
pub proof fn lemma_settles_into_one<T: Message>(node: Retained, next: Outline<T>, out: Retained)
    requires
        settled_one(node, next, out),
    ensures
        mirrors(out, next),
    decreases next, 0nat,
{
    if !mirrors(node, next) {
        match next {
            Outline::Element { tag, class, props, event, children, .. } => {
                if node is Element && node->tag == tag {
                    lemma_settles_into(node->children, children, out->children);
                }
            },
            _ => {},
        }
    }
}

/// A draw leaves a forest that shows what was drawn, whatever was rendered
/// before it.
pub proof fn lemma_settles_into<T: Message>(
    forest: Seq<Retained>,
    next: Seq<Outline<T>>,
    out: Seq<Retained>,
)
    requires
        settled(forest, next, out),
    ensures
        mirrors_all(out, next),
    decreases next, next.len() + 1,
{
    lemma_settled_upto(forest, next, out, next.len());
    lemma_mirrors_all(out, next);
    assert forall|i: int| 0 <= i < next.len() implies #[trigger] mirrors(out[i], next[i]) by {
        assert(settled_at(forest, next, out, i));
        if i < forest.len() {
            lemma_settles_into_one(forest[i], next[i], out[i]);
        }
    }
}

/// Drawing the same frame again is silent, whatever was rendered before
/// the frame was first drawn: after a draw of `next` over any forest, a
/// draw of a frame `again` that differs from `next` in nothing but its
/// callbacks leaves the forest as it is, sends no command, and leaves the
/// registry with the handles it held. Since the forest stays, this holds
/// of every further such draw.
pub proof fn lemma_same_frame_is_silent<T: Message>(
    forest: Seq<Retained>,
    next: Seq<Outline<T>>,
    out: Seq<Retained>,
    again: Seq<Outline<T>>,
    then: Seq<Retained>,
    before: Set<u128>,
    after: Set<u128>,
)
    requires
        settled(forest, next, out),
        akin_all(next, again),
        settled(out, again, then),
        owned(out).subset_of(before),
        rehomed(before, owned(out), owned(then), after),
    ensures
        then == out,
        patches_for(out, again, then) == Seq::<Patch>::empty(),
        after == before,
        novel(out, again, then) == Set::<u128>::empty(),
{
    lemma_settles_into(forest, next, out);
    lemma_mirrors_akin_all(out, next, again);
    lemma_redraw_is_silent(out, again, then, before, after);
    lemma_mirrors_all(out, again);
    lemma_nothing_novel(out, again, then, again.len());
}

/// Places that already show what is drawn get no new handle.
proof fn lemma_nothing_novel<T: Message>(
    forest: Seq<Retained>,
    next: Seq<Outline<T>>,
    out: Seq<Retained>,
    n: nat,
)
    requires
        n <= next.len(),
        forest.len() == next.len(),
        forall|i: int| 0 <= i < next.len() ==> #[trigger] mirrors(forest[i], next[i]),
    ensures
        novel_upto(forest, next, out, n) == Set::<u128>::empty(),
    decreases n,
{
    if n > 0 {
        lemma_nothing_novel(forest, next, out, (n - 1) as nat);
        assert(mirrors(forest[n - 1], next[n - 1]));
        assert(novel_one(forest[n - 1], next[n - 1], out[n - 1]) =~= Set::<u128>::empty());
        assert(novel_upto(forest, next, out, n) =~= Set::<u128>::empty());
    }
}

/// The registry holds one callback for each rendered element, whatever
/// draws led to the rendered forests: no element is without a callback,
/// no callback without its element, and no two elements share a handle.
pub proof fn lemma_one_handle_per_element(rendered: RenderedVNodes, handles: Set<u128>)
    requires
        rendered.tracked_by(handles),
    ensures
        handles.finite(),
        handles.len() == rendered.elements(),
{
    let main = retained(rendered.main@);
    let portals = retained(rendered.portals@);
    lemma_owned_count(main);
    lemma_owned_count(portals);
    vstd::set_lib::lemma_set_union_finite_iff(owned(main), owned(portals));
    vstd::set_lib::lemma_set_disjoint_lens(owned(main), owned(portals));
}

/// Whether every element of the tree subscribes to some kind of event.
pub open spec fn all_listen_tree(node: Retained) -> bool
    decreases node,
{
    match node {
        Retained::Text { .. } => true,
        Retained::Element { event, children, .. } => event.plain.len() + event.prevent.len() > 0
            && all_listen(children),
    }
}

/// Whether every element of the forest subscribes to some kind of event.
pub open spec fn all_listen(forest: Seq<Retained>) -> bool
    decreases forest,
{
    if forest.len() == 0 {
        true
    } else {
        all_listen(forest.drop_last()) && all_listen_tree(forest.last())
    }
}

/// Where every element subscribes to some kind of event, the elements that
/// do are all the elements.
pub proof fn lemma_listening_counts(forest: Seq<Retained>)
    requires
        all_listen(forest),
    ensures
        listening(forest) == count(forest),
    decreases forest,
{
    if forest.len() > 0 {
        lemma_listening_counts(forest.drop_last());
        lemma_listening_counts_tree(forest.last());
    }
}

/// Where every element subscribes to some kind of event, the elements that
/// do are all the elements.
pub proof fn lemma_listening_counts_tree(node: Retained)
    requires
        all_listen_tree(node),
    ensures
        listening_tree(node) == count_tree(node),
    decreases node,
{
    match node {
        Retained::Text { .. } => {},
        Retained::Element { children, .. } => {
            lemma_listening_counts(children);
        },
    }
}

/// Where every rendered element subscribes to some kind of event, the
/// registry holds as many callbacks as there are rendered elements that
/// subscribe to one.
pub proof fn lemma_handles_of_listeners(rendered: RenderedVNodes, handles: Set<u128>)
    requires
        rendered.tracked_by(handles),
        all_listen(retained(rendered.main@)),
        all_listen(retained(rendered.portals@)),
    ensures
        handles.len() == listening(retained(rendered.main@)) + listening(
            retained(rendered.portals@),
        ),
{
    lemma_one_handle_per_element(rendered, handles);
    lemma_listening_counts(retained(rendered.main@));
    lemma_listening_counts(retained(rendered.portals@));
}

/// One draw adds at most one rule for a style text, however often the tree
/// holds the text. After it the registry holds a rule for every text of
/// the tree and for no other text.
pub proof fn lemma_one_rule_per_text(
    before: Seq<StyleRule>,
    used: Seq<Seq<char>>,
    after: Seq<StyleRule>,
    fresh: Seq<StyleRule>,
)
    requires
        restocked(before, used, after, fresh),
    ensures
        texts(fresh).no_duplicates(),
        forall|i: int| 0 <= i < fresh.len() ==> !texts(before).contains(#[trigger] texts(fresh)[i]),
        forall|text: Seq<char>| #[trigger] texts(after).contains(text) <==> used.contains(text),
{
    lemma_firsts(texts(before), used);
    let stay = before.filter(used_by(used));
    assert forall|i: int| 0 <= i < fresh.len() implies !texts(before).contains(
        #[trigger] texts(fresh)[i],
    ) by {
        assert(firsts(texts(before), used).contains(texts(fresh)[i]));
    }
    assert forall|text: Seq<char>| #[trigger] texts(after).contains(text) <==> used.contains(
        text,
    ) by {
        if texts(after).contains(text) {
            let k = choose|k: int| 0 <= k < after.len() && texts(after)[k] == text;
            if k < stay.len() {
                assert(after[k] == stay[k]);
                before.lemma_filter_pred(used_by(used), k);
            } else {
                assert(after[k] == fresh[k - stay.len()]);
                assert(texts(fresh)[k - stay.len()] == text);
                assert(firsts(texts(before), used).contains(text));
            }
        }
        if used.contains(text) {
            if texts(before).contains(text) {
                let k = choose|k: int| 0 <= k < before.len() && texts(before)[k] == text;
                assert(used_by(used)(before[k]));
                assert(before.contains(before[k]));
                before.lemma_filter_contains(used_by(used), k);
                let m = choose|m: int| 0 <= m < stay.len() && stay[m] == before[k];
                assert(after[m] == stay[m]);
                assert(texts(after)[m] == text);
            } else {
                assert(firsts(texts(before), used).contains(text));
                let m = choose|m: int| 0 <= m < fresh.len() && texts(fresh)[m] == text;
                assert(after[stay.len() + m] == fresh[m]);
                assert(texts(after)[stay.len() + m] == text);
            }
        }
    }
}

/// The commands for the first `n` places are at least as many as those for
/// fewer places.
proof fn lemma_patches_grow<T: Message>(
    forest: Seq<Retained>,
    next: Seq<Outline<T>>,
    out: Seq<Retained>,
    m: nat,
    n: nat,
)
    requires
        m <= n <= next.len(),
    ensures
        patches_upto(forest, next, out, m).len() <= patches_upto(forest, next, out, n).len(),
    decreases n,
{
    if m < n {
        lemma_patches_grow(forest, next, out, m, (n - 1) as nat);
    }
}

/// A draw is silent only where the rendered forest already shows what is
/// drawn.
pub proof fn lemma_silent_only_if_shown<T: Message>(
    forest: Seq<Retained>,
    next: Seq<Outline<T>>,
    out: Seq<Retained>,
)
    requires
        settled(forest, next, out),
        patches_for(forest, next, out) == Seq::<Patch>::empty(),
    ensures
        mirrors_all(forest, next),
{
    let asked = next.len();
    let upto = patches_upto(forest, next, out, asked);
    let gone = removals(asked as int, forest.len() - asked);
    assert(upto.len() + gone.len() == 0) by {
        assert((upto + gone).len() == 0);
    }
    lemma_mirrors_all(forest, next);
    lemma_settled_upto(forest, next, out, asked);
    assert forall|i: int| 0 <= i < asked implies i < forest.len() && #[trigger] mirrors(
        forest[i],
        next[i],
    ) by {
        lemma_patches_grow(forest, next, out, (i + 1) as nat, asked);
        lemma_patches_grow(forest, next, out, 0, i as nat);
        assert(settled_at(forest, next, out, i));
        if i < forest.len() {
            assert(patch_for(i, forest[i], next[i], out[i]) is None);
        }
    }
}

/// The handles that a command names.
pub open spec fn named_one(patch: Patch) -> Set<u128>
    decreases patch,
{
    match patch {
        Patch::UpdateElement { event_diff, children, .. } => match event_diff {
            Some(event) => named(children).insert(event.id),
            None => named(children),
        },
        Patch::ReplaceToElement { event, children, .. } => named(children).insert(event.id),
        Patch::InsertElement { event, children, .. } => named(children).insert(event.id),
        _ => Set::empty(),
    }
}

/// The handles that a list of commands names.
pub open spec fn named(patches: Seq<Patch>) -> Set<u128>
    decreases patches,
{
    if patches.len() == 0 {
        Set::empty()
    } else {
        named(patches.drop_last()).union(named_one(patches.last()))
    }
}

/// The handles that two lists of commands name are those that their join
/// names.
proof fn lemma_named_concat(a: Seq<Patch>, b: Seq<Patch>)
    ensures
        named(a + b) == named(a).union(named(b)),
    decreases b.len(),
{
    if b.len() == 0 {
        assert(a + b =~= a);
        assert(named(a).union(named(b)) =~= named(a));
    } else {
        lemma_named_concat(a, b.drop_last());
        assert((a + b).drop_last() =~= a + b.drop_last());
        assert((a + b).last() == b.last());
        assert(named(a + b) =~= named(a).union(named(b)));
    }
}

/// Removals name no handle.
proof fn lemma_removals_name_nothing(index: int, times: int)
    ensures
        named(removals(index, times)) == Set::<u128>::empty(),
    decreases times,
{
    let all = removals(index, times);
    if times > 0 {
        lemma_removals_name_nothing(index, times - 1);
        assert(all.drop_last() =~= removals(index, times - 1));
        assert(all.last() == Patch::Remove { index });
        assert(named_one(all.last()) =~= Set::<u128>::empty());
    }
    assert(named(all) =~= Set::<u128>::empty());
}

/// The command for a place names handles of the tree that stands there
/// after the draw, and no others.
pub proof fn lemma_named_are_rendered_one<T: Message>(
    index: int,
    node: Retained,
    next: Outline<T>,
    out: Retained,
)
    requires
        settled_one(node, next, out),
    ensures
        patch_for(index, node, next, out) matches Some(patch) ==> named_one(patch).subset_of(
            owned_tree(out),
        ),
    decreases next, 0nat,
{
    if !mirrors(node, next) {
        match next {
            Outline::Element { tag, children, .. } => {
                if node is Element && node->tag == tag {
                    lemma_named_are_rendered(node->children, children, out->children);
                } else {
                    lemma_settled_new(children, out->children);
                    lemma_named_are_rendered(Seq::empty(), children, out->children);
                }
            },
            _ => {},
        }
    }
}

/// The commands for the first `n` places name handles of rendered
/// elements only.
proof fn lemma_named_upto<T: Message>(
    forest: Seq<Retained>,
    next: Seq<Outline<T>>,
    out: Seq<Retained>,
    n: nat,
)
    requires
        settled(forest, next, out),
        n <= next.len(),
    ensures
        named(patches_upto(forest, next, out, n)).subset_of(owned(out)),
    decreases next, n,
{
    if n > 0 {
        let i = n - 1;
        lemma_named_upto(forest, next, out, i as nat);
        lemma_settled_upto(forest, next, out, next.len());
        assert(settled_at(forest, next, out, i));
        lemma_owned_holds(out, i);
        let before = patches_upto(forest, next, out, i as nat);
        if i < forest.len() {
            lemma_named_are_rendered_one(i, forest[i], next[i], out[i]);
            match patch_for(i, forest[i], next[i], out[i]) {
                Some(patch) => {
                    let all = before.push(patch);
                    assert(all.drop_last() =~= before);
                    assert(all.last() == patch);
                    assert(patches_upto(forest, next, out, n) == all);
                    assert(named(all) == named(before).union(named_one(patch)));
                },
                None => {},
            }
        } else {
            let patch = insert_for(i, next[i], out[i]);
            let all = before.push(patch);
            assert(all.drop_last() =~= before);
            assert(all.last() == patch);
            assert(patches_upto(forest, next, out, n) == all);
            assert(named(all) == named(before).union(named_one(patch)));
            assert(mirrors(out[i], next[i]));
            match next[i] {
                Outline::Element { children, .. } => {
                    lemma_settled_new(children, out[i]->children);
                    lemma_named_are_rendered(Seq::empty(), children, out[i]->children);
                    assert(named_one(patch).subset_of(owned_tree(out[i])));
                },
                Outline::Text { .. } => {
                    assert(named_one(patch) =~= Set::<u128>::empty());
                },
                Outline::Portal { .. } => {},
            }
        }
    }
}

/// Every handle that the commands of a draw name is the handle of an
/// element that is rendered after the draw: one that was kept, or one
/// that the draw has registered.
pub proof fn lemma_named_are_rendered<T: Message>(
    forest: Seq<Retained>,
    next: Seq<Outline<T>>,
    out: Seq<Retained>,
)
    requires
        settled(forest, next, out),
    ensures
        named(patches_for(forest, next, out)).subset_of(owned(out)),
    decreases next, next.len() + 1,
{
    let asked = next.len();
    lemma_named_upto(forest, next, out, asked);
    lemma_removals_name_nothing(asked as int, forest.len() - asked);
    lemma_named_concat(
        patches_upto(forest, next, out, asked),
        removals(asked as int, forest.len() - asked),
    );
}

/// Whether the remote node shows what `next` describes: the same kind of
/// node, and for an element the same tag, the same classes and props
/// whatever their order, and children that show those of `next`.
pub open spec fn alike<T: Message>(remote: Shown, next: Outline<T>) -> bool
    decreases next,
{
    match next {
        Outline::Text { text } => remote == (Shown::Text { text }),
        Outline::Element { tag, class, props, event, children, .. } => {
            &&& remote is Element
            &&& remote->tag == tag
            &&& remote->class == class.to_set()
            &&& remote->props == props.to_set()
            &&& alike_all(remote->children, children)
        },
        Outline::Portal { .. } => false,
    }
}

/// Whether the remote forest shows what `next` describes, tree by tree.
pub open spec fn alike_all<T: Message>(remote: Seq<Shown>, next: Seq<Outline<T>>) -> bool
    decreases next,
{
    if next.len() == 0 {
        remote.len() == 0
    } else {
        &&& remote.len() > 0
        &&& alike_all(remote.drop_last(), next.drop_last())
        &&& alike(remote.last(), next.last())
    }
}

/// What the remote side holds of a rendered node that shows `next` shows
/// `next`.
pub proof fn lemma_mirrors_alike<T: Message>(node: Retained, next: Outline<T>)
    requires
        mirrors(node, next),
    ensures
        alike(shown_one(node), next),
    decreases next,
{
    match next {
        Outline::Element { children, .. } => {
            lemma_mirrors_alike_all(node->children, children);
        },
        _ => {},
    }
}

/// What the remote side holds of a rendered forest that shows `next` shows
/// `next`.
pub proof fn lemma_mirrors_alike_all<T: Message>(forest: Seq<Retained>, next: Seq<Outline<T>>)
    requires
        mirrors_all(forest, next),
    ensures
        alike_all(shown(forest), next),
    decreases next,
{
    if next.len() > 0 {
        lemma_mirrors_alike_all(forest.drop_last(), next.drop_last());
        lemma_mirrors_alike(forest.last(), next.last());
        assert(shown(forest).drop_last() =~= shown(forest.drop_last()));
    }
}

/// The commands of a draw, applied to a remote forest that shows the
/// rendered forest as it was, bring it to show the frame that was drawn:
/// the same nodes, texts, tags and children, and the same classes and props
/// whatever their order.
pub proof fn lemma_remote_shows_frame<T: Message>(
    forest: Seq<Retained>,
    next: Seq<Outline<T>>,
    out: Seq<Retained>,
)
    requires
        settled(forest, next, out),
    ensures
        alike_all(apply(patches_for(forest, next, out), shown(forest)), next),
{
    lemma_round_trip(forest, next, out);
    lemma_settles_into(forest, next, out);
    lemma_mirrors_alike_all(out, next);
}

/// The handles that a command brings in: those of the elements that it
/// inserts, or puts in place of others.
pub open spec fn introduced_one(patch: Patch) -> Set<u128>
    decreases patch,
{
    match patch {
        Patch::UpdateElement { children, .. } => introduced(children),
        Patch::ReplaceToElement { event, children, .. } => introduced(children).insert(event.id),
        Patch::InsertElement { event, children, .. } => introduced(children).insert(event.id),
        _ => Set::empty(),
    }
}

/// The handles that a list of commands brings in.
pub open spec fn introduced(patches: Seq<Patch>) -> Set<u128>
    decreases patches,
{
    if patches.len() == 0 {
        Set::empty()
    } else {
        introduced(patches.drop_last()).union(introduced_one(patches.last()))
    }
}

/// Removals bring in no handle.
proof fn lemma_removals_introduce_nothing(index: int, times: int)
    ensures
        introduced(removals(index, times)) == Set::<u128>::empty(),
    decreases times,
{
    let all = removals(index, times);
    if times > 0 {
        lemma_removals_introduce_nothing(index, times - 1);
        assert(all.drop_last() =~= removals(index, times - 1));
        assert(all.last() == Patch::Remove { index });
        assert(introduced_one(all.last()) =~= Set::<u128>::empty());
    }
    assert(introduced(all) =~= Set::<u128>::empty());
}

/// The handles that two lists of commands bring in are those that their
/// join brings in.
proof fn lemma_introduced_concat(a: Seq<Patch>, b: Seq<Patch>)
    ensures
        introduced(a + b) == introduced(a).union(introduced(b)),
    decreases b.len(),
{
    if b.len() == 0 {
        assert(a + b =~= a);
        assert(introduced(a).union(introduced(b)) =~= introduced(a));
    } else {
        lemma_introduced_concat(a, b.drop_last());
        assert((a + b).drop_last() =~= a + b.drop_last());
        assert((a + b).last() == b.last());
        assert(introduced(a + b) =~= introduced(a).union(introduced(b)));
    }
}

/// The command for a place brings in new handles only.
pub proof fn lemma_introduced_are_novel_one<T: Message>(
    index: int,
    node: Retained,
    next: Outline<T>,
    out: Retained,
)
    requires
        settled_one(node, next, out),
    ensures
        patch_for(index, node, next, out) matches Some(patch) ==> introduced_one(patch).subset_of(
            novel_one(node, next, out),
        ),
    decreases next, 1nat,
{
    if !mirrors(node, next) {
        match next {
            Outline::Element { tag, children, .. } => {
                if node is Element && node->tag == tag {
                    lemma_introduced_are_novel(node->children, children, out->children);
                } else {
                    lemma_planted_is_novel(next, out);
                }
            },
            _ => {},
        }
    }
}

/// The commands that insert a new tree bring in handles of the tree only.
proof fn lemma_planted_is_novel<T: Message>(next: Outline<T>, out: Retained)
    requires
        mirrors(out, next),
        next is Element,
    ensures
        introduced(
            patches_for(Seq::empty(), next->Element_children, out->children),
        ).insert(out->event.id).subset_of(owned_tree(out)),
    decreases next, 0nat,
{
    let children = next->Element_children;
    lemma_settled_new(children, out->children);
    lemma_introduced_are_novel(Seq::empty(), children, out->children);
    lemma_novel_new(children, out->children, children.len());
    assert(out->children.take(children.len() as int) =~= out->children);
}

/// The commands for the first `n` places bring in new handles only.
proof fn lemma_introduced_upto<T: Message>(
    forest: Seq<Retained>,
    next: Seq<Outline<T>>,
    out: Seq<Retained>,
    n: nat,
)
    requires
        settled(forest, next, out),
        n <= next.len(),
    ensures
        introduced(patches_upto(forest, next, out, n)).subset_of(novel_upto(forest, next, out, n)),
    decreases next, n,
{
    if n > 0 {
        let i = n - 1;
        lemma_introduced_upto(forest, next, out, i as nat);
        lemma_settled_upto(forest, next, out, next.len());
        assert(settled_at(forest, next, out, i));
        let before = patches_upto(forest, next, out, i as nat);
        if i < forest.len() {
            lemma_introduced_are_novel_one(i, forest[i], next[i], out[i]);
            match patch_for(i, forest[i], next[i], out[i]) {
                Some(patch) => {
                    let all = before.push(patch);
                    assert(all.drop_last() =~= before);
                    assert(all.last() == patch);
                    assert(patches_upto(forest, next, out, n) == all);
                    assert(introduced(all) == introduced(before).union(introduced_one(patch)));
                },
                None => {},
            }
        } else {
            let patch = insert_for(i, next[i], out[i]);
            let all = before.push(patch);
            assert(all.drop_last() =~= before);
            assert(all.last() == patch);
            assert(patches_upto(forest, next, out, n) == all);
            assert(introduced(all) == introduced(before).union(introduced_one(patch)));
            assert(mirrors(out[i], next[i]));
            match next[i] {
                Outline::Element { .. } => {
                    lemma_planted_is_novel(next[i], out[i]);
                    assert(introduced_one(patch).subset_of(owned_tree(out[i])));
                },
                Outline::Text { .. } => {
                    assert(introduced_one(patch) =~= Set::<u128>::empty());
                },
                Outline::Portal { .. } => {},
            }
        }
    }
}

/// Every handle that an insert or replace command of a draw carries is the
/// handle of an element that the draw has made new. A draw keeps these
/// apart from every handle that was ever registered, so no such command
/// names a handle that an element had before.
pub proof fn lemma_introduced_are_novel<T: Message>(
    forest: Seq<Retained>,
    next: Seq<Outline<T>>,
    out: Seq<Retained>,
)
    requires
        settled(forest, next, out),
    ensures
        introduced(patches_for(forest, next, out)).subset_of(novel(forest, next, out)),
    decreases next, next.len() + 1,
{
    let asked = next.len();
    lemma_introduced_upto(forest, next, out, asked);
    lemma_removals_introduce_nothing(asked as int, forest.len() - asked);
    lemma_introduced_concat(
        patches_upto(forest, next, out, asked),
        removals(asked as int, forest.len() - asked),
    );
}

/// No handle returns. The handles that are taken when a draw begins hold
/// every handle that was registered or given up before: a draw takes none
/// of them back (`earlier` stays within `taken`) and makes its new
/// elements (`made`) under handles apart from them. So a handle that an
/// element ever had is the handle of no element made later.
pub proof fn lemma_no_handle_returns(
    earlier: Set<u128>,
    taken: Set<u128>,
    made: Set<u128>,
    id: u128,
)
    requires
        earlier.subset_of(taken),
        made.disjoint(taken),
        earlier.contains(id),
    ensures
        !made.contains(id),
{
}

} // verus!
