//! The reconciler: the rendered forests, and the commands that bring them
//! from one frame to the next.

use vstd::prelude::*;
use crate::ident::Taken;
use crate::ident::EventHandleId;
use crate::vnode::command::{
    class_changes, patches, props_changes, DifferenceClass, DifferenceCommand, DifferenceEvent,
    DifferenceProps, HandleEvent, NameChange, Patch, Subscriptions,
};
use crate::vnode::event_list::VNodeEventType;
use crate::vnode::handler::{Binding, BundledEventHandler, EventCallback};
use crate::vnode::names::{
    copy_kinds, copy_names, diff_names, dropped, firsts, lemma_reversed_tail, reversed, same_kinds,
    same_names,
};
use crate::vnode::portal_expanded_vnode::{
    expanded, lemma_expanded, PortalExpandedVNode, PortalExpandedVNodes,
};
use crate::vnode::registry::EventRegistry;
use crate::vnode::Outline;
use crate::window::Message;

verus! {

/// The handle of a rendered element and the kinds of event it subscribes
/// to.
#[derive(Debug, PartialEq, Eq)]
pub struct HandledEvents {
    pub id: EventHandleId,
    pub handle_events: Vec<VNodeEventType>,
    pub handle_prevent_default_events: Vec<VNodeEventType>,
}

impl View for HandledEvents {
    type V = Subscriptions;

    open spec fn view(&self) -> Subscriptions {
        Subscriptions {
            id: self.id.0,
            plain: self.handle_events@,
            prevent: self.handle_prevent_default_events@,
        }
    }
}

/// A node as the remote side shows it.
#[derive(Debug, PartialEq, Eq)]
pub enum RenderedVNode {
    Text { text: String },
    Element {
        tag: String,
        class: Vec<String>,
        props: Vec<String>,
        event: HandledEvents,
        children: Vec<RenderedVNode>,
    },
}

/// The mathematical content of a rendered node, which is also the model of
/// the node on the remote side.
pub ghost enum Retained {
    Text { text: Seq<char> },
    Element {
        tag: Seq<char>,
        class: Seq<Seq<char>>,
        props: Seq<Seq<char>>,
        event: Subscriptions,
        children: Seq<Retained>,
    },
}

impl View for RenderedVNode {
    type V = Retained;

    open spec fn view(&self) -> Retained {
        retained_one(*self)
    }
}

/// The mathematical content of a rendered node.
pub open spec fn retained_one(node: RenderedVNode) -> Retained
    decreases node,
{
    match node {
        RenderedVNode::Text { text } => Retained::Text { text: text@ },
        RenderedVNode::Element { tag, class, props, event, children } => Retained::Element {
            tag: tag@,
            class: class.deep_view(),
            props: props.deep_view(),
            event: event@,
            children: retained(children@),
        },
    }
}

/// The mathematical content of a rendered forest.
pub open spec fn retained(nodes: Seq<RenderedVNode>) -> Seq<Retained>
    decreases nodes,
{
    if nodes.len() == 0 {
        Seq::empty()
    } else {
        retained(nodes.drop_last()).push(retained_one(nodes.last()))
    }
}

/// The content of a forest is the list of the contents of its trees.
pub proof fn lemma_retained(nodes: Seq<RenderedVNode>)
    ensures
        retained(nodes).len() == nodes.len(),
        forall|i: int| 0 <= i < nodes.len() ==> (#[trigger] retained(nodes)[i]) == nodes[i]@,
    decreases nodes.len(),
{
    if nodes.len() > 0 {
        lemma_retained(nodes.drop_last());
    }
}

/// The handles of the elements of a tree.
pub open spec fn owned_tree(node: Retained) -> Set<u128>
    decreases node,
{
    match node {
        Retained::Text { .. } => Set::empty(),
        Retained::Element { event, children, .. } => owned(children).insert(event.id),
    }
}

/// The handles of the elements of a forest.
pub open spec fn owned(forest: Seq<Retained>) -> Set<u128>
    decreases forest,
{
    if forest.len() == 0 {
        Set::empty()
    } else {
        owned(forest.drop_last()).union(owned_tree(forest.last()))
    }
}

/// Whether no two elements of a tree share a handle.
pub open spec fn distinct_tree(node: Retained) -> bool
    decreases node,
{
    match node {
        Retained::Text { .. } => true,
        Retained::Element { event, children, .. } => !owned(children).contains(event.id)
            && distinct(children),
    }
}

/// Whether no two elements of a forest share a handle.
pub open spec fn distinct(forest: Seq<Retained>) -> bool
    decreases forest,
{
    if forest.len() == 0 {
        true
    } else {
        &&& distinct(forest.drop_last())
        &&& distinct_tree(forest.last())
        &&& owned(forest.drop_last()).disjoint(owned_tree(forest.last()))
    }
}

/// The number of elements of a tree.
pub open spec fn count_tree(node: Retained) -> nat
    decreases node,
{
    match node {
        Retained::Text { .. } => 0,
        Retained::Element { children, .. } => 1 + count(children),
    }
}

/// The number of elements of a forest.
pub open spec fn count(forest: Seq<Retained>) -> nat
    decreases forest,
{
    if forest.len() == 0 {
        0
    } else {
        count(forest.drop_last()) + count_tree(forest.last())
    }
}

/// The number of elements of a tree that subscribe to an event.
pub open spec fn listening_tree(node: Retained) -> nat
    decreases node,
{
    match node {
        Retained::Text { .. } => 0,
        Retained::Element { event, children, .. } => (if event.plain.len() + event.prevent.len()
            > 0 {
            1nat
        } else {
            0nat
        }) + listening(children),
    }
}

/// The number of elements of a forest that subscribe to an event.
pub open spec fn listening(forest: Seq<Retained>) -> nat
    decreases forest,
{
    if forest.len() == 0 {
        0
    } else {
        listening(forest.drop_last()) + listening_tree(forest.last())
    }
}

/// The handles of two forests joined are the handles of both, and the
/// joined forest shares no handle where neither forest does and the two
/// have none in common.
pub proof fn lemma_owned_concat(a: Seq<Retained>, b: Seq<Retained>)
    ensures
        owned(a + b) == owned(a).union(owned(b)),
        distinct(a + b) <==> distinct(a) && distinct(b) && owned(a).disjoint(owned(b)),
        count(a + b) == count(a) + count(b),
        listening(a + b) == listening(a) + listening(b),
    decreases b.len(),
{
    if b.len() == 0 {
        assert(a + b =~= a);
        assert(owned(a).union(owned(b)) =~= owned(a));
    } else {
        lemma_owned_concat(a, b.drop_last());
        assert((a + b).drop_last() =~= a + b.drop_last());
        assert((a + b).last() == b.last());
        assert(owned(a + b) =~= owned(a).union(owned(b)));
    }
}

/// A forest of one tree has the handles of the tree.
pub proof fn lemma_owned_single(node: Retained)
    ensures
        owned(seq![node]) == owned_tree(node),
        distinct(seq![node]) == distinct_tree(node),
        count(seq![node]) == count_tree(node),
        listening(seq![node]) == listening_tree(node),
{
    let single = seq![node];
    let none = Seq::<Retained>::empty();
    assert(single.drop_last() =~= none);
    assert(owned(none) =~= Set::empty());
    assert(owned(single) =~= owned_tree(node));
    assert(distinct(none));
    assert(count(none) == 0);
    assert(listening(none) == 0);
}

/// The handles of a forest are those of its first tree and of the rest.
pub proof fn lemma_owned_front(forest: Seq<Retained>)
    requires
        forest.len() > 0,
    ensures
        owned(forest) == owned_tree(forest.first()).union(owned(forest.drop_first())),
        distinct(forest) <==> distinct_tree(forest.first()) && distinct(forest.drop_first())
            && owned_tree(forest.first()).disjoint(owned(forest.drop_first())),
        count(forest) == count_tree(forest.first()) + count(forest.drop_first()),
{
    let head = seq![forest.first()];
    assert(head + forest.drop_first() =~= forest);
    lemma_owned_single(forest.first());
    lemma_owned_concat(head, forest.drop_first());
}

/// A forest has finitely many handles; one whose elements share none has
/// as many handles as elements.
pub proof fn lemma_owned_count(forest: Seq<Retained>)
    ensures
        owned(forest).finite(),
        distinct(forest) ==> owned(forest).len() == count(forest),
    decreases forest,
{
    if forest.len() > 0 {
        lemma_owned_count(forest.drop_last());
        lemma_owned_tree_count(forest.last());
        let a = owned(forest.drop_last());
        let b = owned_tree(forest.last());
        vstd::set_lib::lemma_set_union_finite_iff(a, b);
        if distinct(forest) {
            vstd::set_lib::lemma_set_disjoint_lens(a, b);
        }
    }
}

/// A tree has finitely many handles; one whose elements share none has as
/// many handles as elements.
pub proof fn lemma_owned_tree_count(node: Retained)
    ensures
        owned_tree(node).finite(),
        distinct_tree(node) ==> owned_tree(node).len() == count_tree(node),
    decreases node,
{
    match node {
        Retained::Text { .. } => {},
        Retained::Element { children, .. } => {
            lemma_owned_count(children);
        },
    }
}

/// Whether the rendered node shows what `next` describes: the same kind of
/// node, and for an element the same tag, classes, props, subscribed kinds
/// and children, in the same order.
pub open spec fn mirrors<T: Message>(node: Retained, next: Outline<T>) -> bool
    decreases next,
{
    match next {
        Outline::Text { text } => node == (Retained::Text { text }),
        Outline::Element { tag, class, props, event, children, .. } => {
            &&& node is Element
            &&& node->tag == tag
            &&& node->class == class
            &&& node->props == props
            &&& node->event.plain == event.plain
            &&& node->event.prevent == event.prevent
            &&& mirrors_all(node->children, children)
        },
        Outline::Portal { .. } => false,
    }
}

/// Whether the rendered forest shows what `next` describes, tree by tree.
pub open spec fn mirrors_all<T: Message>(forest: Seq<Retained>, next: Seq<Outline<T>>) -> bool
    decreases next,
{
    if next.len() == 0 {
        forest.len() == 0
    } else {
        &&& forest.len() > 0
        &&& mirrors_all(forest.drop_last(), next.drop_last())
        &&& mirrors(forest.last(), next.last())
    }
}

/// A forest shows `next` where it has as many trees and each shows the tree
/// at its place.
pub proof fn lemma_mirrors_all<T: Message>(forest: Seq<Retained>, next: Seq<Outline<T>>)
    ensures
        mirrors_all(forest, next) <==> forest.len() == next.len() && forall|i: int|
            0 <= i < next.len() ==> #[trigger] mirrors(forest[i], next[i]),
    decreases next.len(),
{
    if next.len() > 0 && forest.len() > 0 {
        lemma_mirrors_all(forest.drop_last(), next.drop_last());
        if mirrors_all(forest, next) {
            assert forall|i: int| 0 <= i < next.len() implies #[trigger] mirrors(
                forest[i],
                next[i],
            ) by {
                if i < next.len() - 1 {
                    assert(mirrors(forest.drop_last()[i], next.drop_last()[i]));
                }
            }
        }
        if forest.len() == next.len() && forall|i: int|
            0 <= i < next.len() ==> #[trigger] mirrors(forest[i], next[i]) {
            assert forall|i: int| 0 <= i < next.len() - 1 implies #[trigger] mirrors(
                forest.drop_last()[i],
                next.drop_last()[i],
            ) by {
                assert(mirrors(forest[i], next[i]));
            }
            assert(mirrors(forest[next.len() - 1], next[next.len() - 1]));
        }
    }
}

/// Whether the remote side is told of the new subscription of an element
/// that is updated: only where both of its lists of kinds change.
pub open spec fn resubscribes<T: Message>(event: Subscriptions, next: Binding<T>) -> bool {
    event.plain != next.plain && event.prevent != next.prevent
}

/// The subscription of an element after an update: the kinds that `next`
/// subscribes to, under the handle that the element has.
pub open spec fn subscribed<T: Message>(event: Subscriptions, next: Binding<T>) -> Subscriptions {
    Subscriptions { id: event.id, plain: next.plain, prevent: next.prevent }
}

/// Whether `out` is what the rendered node `node` becomes when `next` is
/// drawn over it. A node that already shows `next` stays as it is. A text
/// takes the new text. An element of the same tag keeps its handle, takes
/// the classes, the props and the subscribed kinds of `next`, and settles
/// its children. Anything else gives way to a new node, which shows `next`
/// under new handles.
pub open spec fn settled_one<T: Message>(node: Retained, next: Outline<T>, out: Retained) -> bool
    decreases next, 0nat,
{
    if mirrors(node, next) {
        out == node
    } else {
        match next {
            Outline::Text { text } => out == (Retained::Text { text }),
            Outline::Element { tag, class, props, event, children, .. } => {
                if node is Element && node->tag == tag {
                    &&& out is Element
                    &&& out->tag == tag
                    &&& out->class == class
                    &&& out->props == props
                    &&& out->event == subscribed(node->event, event)
                    &&& settled(node->children, children, out->children)
                } else {
                    mirrors(out, next)
                }
            },
            Outline::Portal { .. } => false,
        }
    }
}

/// Whether the first `n` trees of `out` are what the trees of the rendered
/// forest become when `next` is drawn over it.
pub open spec fn settled_upto<T: Message>(
    forest: Seq<Retained>,
    next: Seq<Outline<T>>,
    out: Seq<Retained>,
    n: nat,
) -> bool
    decreases next, n,
{
    if n == 0 || n > next.len() {
        true
    } else {
        &&& settled_upto(forest, next, out, (n - 1) as nat)
        &&& if n - 1 < forest.len() {
            settled_one(forest[n - 1], next[n - 1], out[n - 1])
        } else {
            mirrors(out[n - 1], next[n - 1])
        }
    }
}

/// Whether `out` is what the rendered forest becomes when `next` is drawn
/// over it: as many trees as `next` has, each settled over the tree that
/// stood at its place, or new where none stood there.
pub open spec fn settled<T: Message>(
    forest: Seq<Retained>,
    next: Seq<Outline<T>>,
    out: Seq<Retained>,
) -> bool
    decreases next, next.len() + 1,
{
    out.len() == next.len() && settled_upto(forest, next, out, next.len())
}

/// Whether the tree at place `i` of `out` is settled.
pub open spec fn settled_at<T: Message>(
    forest: Seq<Retained>,
    next: Seq<Outline<T>>,
    out: Seq<Retained>,
    i: int,
) -> bool {
    if i < forest.len() {
        settled_one(forest[i], next[i], out[i])
    } else {
        mirrors(out[i], next[i])
    }
}

/// The first `n` trees are settled where each of them is.
pub proof fn lemma_settled_upto<T: Message>(
    forest: Seq<Retained>,
    next: Seq<Outline<T>>,
    out: Seq<Retained>,
    n: nat,
)
    requires
        n <= next.len(),
    ensures
        settled_upto(forest, next, out, n) <==> forall|i: int|
            0 <= i < n ==> #[trigger] settled_at(forest, next, out, i),
    decreases n,
{
    if n > 0 {
        lemma_settled_upto(forest, next, out, (n - 1) as nat);
        if settled_upto(forest, next, out, n) {
            assert(settled_at(forest, next, out, n - 1));
        }
        if forall|i: int| 0 <= i < n ==> #[trigger] settled_at(forest, next, out, i) {
            assert(settled_at(forest, next, out, n - 1));
        }
    }
}

/// The changes that bring the names `current` to hold what `next` holds:
/// the new names are added, then the missing ones removed.
pub open spec fn name_changes(current: Seq<Seq<char>>, next: Seq<Seq<char>>) -> Seq<NameChange> {
    additions_of(firsts(current, next)) + removals_of(dropped(current, next))
}

/// The changes that add `names`, one by one.
pub open spec fn additions_of(names: Seq<Seq<char>>) -> Seq<NameChange> {
    names.map_values(|name: Seq<char>| NameChange::Add(name))
}

/// The changes that remove `names`, one by one.
pub open spec fn removals_of(names: Seq<Seq<char>>) -> Seq<NameChange> {
    names.map_values(|name: Seq<char>| NameChange::Remove(name))
}

/// The command, if any, for the place `index` where `node` stood, `next`
/// is drawn and `out` stands now.
pub open spec fn patch_for<T: Message>(
    index: int,
    node: Retained,
    next: Outline<T>,
    out: Retained,
) -> Option<Patch>
    decreases next, 0nat,
{
    if mirrors(node, next) {
        None
    } else {
        match next {
            Outline::Text { text } => if node is Text {
                Some(Patch::UpdateText { index, new_text: text })
            } else {
                Some(Patch::ReplaceToText { index, text })
            },
            Outline::Element { tag, class, props, event, children, .. } => {
                if node is Element && node->tag == tag {
                    Some(
                        Patch::UpdateElement {
                            index,
                            class_diff: name_changes(node->class, class),
                            props_diff: name_changes(node->props, props),
                            event_diff: if resubscribes(node->event, event) {
                                Some(subscribed(node->event, event))
                            } else {
                                None
                            },
                            children: patches_for(node->children, children, out->children),
                        },
                    )
                } else {
                    Some(
                        Patch::ReplaceToElement {
                            index,
                            new_tag: tag,
                            classes: class,
                            props,
                            event: out->event,
                            children: patches_for(Seq::empty(), children, out->children),
                        },
                    )
                }
            },
            Outline::Portal { .. } => None,
        }
    }
}

/// The command that inserts, at the place `index`, the new node `out` that
/// shows `next`. The command carries the whole subtree.
pub open spec fn insert_for<T: Message>(index: int, next: Outline<T>, out: Retained) -> Patch
    decreases next, 0nat,
{
    match next {
        Outline::Element { tag, class, props, event, children, .. } => Patch::InsertElement {
            index,
            tag,
            classes: class,
            props,
            event: out->event,
            children: patches_for(Seq::empty(), children, out->children),
        },
        Outline::Text { text } => Patch::InsertText { index, text },
        Outline::Portal { .. } => Patch::Remove { index },
    }
}

/// The commands for the first `n` places of a forest, in the order of the
/// places.
pub open spec fn patches_upto<T: Message>(
    forest: Seq<Retained>,
    next: Seq<Outline<T>>,
    out: Seq<Retained>,
    n: nat,
) -> Seq<Patch>
    decreases next, n,
{
    if n == 0 || n > next.len() {
        Seq::empty()
    } else {
        let before = patches_upto(forest, next, out, (n - 1) as nat);
        let i = n - 1;
        if i < forest.len() {
            match patch_for(i, forest[i], next[i], out[i]) {
                Some(patch) => before.push(patch),
                None => before,
            }
        } else {
            before.push(insert_for(i, next[i], out[i]))
        }
    }
}

/// As many removals at the place `index` as `times` says. Each removal
/// shifts the later nodes one place to the left, so all go to the place of
/// the first node that leaves.
pub open spec fn removals(index: int, times: int) -> Seq<Patch> {
    Seq::new(if times > 0 { times as nat } else { 0 }, |k: int| Patch::Remove { index })
}

/// The commands that bring the rendered forest `forest` to `out`, which
/// shows `next`: for each place of `next` its command, if it needs one,
/// and then the removals of the trees that `next` has no place for.
pub open spec fn patches_for<T: Message>(
    forest: Seq<Retained>,
    next: Seq<Outline<T>>,
    out: Seq<Retained>,
) -> Seq<Patch>
    decreases next, next.len() + 1,
{
    patches_upto(forest, next, out, next.len()) + removals(
        next.len() as int,
        forest.len() - next.len(),
    )
}

/// What a draw does to the registered handles: those of `left` leave, those
/// of `came` enter, and none that enters was held by a node that stays.
pub open spec fn rehomed(before: Set<u128>, left: Set<u128>, came: Set<u128>, after: Set<u128>) -> bool {
    &&& after == before.difference(left).union(came)
    &&& came.disjoint(before.difference(left))
}

/// Whether `after` holds under each handle of `ids` what `before` holds
/// under it.
pub open spec fn agree<T: Message>(
    before: Map<u128, EventCallback<T>>,
    after: Map<u128, EventCallback<T>>,
    ids: Set<u128>,
) -> bool {
    forall|id: u128|
        #![trigger ids.contains(id)]
        ids.contains(id) ==> after.contains_key(id) == before.contains_key(id) && after[id]
            == before[id]
}

/// Whether each element of the rendered tree `out` answers with the
/// callback that `next` holds for the element at its place.
pub open spec fn wired<T: Message>(
    out: Retained,
    next: Outline<T>,
    events: Map<u128, EventCallback<T>>,
) -> bool
    decreases next, 0nat,
{
    match next {
        Outline::Element { event, children, .. } => {
            &&& out is Element
            &&& events.contains_key(out->event.id)
            &&& events[out->event.id] == event.handler
            &&& out->children.len() == children.len()
            &&& wired_upto(out->children, children, events, children.len())
        },
        _ => true,
    }
}

/// Whether each element of the first `n` rendered trees answers with the
/// callback that `next` holds for the element at its place.
pub open spec fn wired_upto<T: Message>(
    out: Seq<Retained>,
    next: Seq<Outline<T>>,
    events: Map<u128, EventCallback<T>>,
    n: nat,
) -> bool
    decreases next, n,
{
    if n == 0 || n > next.len() {
        true
    } else {
        wired_upto(out, next, events, (n - 1) as nat) && wired(out[n - 1], next[n - 1], events)
    }
}

/// Whether each element of the rendered forest `out` answers with the
/// callback that the frame `next` holds for the element at its place: the
/// callbacks of a frame replace those of the frame before, for the elements
/// that stay as for the new ones.
pub open spec fn wired_all<T: Message>(
    out: Seq<Retained>,
    next: Seq<Outline<T>>,
    events: Map<u128, EventCallback<T>>,
) -> bool {
    out.len() == next.len() && wired_upto(out, next, events, next.len())
}

/// The handles of the elements that a draw of `next` over `node` makes
/// new: none where the node stays or is updated, apart from what is new
/// below it, and all handles of the tree where the node gives way to a new
/// one.
pub open spec fn novel_one<T: Message>(node: Retained, next: Outline<T>, out: Retained) -> Set<u128>
    decreases next, 0nat,
{
    if mirrors(node, next) {
        Set::empty()
    } else {
        match next {
            Outline::Element { tag, children, .. } => {
                if node is Element && node->tag == tag {
                    novel_upto(node->children, children, out->children, children.len())
                } else {
                    owned_tree(out)
                }
            },
            _ => Set::empty(),
        }
    }
}

/// The handles of the elements that a draw makes new at the first `n`
/// places.
pub open spec fn novel_upto<T: Message>(
    forest: Seq<Retained>,
    next: Seq<Outline<T>>,
    out: Seq<Retained>,
    n: nat,
) -> Set<u128>
    decreases next, n,
{
    if n == 0 || n > next.len() {
        Set::empty()
    } else {
        novel_upto(forest, next, out, (n - 1) as nat).union(
            if n - 1 < forest.len() {
                novel_one(forest[n - 1], next[n - 1], out[n - 1])
            } else {
                owned_tree(out[n - 1])
            },
        )
    }
}

/// The handles of the elements that a draw of `next` over `forest` makes
/// new: those that its insert and replace commands carry.
pub open spec fn novel<T: Message>(
    forest: Seq<Retained>,
    next: Seq<Outline<T>>,
    out: Seq<Retained>,
) -> Set<u128> {
    novel_upto(forest, next, out, next.len())
}

/// The new handles at the first `n` places are those of the first `n`
/// trees of `out`.
pub proof fn lemma_novel_prefix<T: Message>(
    forest: Seq<Retained>,
    next: Seq<Outline<T>>,
    x: Seq<Retained>,
    y: Seq<Retained>,
    n: nat,
)
    requires
        n <= next.len(),
        forall|j: int| 0 <= j < n ==> x[j] == y[j],
    ensures
        novel_upto(forest, next, x, n) == novel_upto(forest, next, y, n),
    decreases n,
{
    if n > 0 {
        lemma_novel_prefix(forest, next, x, y, (n - 1) as nat);
    }
}

/// Over nothing, every handle is new.
pub proof fn lemma_novel_new<T: Message>(next: Seq<Outline<T>>, out: Seq<Retained>, n: nat)
    requires
        n <= next.len(),
        n <= out.len(),
    ensures
        novel_upto(Seq::empty(), next, out, n) == owned(out.take(n as int)),
    decreases n,
{
    if n == 0 {
        assert(out.take(0) =~= Seq::<Retained>::empty());
    } else {
        lemma_novel_new(next, out, (n - 1) as nat);
        assert(out.take(n as int).drop_last() =~= out.take(n - 1));
        assert(out.take(n as int).last() == out[n - 1]);
    }
}

/// The handles of a forest hold those of each of its trees.
pub proof fn lemma_owned_holds(forest: Seq<Retained>, i: int)
    requires
        0 <= i < forest.len(),
    ensures
        owned_tree(forest[i]).subset_of(owned(forest)),
    decreases forest.len(),
{
    if i < forest.len() - 1 {
        lemma_owned_holds(forest.drop_last(), i);
    }
}

/// Registries that agree under some handles agree under each part of them.
pub proof fn lemma_agree_part<T: Message>(
    a: Map<u128, EventCallback<T>>,
    b: Map<u128, EventCallback<T>>,
    ids: Set<u128>,
    part: Set<u128>,
)
    requires
        agree(a, b, ids),
        part.subset_of(ids),
    ensures
        agree(a, b, part),
        agree(b, a, part),
{
    assert forall|id: u128| #![trigger part.contains(id)] part.contains(id) implies b.contains_key(
        id,
    ) == a.contains_key(id) && b[id] == a[id] by {
        assert(ids.contains(id));
    }
}

/// Agreement under some handles carries over from registry to registry.
pub proof fn lemma_agree_chain<T: Message>(
    a: Map<u128, EventCallback<T>>,
    b: Map<u128, EventCallback<T>>,
    c: Map<u128, EventCallback<T>>,
    ids: Set<u128>,
)
    requires
        agree(a, b, ids),
        agree(b, c, ids),
    ensures
        agree(a, c, ids),
{
}

/// The handles of an element hold its own and those of its children.
pub proof fn lemma_owned_tree_holds(node: Retained)
    requires
        node is Element,
    ensures
        owned_tree(node).contains(node->event.id),
        owned(node->children).subset_of(owned_tree(node)),
        set![node->event.id].subset_of(owned_tree(node)),
{
}

/// A tree stays wired where the registry changes under other handles only.
pub proof fn lemma_wired_frame<T: Message>(
    out: Retained,
    next: Outline<T>,
    a: Map<u128, EventCallback<T>>,
    b: Map<u128, EventCallback<T>>,
)
    requires
        wired(out, next, a),
        agree(a, b, owned_tree(out)),
    ensures
        wired(out, next, b),
    decreases next, 0nat,
{
    match next {
        Outline::Element { children, .. } => {
            lemma_owned_tree_holds(out);
            lemma_agree_part(a, b, owned_tree(out), owned(out->children));
            lemma_wired_upto_frame(out->children, children, a, b, children.len());
        },
        _ => {},
    }
}

/// Trees stay wired where the registry changes under other handles only.
pub proof fn lemma_wired_upto_frame<T: Message>(
    out: Seq<Retained>,
    next: Seq<Outline<T>>,
    a: Map<u128, EventCallback<T>>,
    b: Map<u128, EventCallback<T>>,
    n: nat,
)
    requires
        wired_upto(out, next, a, n),
        n <= next.len(),
        n <= out.len(),
        agree(a, b, owned(out)),
    ensures
        wired_upto(out, next, b, n),
    decreases next, n,
{
    if n > 0 {
        lemma_wired_upto_frame(out, next, a, b, (n - 1) as nat);
        lemma_owned_holds(out, n - 1);
        lemma_agree_part(a, b, owned(out), owned_tree(out[n - 1]));
        lemma_wired_frame(out[n - 1], next[n - 1], a, b);
    }
}

/// Whether the first `n` trees are wired looks at these trees only.
pub proof fn lemma_wired_upto_prefix<T: Message>(
    next: Seq<Outline<T>>,
    x: Seq<Retained>,
    y: Seq<Retained>,
    events: Map<u128, EventCallback<T>>,
    n: nat,
)
    requires
        n <= next.len(),
        forall|j: int| 0 <= j < n ==> x[j] == y[j],
    ensures
        wired_upto(x, next, events, n) == wired_upto(y, next, events, n),
    decreases n,
{
    if n > 0 {
        lemma_wired_upto_prefix(next, x, y, events, (n - 1) as nat);
    }
}

impl RenderedVNode {
    /// Whether the rendered node differs from what `other` describes.
    #[verifier::loop_isolation(false)]
    pub fn is_different<T: Message>(&self, other: &PortalExpandedVNode<T>) -> (differs: bool)
        ensures
            differs == !mirrors(self@, other@),
        decreases self,
    {
        match self {
            RenderedVNode::Text { text } => match other {
                PortalExpandedVNode::Text { text: other_text } => !(*text == *other_text),
                PortalExpandedVNode::Element { .. } => true,
            },
            RenderedVNode::Element { tag, class, props, event, children } => match other {
                PortalExpandedVNode::Text { .. } => true,
                PortalExpandedVNode::Element {
                    tag: other_tag,
                    class: other_class,
                    props: other_props,
                    event: other_event,
                    children: other_children,
                } => {
                    proof {
                        lemma_retained(children@);
                        lemma_expanded(other_children@);
                        lemma_mirrors_all(retained(children@), expanded(other_children@));
                    }
                    if !(*tag == *other_tag) || !same_names(class, other_class) || !same_names(
                        props,
                        other_props,
                    ) || !same_kinds(&event.handle_events, &other_event.handle_events)
                        || !same_kinds(
                        &event.handle_prevent_default_events,
                        &other_event.handle_prevent_default_events,
                    ) || children.len() != other_children.len() {
                        return true;
                    }
                    let mut i: usize = 0;
                    while i < children.len()
                        invariant
                            i <= children.len(),
                            children.len() == other_children.len(),
                            retained(children@).len() == children.len(),
                            expanded(other_children@).len() == other_children.len(),
                            forall|j: int|
                                0 <= j < children.len() ==> (#[trigger] retained(children@)[j])
                                    == children[j]@,
                            forall|j: int|
                                0 <= j < children.len() ==> (#[trigger] expanded(
                                    other_children@,
                                )[j]) == other_children[j]@,
                            forall|j: int|
                                0 <= j < i ==> mirrors(
                                    #[trigger] retained(children@)[j],
                                    expanded(other_children@)[j],
                                ),
                            self matches RenderedVNode::Element { children: c, .. } && c
                                == children,
                        decreases children.len() - i,
                    {
                        if children[i].is_different(&other_children[i]) {
                            assert(!mirrors(
                                retained(children@)[i as int],
                                expanded(other_children@)[i as int],
                            ));
                            return true;
                        }
                        i = i + 1;
                    }
                    assert(mirrors_all(retained(children@), expanded(other_children@)));
                    false
                },
            },
        }
    }
}

/// Gives every element of `node`, which shows `next`, the callback that
/// `next` holds for it: the callbacks of a frame capture what the frame was
/// built from, so each draw renews them, also where nothing else changes.
pub fn refresh<T: Message>(
    node: &RenderedVNode,
    next: PortalExpandedVNode<T>,
    events: &mut EventRegistry<T>,
)
    requires
        mirrors(node@, next@),
        distinct_tree(node@),
        owned_tree(node@).subset_of(old(events)@.dom()),
    ensures
        final(events)@.dom() == old(events)@.dom(),
        final(events).retired() == old(events).retired(),
        wired(node@, next@, final(events)@),
        agree(old(events)@, final(events)@, old(events)@.dom().difference(owned_tree(node@))),
    decreases next,
{
    match next {
        PortalExpandedVNode::Text { .. } => {},
        PortalExpandedVNode::Element { event, children, .. } => {
            match node {
                RenderedVNode::Element { event: held, children: held_children, .. } => {
                    let ghost below = retained(held_children@);
                    let ghost wanted = expanded(children@);
                    proof {
                        lemma_owned_tree_holds(node@);
                        lemma_mirrors_all(below, wanted);
                        lemma_expanded(children@);
                        lemma_retained(held_children@);
                    }
                    refresh_all(held_children, children, events);
                    let ghost renewed = events@;
                    events.register(held.id.0, event.handler);
                    proof {
                        assert(events@.dom() =~= old(events)@.dom());
                        assert(agree(renewed, events@, owned(below)));
                        lemma_wired_upto_frame(below, wanted, renewed, events@, wanted.len());
                        lemma_agree_part(
                            old(events)@,
                            renewed,
                            old(events)@.dom().difference(owned(below)),
                            old(events)@.dom().difference(owned_tree(node@)),
                        );
                    }
                },
                RenderedVNode::Text { .. } => {},
            }
        },
    }
}

/// Two trees of a forest whose elements share no handle have none in
/// common.
pub proof fn lemma_distinct_front(forest: Seq<Retained>, n: int)
    requires
        distinct(forest),
        0 <= n < forest.len(),
    ensures
        distinct(forest.take(n)),
        distinct_tree(forest[n]),
        owned(forest.take(n)).disjoint(owned_tree(forest[n])),
        owned(forest.take(n + 1)) == owned(forest.take(n)).union(owned_tree(forest[n])),
        owned(forest.take(n + 1)).subset_of(owned(forest)),
{
    let front = forest.take(n + 1);
    assert(front + forest.skip(n + 1) =~= forest);
    lemma_owned_concat(front, forest.skip(n + 1));
    assert(front.drop_last() =~= forest.take(n));
    assert(front.last() == forest[n]);
}

/// Gives every element of `nodes`, which show `next`, the callback that
/// `next` holds for it.
pub fn refresh_all<T: Message>(
    nodes: &Vec<RenderedVNode>,
    next: Vec<PortalExpandedVNode<T>>,
    events: &mut EventRegistry<T>,
)
    requires
        mirrors_all(retained(nodes@), expanded(next@)),
        distinct(retained(nodes@)),
        owned(retained(nodes@)).subset_of(old(events)@.dom()),
    ensures
        final(events)@.dom() == old(events)@.dom(),
        final(events).retired() == old(events).retired(),
        wired_upto(retained(nodes@), expanded(next@), final(events)@, next.len() as nat),
        agree(
            old(events)@,
            final(events)@,
            old(events)@.dom().difference(owned(retained(nodes@))),
        ),
    decreases next,
{
    let ghost shown = retained(nodes@);
    let ghost wanted = expanded(next@);
    let mut at: usize = 0;
    proof {
        lemma_retained(nodes@);
        lemma_expanded(next@);
        lemma_mirrors_all(shown, wanted);
    }
    for wanted_node in it: next
        invariant
            at == it.index(),
            shown == retained(nodes@),
            wanted == expanded(next@),
            shown.len() == nodes.len(),
            wanted.len() == next.len(),
            nodes.len() == next.len(),
            forall|j: int| 0 <= j < nodes.len() ==> (#[trigger] shown[j]) == nodes[j]@,
            forall|j: int| 0 <= j < next.len() ==> (#[trigger] wanted[j]) == next[j]@,
            forall|j: int| 0 <= j < next.len() ==> #[trigger] mirrors(shown[j], wanted[j]),
            distinct(shown),
            owned(shown).subset_of(old(events)@.dom()),
            events@.dom() == old(events)@.dom(),
            events.retired() == old(events).retired(),
            wired_upto(shown, wanted, events@, at as nat),
            agree(old(events)@, events@, old(events)@.dom().difference(owned(shown))),
    {
        let ghost k = at as int;
        let ghost before = events@;
        proof {
            assert(wanted_node == next[k]);
            assert(mirrors(shown[k], wanted[k]));
            lemma_distinct_front(shown, k);
            lemma_owned_holds(shown, k);
        }
        refresh(&nodes[at], wanted_node, events);
        proof {
            let front = shown.take(k);
            lemma_agree_part(
                before,
                events@,
                before.dom().difference(owned_tree(shown[k])),
                owned(front),
            );
            lemma_wired_upto_prefix(wanted, shown, front, before, k as nat);
            lemma_wired_upto_frame(front, wanted, before, events@, k as nat);
            lemma_wired_upto_prefix(wanted, shown, front, events@, k as nat);
            lemma_agree_part(
                before,
                events@,
                before.dom().difference(owned_tree(shown[k])),
                old(events)@.dom().difference(owned(shown)),
            );
            lemma_agree_chain(
                old(events)@,
                before,
                events@,
                old(events)@.dom().difference(owned(shown)),
            );
        }
        at = at + 1;
    }
}

/// Takes the callbacks of every element of `node` out of `events`.
pub fn release<T: Message>(node: &RenderedVNode, events: &mut EventRegistry<T>)
    ensures
        final(events)@ == old(events)@.remove_keys(owned_tree(node@)),
        old(events).taken().subset_of(final(events).taken()),
    decreases node,
{
    match node {
        RenderedVNode::Text { .. } => {
            assert(old(events)@.remove_keys(owned_tree(node@)) =~= old(events)@);
        },
        RenderedVNode::Element { event, children, .. } => {
            release_all(children, events);
            events.deregister(event.id.0);
            assert(events@ =~= old(events)@.remove_keys(owned_tree(node@)));
        },
    }
}

/// Takes the callbacks of every element of `nodes` out of `events`.
pub fn release_all<T: Message>(nodes: &Vec<RenderedVNode>, events: &mut EventRegistry<T>)
    ensures
        final(events)@ == old(events)@.remove_keys(owned(retained(nodes@))),
        old(events).taken().subset_of(final(events).taken()),
    decreases nodes,
{
    let ghost all = retained(nodes@);
    let mut i: usize = 0;
    proof {
        lemma_retained(nodes@);
        assert(all.take(0) =~= Seq::empty());
        assert(events@ =~= old(events)@.remove_keys(owned(all.take(0))));
    }
    while i < nodes.len()
        invariant
            i <= nodes.len(),
            all == retained(nodes@),
            all.len() == nodes.len(),
            forall|j: int| 0 <= j < nodes.len() ==> (#[trigger] all[j]) == nodes[j]@,
            events@ == old(events)@.remove_keys(owned(all.take(i as int))),
            old(events).taken().subset_of(events.taken()),
        decreases nodes.len() - i,
    {
        let ghost before = events@;
        release(&nodes[i], events);
        proof {
            assert(all.take(i + 1).drop_last() =~= all.take(i as int));
            assert(all.take(i + 1).last() == nodes[i as int]@);
            assert(events@ =~= old(events)@.remove_keys(owned(all.take(i + 1))));
        }
        i = i + 1;
    }
    proof {
        assert(all.take(nodes.len() as int) =~= all);
    }
}

} // verus!

verus! {

/// The commands for the first `n` places look at the first `n` trees of
/// `out` only.
pub proof fn lemma_patches_upto_prefix<T: Message>(
    forest: Seq<Retained>,
    next: Seq<Outline<T>>,
    a: Seq<Retained>,
    b: Seq<Retained>,
    n: nat,
)
    requires
        n <= next.len(),
        forall|j: int| 0 <= j < n ==> a[j] == b[j],
    ensures
        patches_upto(forest, next, a, n) == patches_upto(forest, next, b, n),
    decreases n,
{
    if n > 0 {
        lemma_patches_upto_prefix(forest, next, a, b, (n - 1) as nat);
    }
}

/// A forest drawn where none stood is settled exactly where it shows what
/// was drawn.
pub proof fn lemma_settled_new<T: Message>(next: Seq<Outline<T>>, out: Seq<Retained>)
    ensures
        settled(Seq::empty(), next, out) <==> mirrors_all(out, next),
{
    let none = Seq::<Retained>::empty();
    lemma_mirrors_all(out, next);
    if out.len() == next.len() {
        lemma_settled_upto(none, next, out, next.len());
        if settled(none, next, out) {
            assert forall|i: int| 0 <= i < next.len() implies #[trigger] mirrors(out[i], next[i]) by {
                assert(settled_at(none, next, out, i));
            }
        }
        if mirrors_all(out, next) {
            assert forall|i: int| 0 <= i < next.len() implies #[trigger] settled_at(
                none,
                next,
                out,
                i,
            ) by {
                assert(mirrors(out[i], next[i]));
            }
        }
    }
}

/// The class changes that add `added` and then remove `dropped`.
fn class_diff_of(added: Vec<String>, dropped: Vec<String>) -> (diff: Vec<DifferenceClass>)
    ensures
        class_changes(diff@) == additions_of(added.deep_view()) + removals_of(dropped.deep_view()),
{
    let mut diff: Vec<DifferenceClass> = Vec::new();
    let ghost adds = added.deep_view();
    let ghost drops = dropped.deep_view();
    proof {
        assert(class_changes(diff@) =~= additions_of(adds.take(0)));
    }
    for name in it: added
        invariant
            adds == added.deep_view(),
            class_changes(diff@) == additions_of(adds.take(it.index() as int)),
    {
        let ghost before = class_changes(diff@);
        let ghost i = it.index() as int;
        proof {
            assert(name == added[i]);
            assert(adds[i] == name@);
        }
        diff.push(DifferenceClass::Add(name));
        proof {
            assert(class_changes(diff@) =~= before.push(NameChange::Add(adds[i])));
            assert(additions_of(adds.take(i + 1)) =~= additions_of(adds.take(i)).push(
                NameChange::Add(adds[i]),
            ));
        }
    }
    proof {
        assert(adds.take(added.len() as int) =~= adds);
        assert(class_changes(diff@) =~= additions_of(adds) + removals_of(drops.take(0)));
    }
    for name in it: dropped
        invariant
            drops == dropped.deep_view(),
            class_changes(diff@) == additions_of(adds) + removals_of(drops.take(it.index() as int)),
    {
        let ghost before = class_changes(diff@);
        let ghost i = it.index() as int;
        proof {
            assert(name == dropped[i]);
            assert(drops[i] == name@);
        }
        diff.push(DifferenceClass::Remove(name));
        proof {
            assert(class_changes(diff@) =~= before.push(NameChange::Remove(drops[i])));
            assert(removals_of(drops.take(i + 1)) =~= removals_of(drops.take(i)).push(
                NameChange::Remove(drops[i]),
            ));
            assert(class_changes(diff@) =~= additions_of(adds) + removals_of(drops.take(i + 1)));
        }
    }
    proof {
        assert(drops.take(dropped.len() as int) =~= drops);
    }
    diff
}

/// The prop changes that add `added` and then remove `dropped`.
fn props_diff_of(added: Vec<String>, dropped: Vec<String>) -> (diff: Vec<DifferenceProps>)
    ensures
        props_changes(diff@) == additions_of(added.deep_view()) + removals_of(dropped.deep_view()),
{
    let mut diff: Vec<DifferenceProps> = Vec::new();
    let ghost adds = added.deep_view();
    let ghost drops = dropped.deep_view();
    proof {
        assert(props_changes(diff@) =~= additions_of(adds.take(0)));
    }
    for name in it: added
        invariant
            adds == added.deep_view(),
            props_changes(diff@) == additions_of(adds.take(it.index() as int)),
    {
        let ghost before = props_changes(diff@);
        let ghost i = it.index() as int;
        proof {
            assert(name == added[i]);
            assert(adds[i] == name@);
        }
        diff.push(DifferenceProps::Add(name));
        proof {
            assert(props_changes(diff@) =~= before.push(NameChange::Add(adds[i])));
            assert(additions_of(adds.take(i + 1)) =~= additions_of(adds.take(i)).push(
                NameChange::Add(adds[i]),
            ));
        }
    }
    proof {
        assert(adds.take(added.len() as int) =~= adds);
        assert(props_changes(diff@) =~= additions_of(adds) + removals_of(drops.take(0)));
    }
    for name in it: dropped
        invariant
            drops == dropped.deep_view(),
            props_changes(diff@) == additions_of(adds) + removals_of(drops.take(it.index() as int)),
    {
        let ghost before = props_changes(diff@);
        let ghost i = it.index() as int;
        proof {
            assert(name == dropped[i]);
            assert(drops[i] == name@);
        }
        diff.push(DifferenceProps::Remove(name));
        proof {
            assert(props_changes(diff@) =~= before.push(NameChange::Remove(drops[i])));
            assert(removals_of(drops.take(i + 1)) =~= removals_of(drops.take(i)).push(
                NameChange::Remove(drops[i]),
            ));
            assert(props_changes(diff@) =~= additions_of(adds) + removals_of(drops.take(i + 1)));
        }
    }
    proof {
        assert(drops.take(dropped.len() as int) =~= drops);
    }
    diff
}

/// A new element: the rendered node, and what the command that announces
/// it carries.
pub struct Planted {
    pub node: RenderedVNode,
    pub tag: String,
    pub classes: Vec<String>,
    pub props: Vec<String>,
    pub event: HandleEvent,
    pub children: Vec<DifferenceCommand>,
}

/// The description of an element with these parts.
pub open spec fn element_of<T: Message>(
    tag: String,
    class: Vec<String>,
    props: Vec<String>,
    event: BundledEventHandler<T>,
    children: Vec<PortalExpandedVNode<T>>,
) -> Outline<T> {
    Outline::Element {
        tag: tag@,
        class: class.deep_view(),
        props: props.deep_view(),
        event: event@,
        children: expanded(children@),
        style: None,
    }
}

/// Renders a new element under a handle that is not in use, registers its
/// callback, and renders its children under it.
pub fn plant<T: Message>(
    tag: String,
    class: Vec<String>,
    props: Vec<String>,
    event: BundledEventHandler<T>,
    children: Vec<PortalExpandedVNode<T>>,
    events: &mut EventRegistry<T>,
) -> (planted: Planted)
    ensures
        mirrors(planted.node@, element_of(tag, class, props, event, children)),
        planted.tag@ == tag@,
        planted.classes.deep_view() == class.deep_view(),
        planted.props.deep_view() == props.deep_view(),
        planted.node@ is Element,
        planted.event@ == planted.node@->event,
        patches(planted.children@) == patches_for(
            Seq::empty(),
            expanded(children@),
            planted.node@->children,
        ),
        distinct_tree(planted.node@),
        rehomed(
            old(events)@.dom(),
            Set::empty(),
            owned_tree(planted.node@),
            final(events)@.dom(),
        ),
        wired(planted.node@, element_of(tag, class, props, event, children), final(events)@),
        agree(old(events)@, final(events)@, old(events)@.dom()),
        owned_tree(planted.node@).disjoint(old(events).taken()),
        old(events).taken().subset_of(final(events).taken()),
    decreases children, 1nat,
{
    let ghost below = expanded(children@);
    let BundledEventHandler { handler, handle_events, handle_prevent_default_events } = event;
    let id = events.unused_handle();
    events.register(id, handler);
    let ghost registered = events@;
    let ghost children_before = children@;
    let mut none: Vec<RenderedVNode> = Vec::new();
    proof {
        assert(retained(none@) =~= Seq::empty());
        assert(owned(retained(none@)) =~= Set::empty());
    }
    let (kids, commands) = diff_vnodes(none, children, events);
    let node = RenderedVNode::Element {
        tag: tag.clone(),
        class: copy_names(&class),
        props: copy_names(&props),
        event: HandledEvents {
            id: EventHandleId(id),
            handle_events: copy_kinds(&handle_events),
            handle_prevent_default_events: copy_kinds(&handle_prevent_default_events),
        },
        children: kids,
    };
    proof {
        lemma_settled_new(below, retained(kids@));
        assert(owned_tree(node@) =~= owned(retained(kids@)).insert(id));
        assert(events@.dom() =~= old(events)@.dom().difference(Set::empty()).union(
            owned_tree(node@),
        ));
        assert(registered.dom().difference(Set::empty()) =~= registered.dom());
        lemma_retained(kids@);
        lemma_expanded(children_before);
        lemma_novel_new(below, retained(kids@), below.len());
        assert(retained(kids@).take(below.len() as int) =~= retained(kids@));
        assert(registered.dom().contains(id));
        lemma_agree_part(registered, events@, registered.dom(), old(events)@.dom());
    }
    Planted {
        node,
        tag,
        classes: class,
        props,
        event: HandleEvent {
            handle_id: EventHandleId(id),
            handle_events,
            handle_prevent_default_events,
        },
        children: commands,
    }
}

/// Draws `next` over the rendered node `node`, which stands at the place
/// `index` among its siblings. Returns the node that stands there now and
/// the command for the remote side, if one is needed.
pub fn diff_node<T: Message>(
    index: usize,
    node: RenderedVNode,
    next: PortalExpandedVNode<T>,
    events: &mut EventRegistry<T>,
) -> (outcome: (RenderedVNode, Option<DifferenceCommand>))
    requires
        distinct_tree(node@),
        owned_tree(node@).subset_of(old(events)@.dom()),
    ensures
        settled_one(node@, next@, outcome.0@),
        sent_of(outcome.1) == patch_for(index as int, node@, next@, outcome.0@),
        distinct_tree(outcome.0@),
        rehomed(
            old(events)@.dom(),
            owned_tree(node@),
            owned_tree(outcome.0@),
            final(events)@.dom(),
        ),
        wired(outcome.0@, next@, final(events)@),
        agree(old(events)@, final(events)@, old(events)@.dom().difference(owned_tree(node@))),
        novel_one(node@, next@, outcome.0@).disjoint(old(events).taken()),
        old(events).taken().subset_of(final(events).taken()),
    decreases next, 0nat,
{
    let ghost shape = node@;
    let ghost next_shape = next@;
    if !node.is_different(&next) {
        refresh(&node, next, events);
        proof {
            assert(events@.dom() =~= old(events)@.dom().difference(owned_tree(shape)).union(
                owned_tree(shape),
            ));
        }
        return (node, None);
    }
    match next {
        PortalExpandedVNode::Text { text } => {
            let was_text = match &node {
                RenderedVNode::Text { .. } => true,
                RenderedVNode::Element { .. } => false,
            };
            release(&node, events);
            let command = if was_text {
                DifferenceCommand::UpdateText { index, new_text: text.clone() }
            } else {
                DifferenceCommand::ReplaceToText { index, text: text.clone() }
            };
            let out = RenderedVNode::Text { text };
            proof {
                assert(owned_tree(out@) =~= Set::empty());
                assert(events@.dom() =~= old(events)@.dom().difference(owned_tree(shape)).union(
                    owned_tree(out@),
                ));
            }
            (out, Some(command))
        },
        PortalExpandedVNode::Element { tag, class, props, event, children } => {
            let ghost below = expanded(children@);
            let same_tag = match &node {
                RenderedVNode::Element { tag: held_tag, .. } => *held_tag == tag,
                RenderedVNode::Text { .. } => false,
            };
            if same_tag {
                match node {
                    RenderedVNode::Element {
                        tag: held_tag,
                        class: held_class,
                        props: held_props,
                        event: held,
                        children: held_children,
                    } => {
                        let ghost held_shape = held@;
                        let ghost held_below = retained(held_children@);
                        let ghost next_event = event@;
                        let (class_added, class_dropped) = diff_names(held_class, &class);
                        let (props_added, props_dropped) = diff_names(held_props, &props);
                        let class_diff = class_diff_of(class_added, class_dropped);
                        let props_diff = props_diff_of(props_added, props_dropped);
                        let both = !same_kinds(&held.handle_events, &event.handle_events)
                            && !same_kinds(
                            &held.handle_prevent_default_events,
                            &event.handle_prevent_default_events,
                        );
                        let BundledEventHandler {
                            handler,
                            handle_events,
                            handle_prevent_default_events,
                        } = event;
                        let id = held.id;
                        let event_now = HandledEvents {
                            id,
                            handle_events: copy_kinds(&handle_events),
                            handle_prevent_default_events: copy_kinds(
                                &handle_prevent_default_events,
                            ),
                        };
                        let event_diff = if both {
                            DifferenceEvent::Update(
                                HandleEvent {
                                    handle_id: id,
                                    handle_events,
                                    handle_prevent_default_events,
                                },
                            )
                        } else {
                            DifferenceEvent::Unchanged
                        };
                        proof {
                            lemma_owned_tree_parts(shape);
                            lemma_owned_tree_holds(shape);
                        }
                        events.register(id.0, handler);
                        let ghost renewed = events@;
                        proof {
                            assert(renewed.dom() =~= old(events)@.dom());
                            assert(events.taken() =~= old(events).taken());
                            lemma_expanded(children@);
                        }
                        let (kids, commands) = diff_vnodes(held_children, children, events);
                        let out = RenderedVNode::Element {
                            tag: held_tag,
                            class,
                            props,
                            event: event_now,
                            children: kids,
                        };
                        let command = DifferenceCommand::UpdateElement {
                            index,
                            class_diff,
                            props_diff,
                            event_diff,
                            children: commands,
                        };
                        proof {
                            assert(out@->event == subscribed(held_shape, next_event));
                            assert(owned_tree(out@) =~= owned(retained(kids@)).insert(id.0));
                            assert(owned_tree(shape) =~= owned(held_below).insert(id.0));
                            assert(events@.dom() =~= old(events)@.dom().difference(
                                owned_tree(shape),
                            ).union(owned_tree(out@)));
                            let outside = old(events)@.dom().difference(owned(held_below));
                            assert(outside.contains(id.0));
                            lemma_agree_part(renewed, events@, outside, set![id.0]);
                            assert(set![id.0].contains(id.0));
                            let apart = old(events)@.dom().difference(owned_tree(shape));
                            lemma_agree_part(renewed, events@, outside, apart);
                            assert(agree(old(events)@, renewed, apart));
                            lemma_agree_chain(old(events)@, renewed, events@, apart);
                            assert(wired(out@, next_shape, events@));
                        }
                        (out, Some(command))
                    },
                    RenderedVNode::Text { text } => {
                        proof {
                            assert(false);
                        }
                        (RenderedVNode::Text { text }, None)
                    },
                }
            } else {
                let planted = plant(tag, class, props, event, children, events);
                let ghost planted_events = events@;
                release(&node, events);
                let Planted {
                    node: out,
                    tag: new_tag,
                    classes,
                    props: new_props,
                    event: new_event,
                    children: commands,
                } = planted;
                let command = DifferenceCommand::ReplaceToElement {
                    index,
                    new_tag,
                    classes,
                    props: new_props,
                    event: new_event,
                    children: commands,
                };
                proof {
                    assert(events@.dom() =~= old(events)@.dom().difference(owned_tree(shape)).union(
                        owned_tree(out@),
                    ));
                    let outside = old(events)@.dom().difference(owned_tree(shape));
                    lemma_agree_part(old(events)@, planted_events, old(events)@.dom(), outside);
                    assert(agree(planted_events, events@, outside));
                    lemma_agree_chain(old(events)@, planted_events, events@, outside);
                    assert(agree(planted_events, events@, owned_tree(out@)));
                    lemma_wired_frame(out@, next_shape, planted_events, events@);
                }
                (out, Some(command))
            }
        },
    }
}

/// The content of a command that may be missing.
pub open spec fn sent_of(command: Option<DifferenceCommand>) -> Option<Patch> {
    match command {
        Some(command) => Some(command@),
        None => None,
    }
}

/// The handles of an element are its own and those of its children.
pub proof fn lemma_owned_tree_parts(node: Retained)
    ensures
        node is Element ==> owned_tree(node) == owned(node->children).insert(node->event.id),
        node is Element && distinct_tree(node) ==> distinct(node->children) && !owned(
            node->children,
        ).contains(node->event.id),
{
}

/// Draws the forest `next` over the rendered forest `current`. Returns
/// the forest that is rendered now and the commands that bring the remote
/// side there.
pub fn diff_vnodes<T: Message>(
    current: Vec<RenderedVNode>,
    next: Vec<PortalExpandedVNode<T>>,
    events: &mut EventRegistry<T>,
) -> (outcome: (Vec<RenderedVNode>, Vec<DifferenceCommand>))
    requires
        distinct(retained(current@)),
        owned(retained(current@)).subset_of(old(events)@.dom()),
    ensures
        settled(retained(current@), expanded(next@), retained(outcome.0@)),
        patches(outcome.1@) == patches_for(
            retained(current@),
            expanded(next@),
            retained(outcome.0@),
        ),
        distinct(retained(outcome.0@)),
        rehomed(
            old(events)@.dom(),
            owned(retained(current@)),
            owned(retained(outcome.0@)),
            final(events)@.dom(),
        ),
        wired_all(retained(outcome.0@), expanded(next@), final(events)@),
        agree(
            old(events)@,
            final(events)@,
            old(events)@.dom().difference(owned(retained(current@))),
        ),
        novel(retained(current@), expanded(next@), retained(outcome.0@)).disjoint(
            old(events).taken(),
        ),
        old(events).taken().subset_of(final(events).taken()),
    decreases next, 0nat,
{
    let ghost forest = retained(current@);
    let ghost wanted = expanded(next@);
    let ghost foreign = old(events)@.dom().difference(owned(forest));
    let held = current.len();
    let asked = next.len();
    let mut stack = reversed(current);
    let mut out: Vec<RenderedVNode> = Vec::new();
    let mut commands: Vec<DifferenceCommand> = Vec::new();
    let mut at: usize = 0;
    proof {
        lemma_retained(current@);
        lemma_expanded(next@);
        assert(current@.skip(0) =~= current@);
        assert(forest.skip(0) =~= forest);
        assert(retained(out@) =~= Seq::empty());
        assert(owned(retained(out@)) =~= Set::empty());
        assert(patches(commands@) =~= Seq::empty());
        assert(events@.dom() =~= foreign.union(owned(retained(out@))).union(owned(forest.skip(0))));
    }
    for wanted_node in it: next
        invariant
            at == it.index(),
            held == current.len(),
            asked == next.len(),
            forest == retained(current@),
            wanted == expanded(next@),
            forest.len() == held,
            wanted.len() == asked,
            forall|j: int| 0 <= j < held ==> (#[trigger] forest[j]) == current[j]@,
            forall|j: int| 0 <= j < asked ==> (#[trigger] wanted[j]) == next[j]@,
            foreign == old(events)@.dom().difference(owned(forest)),
            stack@ == current@.skip(if at < held { at as int } else { held as int }).reverse(),
            out.len() == at,
            forall|j: int| 0 <= j < at ==> #[trigger] settled_at(forest, wanted, retained(out@), j),
            patches(commands@) == patches_upto(forest, wanted, retained(out@), at as nat),
            distinct(retained(out@)),
            distinct(forest.skip(if at < held { at as int } else { held as int })),
            events@.dom() == foreign.union(owned(retained(out@))).union(
                owned(forest.skip(if at < held { at as int } else { held as int })),
            ),
            foreign.disjoint(owned(retained(out@))),
            foreign.disjoint(owned(forest.skip(if at < held { at as int } else { held as int }))),
            owned(retained(out@)).disjoint(
                owned(forest.skip(if at < held { at as int } else { held as int })),
            ),
            wired_upto(retained(out@), wanted, events@, at as nat),
            agree(old(events)@, events@, foreign),
            novel_upto(forest, wanted, retained(out@), at as nat).disjoint(old(events).taken()),
            old(events).taken().subset_of(events.taken()),
    {
        let ghost k = at as int;
        let ghost before_out = retained(out@);
        let ghost before_commands = patches(commands@);
        let ghost commands_before = commands@;
        let ghost wanted_shape = wanted_node@;
        let ghost rest = forest.skip(if at < held { k } else { held as int });
        let ghost before_dom = events@.dom();
        let ghost before_events = events@;
        proof {
            assert(wanted_node == next[k]);
            assert(wanted[k] == wanted_shape);
            lemma_retained(out@);
        }
        let (node, command) = if at < held {
            proof {
                lemma_reversed_tail(current@, k);
                lemma_owned_front(rest);
                assert(rest.first() == forest[k]);
                assert(rest.drop_first() =~= forest.skip(k + 1));
            }
            let held_node = stack.pop();
            match held_node {
                Some(held_node) => {
                    assert(held_node@ == forest[k]);
                    let (node, command) = diff_node(at, held_node, wanted_node, events);
                    (node, command)
                },
                None => {
                    proof {
                        assert(false);
                    }
                    (RenderedVNode::Text { text: String::new() }, None)
                },
            }
        } else {
            proof {
                assert(rest =~= Seq::empty());
                assert(owned(rest) =~= Set::empty());
            }
            match wanted_node {
                PortalExpandedVNode::Text { text } => {
                    let command = DifferenceCommand::InsertText { index: at, text: text.clone() };
                    let node = RenderedVNode::Text { text };
                    proof {
                        assert(owned_tree(node@) =~= Set::empty());
                        assert(events@.dom() =~= before_dom.difference(Set::empty()).union(
                            owned_tree(node@),
                        ));
                    }
                    (node, Some(command))
                },
                PortalExpandedVNode::Element { tag, class, props, event, children } => {
                    let planted = plant(tag, class, props, event, children, events);
                    let Planted {
                        node,
                        tag: new_tag,
                        classes,
                        props: new_props,
                        event: new_event,
                        children: below,
                    } = planted;
                    let command = DifferenceCommand::InsertElement {
                        index: at,
                        tag: new_tag,
                        classes,
                        props: new_props,
                        event: new_event,
                        children: below,
                    };
                    (node, Some(command))
                },
            }
        };
        let ghost made = node@;
        let ghost sent = sent_of(command);
        let ghost touched = if k < held {
            owned_tree(forest[k])
        } else {
            Set::empty()
        };
        proof {
            if k < held {
                assert(settled_one(forest[k], wanted_shape, made));
                assert(patch_for(k, forest[k], wanted_shape, made) == sent);
                assert(rehomed(before_dom, owned_tree(forest[k]), owned_tree(made), events@.dom()));
                assert(agree(before_events, events@, before_dom.difference(touched)));
            } else {
                assert(mirrors(made, wanted_shape));
                assert(sent == Some(insert_for(k, wanted_shape, made)));
                assert(rehomed(before_dom, Set::empty(), owned_tree(made), events@.dom()));
                assert(before_dom.difference(touched) =~= before_dom);
                assert(agree(before_events, events@, before_dom.difference(touched)));
            }
            assert(wired(made, wanted_shape, events@));
            assert(distinct_tree(made));
            assert((if k < held {
                novel_one(forest[k], wanted_shape, made)
            } else {
                owned_tree(made)
            }).disjoint(old(events).taken()));
        }
        out.push(node);
        match command {
            Some(command) => {
                commands.push(command);
            },
            None => {},
        }
        at = at + 1;
        proof {
            let now = retained(out@);
            lemma_retained(out@);
            assert(now =~= before_out.push(made));
            assert(now.drop_last() =~= before_out);
            assert(owned(now) =~= owned(before_out).union(owned_tree(made)));
            assert forall|j: int| 0 <= j < at implies #[trigger] settled_at(
                forest,
                wanted,
                now,
                j,
            ) by {
                if j < k {
                    assert(settled_at(forest, wanted, before_out, j));
                    assert(now[j] == before_out[j]);
                }
            }
            lemma_patches_upto_prefix(forest, wanted, before_out, now, k as nat);
            if sent is Some {
                assert(commands@.drop_last() =~= commands_before);
                assert(patches(commands@) =~= before_commands.push(sent->0));
            }
            assert(patches(commands@) == patches_upto(forest, wanted, now, (k + 1) as nat));
            let after = forest.skip(if at < held { at as int } else { held as int });
            if k < held {
                assert(after =~= forest.skip(k + 1));
            } else {
                assert(after =~= rest);
            }
            assert(events@.dom() =~= foreign.union(owned(now)).union(owned(after)));
            let start = old(events)@;
            let untouched = before_dom.difference(touched);
            lemma_agree_part(before_events, events@, untouched, owned(before_out));
            lemma_agree_part(before_events, events@, untouched, foreign);
            lemma_agree_chain(start, before_events, events@, foreign);
            lemma_wired_upto_frame(before_out, wanted, before_events, events@, k as nat);
            lemma_wired_upto_prefix(wanted, before_out, now, events@, k as nat);
            assert(wired_upto(now, wanted, events@, (k + 1) as nat));
            lemma_novel_prefix(forest, wanted, before_out, now, k as nat);
            assert(novel_upto(forest, wanted, now, (k + 1) as nat).disjoint(old(events).taken()));
        }
    }
    let ghost settled_out = retained(out@);
    let ghost settled_commands = patches(commands@);
    let start = if asked < held { asked } else { held };
    let mut gone: usize = 0;
    proof {
        assert(at == asked);
        lemma_retained(out@);
        lemma_settled_upto(forest, wanted, settled_out, asked as nat);
        assert(settled(forest, wanted, settled_out));
        assert(settled_commands + removals(asked as int, 0) =~= settled_commands);
    }
    while stack.len() > 0
        invariant
            held == current.len(),
            forest == retained(current@),
            forest.len() == held,
            forall|j: int| 0 <= j < held ==> (#[trigger] forest[j]) == current[j]@,
            start == (if asked < held { asked } else { held }),
            start + gone <= held,
            stack@ == current@.skip(start + gone).reverse(),
            patches(commands@) == settled_commands + removals(asked as int, gone as int),
            foreign.disjoint(owned(settled_out)),
            events@.dom() == foreign.union(owned(settled_out)).union(
                owned(forest.skip(start + gone)),
            ),
            foreign.disjoint(owned(forest.skip(start + gone))),
            owned(settled_out).disjoint(owned(forest.skip(start + gone))),
            distinct(forest.skip(start + gone)),
            wanted.len() == asked,
            settled_out.len() == asked,
            forall|j: int|
                0 <= j < asked ==> #[trigger] settled_at(forest, wanted, settled_out, j),
            wired_upto(settled_out, wanted, events@, asked as nat),
            agree(old(events)@, events@, foreign),
            old(events).taken().subset_of(events.taken()),
        decreases stack.len(),
    {
        let ghost k = start + gone;
        let ghost before_events = events@;
        let ghost rest = forest.skip(k);
        let ghost commands_before = commands@;
        proof {
            assert(current@.skip(k).reverse().len() == held - k);
            lemma_reversed_tail(current@, k);
            lemma_owned_front(rest);
            assert(rest.first() == forest[k]);
            assert(rest.drop_first() =~= forest.skip(k + 1));
        }
        let leaving = stack.pop();
        match leaving {
            Some(leaving) => {
                assert(leaving@ == forest[k]);
                release(&leaving, events);
            },
            None => {},
        }
        commands.push(DifferenceCommand::Remove { index: asked });
        gone = gone + 1;
        proof {
            assert(commands@.drop_last() =~= commands_before);
            assert(commands@.last()@ == (Patch::Remove { index: asked as int }));
            assert(patches(commands@) == patches(commands_before).push(
                Patch::Remove { index: asked as int },
            ));
            assert(removals(asked as int, gone as int) =~= removals(asked as int, gone - 1).push(
                Patch::Remove { index: asked as int },
            ));
            assert(patches(commands@) =~= settled_commands + removals(asked as int, gone as int));
            assert(events@.dom() =~= foreign.union(owned(settled_out)).union(
                owned(forest.skip(k + 1)),
            ));
            let start_events = old(events)@;
            let untouched = before_events.dom().difference(owned_tree(forest[k]));
            assert(agree(before_events, events@, untouched));
            lemma_agree_part(before_events, events@, untouched, owned(settled_out));
            lemma_agree_part(before_events, events@, untouched, foreign);
            lemma_agree_chain(start_events, before_events, events@, foreign);
            lemma_wired_upto_frame(settled_out, wanted, before_events, events@, asked as nat);
        }
    }
    proof {
        assert(current@.skip(start + gone).reverse().len() == held - (start + gone));
        assert(forest.skip(start + gone) =~= Seq::empty());
        assert(owned(forest.skip(start + gone)) =~= Set::empty());
        assert(removals(asked as int, gone as int) =~= removals(
            wanted.len() as int,
            forest.len() - wanted.len(),
        ));
        assert(events@.dom() =~= old(events)@.dom().difference(owned(forest)).union(
            owned(settled_out),
        ));
    }
    (out, commands)
}

/// The rendered forests: what the remote side shows in the main hierarchy
/// and in the side forest of the portals.
#[derive(Debug, PartialEq, Eq)]
pub struct RenderedVNodes {
    pub main: Vec<RenderedVNode>,
    pub portals: Vec<RenderedVNode>,
}

impl RenderedVNodes {
    /// Whether `handles` are the handles of the rendered elements, each the
    /// handle of one element.
    pub open spec fn tracked_by(self, handles: Set<u128>) -> bool {
        &&& distinct(retained(self.main@))
        &&& distinct(retained(self.portals@))
        &&& owned(retained(self.main@)).disjoint(owned(retained(self.portals@)))
        &&& handles == owned(retained(self.main@)).union(owned(retained(self.portals@)))
    }

    /// The number of rendered elements.
    pub open spec fn elements(self) -> nat {
        count(retained(self.main@)) + count(retained(self.portals@))
    }

    /// Nothing rendered.
    pub fn new() -> (rendered: Self)
        ensures
            rendered.main@ == Seq::<RenderedVNode>::empty(),
            rendered.portals@ == Seq::<RenderedVNode>::empty(),
            rendered.tracked_by(Set::empty()),
    {
        let rendered = RenderedVNodes { main: Vec::new(), portals: Vec::new() };
        proof {
            assert(retained(rendered.main@) =~= Seq::empty());
            assert(retained(rendered.portals@) =~= Seq::empty());
            assert(owned(retained(rendered.main@)).union(owned(retained(rendered.portals@)))
                =~= Set::empty());
        }
        rendered
    }

    /// Draws the two forests of `next` over the rendered ones, each by
    /// itself. Returns the commands for the main forest and those for the
    /// portals. The registry follows: callbacks of elements that leave are
    /// taken out, those of new elements enter under handles that no element
    /// ever had, and every element that stays gets the callback that `next`
    /// holds for it.
    pub fn diff<T: Message>(
        &mut self,
        next: PortalExpandedVNodes<T>,
        events: &mut EventRegistry<T>,
    ) -> (commands: (Vec<DifferenceCommand>, Vec<DifferenceCommand>))
        requires
            old(self).tracked_by(old(events)@.dom()),
        ensures
            final(self).tracked_by(final(events)@.dom()),
            settled(retained(old(self).main@), expanded(next.main@), retained(final(self).main@)),
            settled(
                retained(old(self).portals@),
                expanded(next.portals@),
                retained(final(self).portals@),
            ),
            patches(commands.0@) == patches_for(
                retained(old(self).main@),
                expanded(next.main@),
                retained(final(self).main@),
            ),
            patches(commands.1@) == patches_for(
                retained(old(self).portals@),
                expanded(next.portals@),
                retained(final(self).portals@),
            ),
            wired_all(retained(final(self).main@), expanded(next.main@), final(events)@),
            wired_all(retained(final(self).portals@), expanded(next.portals@), final(events)@),
            novel(
                retained(old(self).main@),
                expanded(next.main@),
                retained(final(self).main@),
            ).disjoint(old(events).taken()),
            novel(
                retained(old(self).portals@),
                expanded(next.portals@),
                retained(final(self).portals@),
            ).disjoint(old(events).taken()),
            old(events).taken().subset_of(final(events).taken()),
    {
        let PortalExpandedVNodes { main: next_main, portals: next_portals } = next;
        let mut main: Vec<RenderedVNode> = Vec::new();
        let mut portals: Vec<RenderedVNode> = Vec::new();
        core::mem::swap(&mut self.main, &mut main);
        core::mem::swap(&mut self.portals, &mut portals);
        let ghost shown_portals = owned(retained(portals@));
        let ghost main_before = retained(main@);
        let ghost portals_before = retained(portals@);
        let ghost main_wanted = expanded(next_main@);
        let ghost portals_wanted = expanded(next_portals@);
        let (main_now, main_commands) = diff_vnodes(main, next_main, events);
        let ghost between = events@;
        proof {
            assert(shown_portals.subset_of(events@.dom()));
        }
        let (portals_now, portal_commands) = diff_vnodes(portals, next_portals, events);
        proof {
            let first = old(events)@;
            let main_after = retained(main_now@);
            let portals_after = retained(portals_now@);
            assert(events@.dom() =~= owned(main_after).union(owned(portals_after)));
            lemma_settled_upto(main_before, main_wanted, main_after, main_wanted.len());
            lemma_settled_upto(portals_before, portals_wanted, portals_after, portals_wanted.len());
            lemma_agree_part(
                between,
                events@,
                between.dom().difference(shown_portals),
                owned(main_after),
            );
            lemma_wired_upto_frame(main_after, main_wanted, between, events@, main_wanted.len());
        }
        self.main = main_now;
        self.portals = portals_now;
        (main_commands, portal_commands)
    }
}

} // verus!
