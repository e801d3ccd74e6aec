//! The portal expander: portals leave the main hierarchy, and what they
//! hold becomes a flat side forest.

use vstd::prelude::*;
use crate::vnode::handler::BundledEventHandler;
use crate::vnode::style_extracted_vnode::{
    extracted, lemma_extracted, lemma_extracted_concat, StyleExtractedVNode,
};
use crate::vnode::Outline;
use crate::window::Message;

verus! {

/// The number of nodes in a tree.
pub open spec fn size<T: Message>(node: Outline<T>) -> nat
    decreases node,
{
    match node {
        Outline::Text { .. } => 1,
        Outline::Element { children, .. } => 1 + weight(children),
        Outline::Portal { children } => 1 + weight(children),
    }
}

/// The number of nodes in a forest.
pub open spec fn weight<T: Message>(nodes: Seq<Outline<T>>) -> nat
    decreases nodes,
{
    if nodes.len() == 0 {
        0
    } else {
        weight(nodes.drop_last()) + size(nodes.last())
    }
}

/// What stays of a node in its own hierarchy once every portal has left:
/// nothing of a portal, a text as it is, an element with its children
/// lifted in turn.
pub open spec fn lift_one<T: Message>(node: Outline<T>) -> Seq<Outline<T>>
    decreases node,
{
    match node {
        Outline::Text { .. } => seq![node],
        Outline::Element { tag, class, props, event, children, style } => seq![
            Outline::Element { tag, class, props, event, children: lifted(children), style },
        ],
        Outline::Portal { .. } => Seq::empty(),
    }
}

/// What stays of a list of siblings once every portal has left.
pub open spec fn lifted<T: Message>(nodes: Seq<Outline<T>>) -> Seq<Outline<T>>
    decreases nodes,
{
    if nodes.len() == 0 {
        Seq::empty()
    } else {
        lifted(nodes.drop_last()) + lift_one(nodes.last())
    }
}

/// What leaves a node's hierarchy: the children of the outermost portals in
/// it, left to right, as the portals hold them.
pub open spec fn detach_one<T: Message>(node: Outline<T>) -> Seq<Outline<T>>
    decreases node,
{
    match node {
        Outline::Text { .. } => Seq::empty(),
        Outline::Element { children, .. } => detached(children),
        Outline::Portal { children } => children,
    }
}

/// What leaves the hierarchy of a list of siblings, in the order in which a
/// depth-first walk from the left finds it.
pub open spec fn detached<T: Message>(nodes: Seq<Outline<T>>) -> Seq<Outline<T>>
    decreases nodes,
{
    if nodes.len() == 0 {
        Seq::empty()
    } else {
        detached(nodes.drop_last()) + detach_one(nodes.last())
    }
}

/// The side forest that a queue of detached nodes comes to. The queue is
/// worked off from the front: a portal is replaced by its children, which
/// join the end of the queue; any other node goes to the forest, lifted,
/// and what leaves it joins the end of the queue.
pub open spec fn flat<T: Message>(queue: Seq<Outline<T>>) -> Seq<Outline<T>>
    decreases weight(queue),
{
    if queue.len() == 0 {
        Seq::empty()
    } else {
        proof {
            lemma_weight_split(queue);
            lemma_weight_concat(queue.drop_first(), detach_one(queue.first()));
            lemma_detach_one_lighter(queue.first());
        }
        lift_one(queue.first()) + flat(queue.drop_first() + detach_one(queue.first()))
    }
}

/// The weight of two forests joined is the sum of their weights.
pub proof fn lemma_weight_concat<T: Message>(a: Seq<Outline<T>>, b: Seq<Outline<T>>)
    ensures
        weight(a + b) == weight(a) + weight(b),
    decreases b.len(),
{
    if b.len() == 0 {
        assert(a + b =~= a);
    } else {
        lemma_weight_concat(a, b.drop_last());
        assert((a + b).drop_last() =~= a + b.drop_last());
        assert((a + b).last() == b.last());
    }
}

/// The weight of a forest is the size of its first tree and the weight of
/// the rest.
pub proof fn lemma_weight_split<T: Message>(nodes: Seq<Outline<T>>)
    requires
        nodes.len() > 0,
    ensures
        weight(nodes) == size(nodes.first()) + weight(nodes.drop_first()),
{
    let head = seq![nodes.first()];
    assert(head + nodes.drop_first() =~= nodes);
    lemma_weight_concat(head, nodes.drop_first());
    assert(head.drop_last() =~= Seq::<Outline<T>>::empty());
    assert(weight(head) == weight(head.drop_last()) + size(head.last()));
}

/// What leaves a node holds fewer nodes than the node.
pub proof fn lemma_detach_one_lighter<T: Message>(node: Outline<T>)
    ensures
        weight(detach_one(node)) < size(node),
    decreases node,
{
    match node {
        Outline::Element { children, .. } => lemma_detached_lighter(children),
        _ => {},
    }
}

/// What leaves a forest holds no more nodes than the forest.
pub proof fn lemma_detached_lighter<T: Message>(nodes: Seq<Outline<T>>)
    ensures
        weight(detached(nodes)) <= weight(nodes),
    decreases nodes,
{
    if nodes.len() > 0 {
        lemma_detached_lighter(nodes.drop_last());
        lemma_detach_one_lighter(nodes.last());
        lemma_weight_concat(detached(nodes.drop_last()), detach_one(nodes.last()));
    }
}

/// A forest of one tree lifts and detaches as the tree does.
pub proof fn lemma_lift_single<T: Message>(node: Outline<T>)
    ensures
        lifted(seq![node]) == lift_one(node),
        detached(seq![node]) == detach_one(node),
{
    let single = seq![node];
    let none = Seq::<Outline<T>>::empty();
    assert(single.drop_last() =~= none);
    assert(lifted(none) =~= none);
    assert(detached(none) =~= none);
    assert(lifted(single) =~= lift_one(node));
    assert(detached(single) =~= detach_one(node));
}

/// Nothing that was lifted holds a portal.
pub proof fn lemma_lifted_portal_free<T: Message>(nodes: Seq<Outline<T>>)
    ensures
        forall|i: int| 0 <= i < lifted(nodes).len() ==> (#[trigger] lifted(nodes)[i]).portal_free(),
    decreases nodes,
{
    if nodes.len() > 0 {
        lemma_lifted_portal_free(nodes.drop_last());
        lemma_lift_one_portal_free(nodes.last());
        let a = lifted(nodes.drop_last());
        let b = lift_one(nodes.last());
        assert forall|i: int| 0 <= i < lifted(nodes).len() implies (#[trigger] lifted(
            nodes,
        )[i]).portal_free() by {
            if i < a.len() {
                assert(lifted(nodes)[i] == a[i]);
            } else {
                assert(lifted(nodes)[i] == b[i - a.len()]);
            }
        }
    }
}

/// Nothing that was lifted holds a portal.
pub proof fn lemma_lift_one_portal_free<T: Message>(node: Outline<T>)
    ensures
        forall|i: int|
            0 <= i < lift_one(node).len() ==> (#[trigger] lift_one(node)[i]).portal_free(),
    decreases node,
{
    match node {
        Outline::Element { tag, class, props, event, children, style } => {
            lemma_lifted_portal_free(children);
            let element = Outline::Element {
                tag,
                class,
                props,
                event,
                children: lifted(children),
                style,
            };
            assert(lift_one(node)[0] == element);
            assert(element.portal_free());
        },
        Outline::Text { .. } => {
            assert(lift_one(node)[0] == node);
        },
        Outline::Portal { .. } => {},
    }
}

/// The side forest holds no portal, however deep the portals were nested in
/// the queue.
pub proof fn lemma_flat_portal_free<T: Message>(queue: Seq<Outline<T>>)
    ensures
        forall|i: int| 0 <= i < flat(queue).len() ==> (#[trigger] flat(queue)[i]).portal_free(),
    decreases weight(queue),
{
    if queue.len() > 0 {
        lemma_weight_split(queue);
        lemma_weight_concat(queue.drop_first(), detach_one(queue.first()));
        lemma_detach_one_lighter(queue.first());
        lemma_lift_one_portal_free(queue.first());
        lemma_flat_portal_free(queue.drop_first() + detach_one(queue.first()));
        let a = lift_one(queue.first());
        let b = flat(queue.drop_first() + detach_one(queue.first()));
        assert forall|i: int| 0 <= i < flat(queue).len() implies (#[trigger] flat(
            queue,
        )[i]).portal_free() by {
            if i < a.len() {
                assert(flat(queue)[i] == a[i]);
            } else {
                assert(flat(queue)[i] == b[i - a.len()]);
            }
        }
    }
}

/// A queue that starts with a portal comes to the same forest as the queue
/// with the portal's children moved to its end: the portal itself leaves no
/// trace.
pub proof fn lemma_flat_unwraps_portal<T: Message>(
    children: Seq<Outline<T>>,
    rest: Seq<Outline<T>>,
)
    ensures
        flat(seq![Outline::Portal { children }] + rest) == flat(rest + children),
{
    let queue = seq![Outline::Portal { children }] + rest;
    assert(queue.drop_first() =~= rest);
    assert(lift_one(queue.first()) + flat(rest + children) =~= flat(rest + children));
}

/// The number of texts and elements in a tree: its nodes without the
/// portals.
pub open spec fn solid_tree<T: Message>(node: Outline<T>) -> nat
    decreases node,
{
    match node {
        Outline::Text { .. } => 1,
        Outline::Element { children, .. } => 1 + solid(children),
        Outline::Portal { children } => solid(children),
    }
}

/// The number of texts and elements in a forest.
pub open spec fn solid<T: Message>(nodes: Seq<Outline<T>>) -> nat
    decreases nodes,
{
    if nodes.len() == 0 {
        0
    } else {
        solid(nodes.drop_last()) + solid_tree(nodes.last())
    }
}

/// Two forests joined hold the texts and elements of both.
pub proof fn lemma_solid_concat<T: Message>(a: Seq<Outline<T>>, b: Seq<Outline<T>>)
    ensures
        solid(a + b) == solid(a) + solid(b),
    decreases b.len(),
{
    if b.len() == 0 {
        assert(a + b =~= a);
    } else {
        lemma_solid_concat(a, b.drop_last());
        assert((a + b).drop_last() =~= a + b.drop_last());
        assert((a + b).last() == b.last());
    }
}

/// A forest of one tree holds the texts and elements of the tree.
pub proof fn lemma_solid_single<T: Message>(node: Outline<T>)
    ensures
        solid(seq![node]) == solid_tree(node),
{
    let single = seq![node];
    let none = Seq::<Outline<T>>::empty();
    assert(single.drop_last() =~= none);
    assert(single.last() == node);
    assert(solid(none) == 0);
    assert(solid(single) == solid(single.drop_last()) + solid_tree(single.last()));
}

/// What stays of a tree and what leaves it hold its texts and elements
/// between them.
pub proof fn lemma_lift_one_conserves<T: Message>(node: Outline<T>)
    ensures
        solid(lift_one(node)) + solid(detach_one(node)) == solid_tree(node),
    decreases node,
{
    let none = Seq::<Outline<T>>::empty();
    assert(solid(none) == 0);
    match node {
        Outline::Text { .. } => {
            lemma_solid_single(node);
        },
        Outline::Element { tag, class, props, event, children, style } => {
            lemma_lifted_conserves(children);
            let kept = Outline::Element { tag, class, props, event, children: lifted(children), style };
            lemma_solid_single(kept);
        },
        Outline::Portal { .. } => {},
    }
}

/// What stays of a forest and what leaves it hold its texts and elements
/// between them.
pub proof fn lemma_lifted_conserves<T: Message>(nodes: Seq<Outline<T>>)
    ensures
        solid(lifted(nodes)) + solid(detached(nodes)) == solid(nodes),
    decreases nodes,
{
    if nodes.len() > 0 {
        lemma_lifted_conserves(nodes.drop_last());
        lemma_lift_one_conserves(nodes.last());
        lemma_solid_concat(lifted(nodes.drop_last()), lift_one(nodes.last()));
        lemma_solid_concat(detached(nodes.drop_last()), detach_one(nodes.last()));
    }
}

/// The side forest holds every text and element of the queue it was made
/// of.
pub proof fn lemma_flat_conserves<T: Message>(queue: Seq<Outline<T>>)
    ensures
        solid(flat(queue)) == solid(queue),
    decreases weight(queue),
{
    if queue.len() > 0 {
        let first = queue.first();
        let rest = queue.drop_first();
        lemma_weight_split(queue);
        lemma_weight_concat(rest, detach_one(first));
        lemma_detach_one_lighter(first);
        lemma_flat_conserves(rest + detach_one(first));
        lemma_lift_one_conserves(first);
        lemma_solid_concat(lift_one(first), flat(rest + detach_one(first)));
        lemma_solid_concat(rest, detach_one(first));
        assert(seq![first] + rest =~= queue);
        lemma_solid_concat(seq![first], rest);
        lemma_solid_single(first);
    }
}

/// The portal expander loses nothing and adds nothing: the main forest and
/// the side forest hold the texts and elements of the tree between them.
pub proof fn lemma_expand_conserves<T: Message>(node: Outline<T>)
    ensures
        solid(lift_one(node)) + solid(flat(detach_one(node))) == solid_tree(node),
{
    lemma_lift_one_conserves(node);
    lemma_flat_conserves(detach_one(node));
}

/// A tree after the portal expander: a text or an element, never a portal.
#[verifier::reject_recursive_types(T)]
pub enum PortalExpandedVNode<T: Message> {
    Text { text: String },
    Element {
        tag: String,
        class: Vec<String>,
        props: Vec<String>,
        event: BundledEventHandler<T>,
        children: Vec<PortalExpandedVNode<T>>,
    },
}

impl<T: Message> View for PortalExpandedVNode<T> {
    type V = Outline<T>;

    open spec fn view(&self) -> Outline<T> {
        expanded_one(*self)
    }
}

/// The mathematical content of an expanded tree.
pub open spec fn expanded_one<T: Message>(node: PortalExpandedVNode<T>) -> Outline<T>
    decreases node,
{
    match node {
        PortalExpandedVNode::Text { text } => Outline::Text { text: text@ },
        PortalExpandedVNode::Element { tag, class, props, event, children } => Outline::Element {
            tag: tag@,
            class: class.deep_view(),
            props: props.deep_view(),
            event: event@,
            children: expanded(children@),
            style: None,
        },
    }
}

/// The mathematical content of a list of expanded trees.
pub open spec fn expanded<T: Message>(nodes: Seq<PortalExpandedVNode<T>>) -> Seq<Outline<T>>
    decreases nodes,
{
    if nodes.len() == 0 {
        Seq::empty()
    } else {
        expanded(nodes.drop_last()).push(expanded_one(nodes.last()))
    }
}

/// The content of a list of trees is the list of their contents.
pub proof fn lemma_expanded<T: Message>(nodes: Seq<PortalExpandedVNode<T>>)
    ensures
        expanded(nodes).len() == nodes.len(),
        forall|i: int| 0 <= i < nodes.len() ==> (#[trigger] expanded(nodes)[i]) == nodes[i]@,
    decreases nodes.len(),
{
    if nodes.len() > 0 {
        lemma_expanded(nodes.drop_last());
    }
}

/// The content of two lists joined is their contents joined.
pub proof fn lemma_expanded_concat<T: Message>(
    a: Seq<PortalExpandedVNode<T>>,
    b: Seq<PortalExpandedVNode<T>>,
)
    ensures
        expanded(a + b) == expanded(a) + expanded(b),
{
    lemma_expanded(a);
    lemma_expanded(b);
    lemma_expanded(a + b);
    assert(expanded(a + b) =~= expanded(a) + expanded(b));
}

/// The two forests that the portal expander makes of one tree.
#[verifier::reject_recursive_types(T)]
pub struct PortalExpandedVNodes<T: Message> {
    pub main: Vec<PortalExpandedVNode<T>>,
    pub portals: Vec<PortalExpandedVNode<T>>,
}

impl<T: Message> PortalExpandedVNodes<T> {
    /// Parts `vnode` into the main forest, which is the tree without its
    /// portals, and the side forest, which holds what the portals held, in
    /// the order of discovery and with nested portals unwrapped.
    pub fn expand(vnode: StyleExtractedVNode<T>) -> (forests: Self)
        requires
            !(vnode is Portal),
        ensures
            expanded(forests.main@) == lift_one(vnode@),
            expanded(forests.portals@) == flat(detach_one(vnode@)),
            forests.main.len() == 1,
    {
        let mut found: Vec<StyleExtractedVNode<T>> = Vec::new();
        let mut root: Vec<StyleExtractedVNode<T>> = Vec::new();
        root.push(vnode);
        proof {
            lemma_extracted(root@);
            assert(extracted(root@) =~= seq![vnode@]);
            assert(extracted(found@) =~= Seq::empty());
        }
        let main = hoist(root, &mut found);
        proof {
            lemma_expanded(main@);
        }
        proof {
            lemma_lift_single(vnode@);
            assert(extracted(found@) =~= detach_one(vnode@));
        }
        let portals = settle(found);
        PortalExpandedVNodes { main, portals }
    }
}

/// Lifts `nodes` out of their portals: what stays is returned, what leaves
/// joins `found`.
fn hoist<T: Message>(
    nodes: Vec<StyleExtractedVNode<T>>,
    found: &mut Vec<StyleExtractedVNode<T>>,
) -> (kept: Vec<PortalExpandedVNode<T>>)
    ensures
        expanded(kept@) == lifted(extracted(nodes@)),
        extracted(final(found)@) == extracted(old(found)@) + detached(extracted(nodes@)),
    decreases nodes,
{
    let mut kept: Vec<PortalExpandedVNode<T>> = Vec::new();
    let ghost all = extracted(nodes@);
    proof {
        lemma_extracted(nodes@);
        assert(all.take(0) =~= Seq::empty());
        assert(expanded(kept@) =~= lifted(all.take(0)));
        assert(extracted(found@) =~= extracted(old(found)@) + detached(all.take(0)));
    }
    for node in it: nodes
        invariant
            all == extracted(nodes@),
            all.len() == nodes.len(),
            forall|k: int| 0 <= k < nodes.len() ==> (#[trigger] all[k]) == nodes[k]@,
            expanded(kept@) == lifted(all.take(it.index() as int)),
            extracted(found@) == extracted(old(found)@) + detached(all.take(it.index() as int)),
    {
        let ghost i = it.index() as int;
        let ghost before_found = found@;
        let ghost before_kept = kept@;
        let ghost shape = node@;
        proof {
            assert(node == nodes[i]);
            assert(all.take(i + 1).drop_last() =~= all.take(i));
            assert(all.take(i + 1).last() == shape);
            assert(lifted(all.take(i + 1)) == lifted(all.take(i)) + lift_one(shape));
            assert(detached(all.take(i + 1)) == detached(all.take(i)) + detach_one(shape));
        }
        match node {
            StyleExtractedVNode::Text { text } => {
                kept.push(PortalExpandedVNode::Text { text });
                proof {
                    assert(kept@.drop_last() =~= before_kept);
                    assert(expanded(kept@) =~= expanded(before_kept) + lift_one(shape));
                    assert(extracted(found@) =~= extracted(old(found)@) + detached(all.take(i + 1)));
                }
            },
            StyleExtractedVNode::Element { tag, class, props, event, children } => {
                let lifted_children = hoist(children, found);
                let element = PortalExpandedVNode::Element {
                    tag,
                    class,
                    props,
                    event,
                    children: lifted_children,
                };
                let ghost made = element@;
                proof {
                    assert(seq![made] =~= lift_one(shape));
                }
                kept.push(element);
                proof {
                    assert(kept@.drop_last() =~= before_kept);
                    assert(kept@.last()@ == made);
                    assert(expanded(kept@) =~= expanded(before_kept).push(made));
                    assert(expanded(before_kept).push(made) =~= expanded(before_kept) + seq![made]);
                    assert(expanded(kept@) =~= expanded(before_kept) + lift_one(shape));
                    assert(extracted(found@) =~= extracted(old(found)@) + detached(all.take(i + 1)));
                }
            },
            StyleExtractedVNode::Portal { children } => {
                let mut children = children;
                let ghost held = children@;
                found.append(&mut children);
                proof {
                    lemma_extracted_concat(before_found, held);
                    assert(expanded(kept@) =~= lifted(all.take(i + 1)));
                    assert(extracted(found@) =~= extracted(old(found)@) + detached(all.take(i + 1)));
                }
            },
        }
    }
    proof {
        assert(all.take(nodes.len() as int) =~= all);
    }
    kept
}

/// Works off a queue of detached nodes, round by round, into the side
/// forest.
fn settle<T: Message>(queue: Vec<StyleExtractedVNode<T>>) -> (forest: Vec<PortalExpandedVNode<T>>)
    ensures
        expanded(forest@) == flat(extracted(queue@)),
{
    let mut forest: Vec<PortalExpandedVNode<T>> = Vec::new();
    let mut round = queue;
    proof {
        assert(expanded(forest@) + flat(extracted(round@)) =~= flat(extracted(queue@)));
    }
    while round.len() > 0
        invariant
            expanded(forest@) + flat(extracted(round@)) == flat(extracted(queue@)),
        decreases weight(extracted(round@)),
    {
        let mut later: Vec<StyleExtractedVNode<T>> = Vec::new();
        let ghost all = extracted(round@);
        proof {
            lemma_extracted(round@);
            assert(all.skip(0) =~= all);
            assert(extracted(later@) =~= Seq::empty());
            assert(all.skip(0) + extracted(later@) =~= all);
        }
        for node in it: round
            invariant
                all == extracted(round@),
                all.len() == round.len(),
                forall|k: int| 0 <= k < round.len() ==> (#[trigger] all[k]) == round[k]@,
                expanded(forest@) + flat(all.skip(it.index() as int) + extracted(later@)) == flat(
                    extracted(queue@),
                ),
                weight(all.skip(it.index() as int) + extracted(later@)) + it.index() <= weight(all),
        {
            let ghost i = it.index() as int;
            let ghost pending = all.skip(i) + extracted(later@);
            let ghost before_forest = forest@;
            let ghost shape = node@;
            proof {
                assert(node == round[i]);
                assert(pending.first() == shape);
                assert(pending.drop_first() =~= all.skip(i + 1) + extracted(later@));
                lemma_weight_split(pending);
                lemma_weight_concat(pending.drop_first(), detach_one(shape));
                lemma_detach_one_lighter(shape);
            }
            let mut lone: Vec<StyleExtractedVNode<T>> = Vec::new();
            lone.push(node);
            proof {
                lemma_extracted(lone@);
                assert(extracted(lone@) =~= seq![shape]);
            }
            let mut kept = hoist(lone, &mut later);
            proof {
                lemma_lift_single(shape);
                assert(all.skip(i + 1) + extracted(later@) =~= pending.drop_first() + detach_one(
                    shape,
                ));
            }
            let ghost lifted_now = kept@;
            forest.append(&mut kept);
            proof {
                lemma_expanded_concat(before_forest, lifted_now);
                assert(expanded(forest@) + flat(all.skip(i + 1) + extracted(later@)) =~= expanded(
                    before_forest,
                ) + flat(pending));
            }
        }
        proof {
            assert(all.skip(round.len() as int) =~= Seq::empty());
            assert(all.skip(round.len() as int) + extracted(later@) =~= extracted(later@));
        }
        round = later;
    }
    proof {
        assert(extracted(round@) =~= Seq::empty());
        assert(expanded(forest@) + flat(extracted(round@)) =~= expanded(forest@));
    }
    forest
}

} // verus!
