//! The message binder: the first stage after the application's tree.

use vstd::prelude::*;
use tokio::sync::mpsc::UnboundedSender;
use crate::vnode::handler::{share_sender, BundledEventHandler};
use crate::vnode::{lemma_bound_all, text_of, Outline, VNode};
use crate::window::Message;

verus! {

/// A tree whose handlers send their messages into a channel.
#[verifier::reject_recursive_types(T)]
pub enum MessageHandledVNode<T: Message> {
    Text { text: String },
    Element {
        tag: String,
        class: Vec<String>,
        props: Vec<String>,
        event: BundledEventHandler<T>,
        children: Vec<MessageHandledVNode<T>>,
        style: Option<String>,
    },
    Portal { children: Vec<MessageHandledVNode<T>> },
}

impl<T: Message> View for MessageHandledVNode<T> {
    type V = Outline<T>;

    open spec fn view(&self) -> Outline<T> {
        outline(*self)
    }
}

/// The mathematical content of a bound tree.
pub open spec fn outline<T: Message>(node: MessageHandledVNode<T>) -> Outline<T>
    decreases node,
{
    match node {
        MessageHandledVNode::Text { text } => Outline::Text { text: text@ },
        MessageHandledVNode::Element { tag, class, props, event, children, style } => Outline::Element {
            tag: tag@,
            class: class.deep_view(),
            props: props.deep_view(),
            event: event@,
            children: outlines(children@),
            style: text_of(style),
        },
        MessageHandledVNode::Portal { children } => Outline::Portal { children: outlines(children@) },
    }
}

/// The mathematical content of a list of bound trees.
pub open spec fn outlines<T: Message>(nodes: Seq<MessageHandledVNode<T>>) -> Seq<Outline<T>>
    decreases nodes,
{
    if nodes.len() == 0 {
        Seq::empty()
    } else {
        outlines(nodes.drop_last()).push(outline(nodes.last()))
    }
}

/// The content of a list of trees is the list of their contents.
pub proof fn lemma_outlines<T: Message>(nodes: Seq<MessageHandledVNode<T>>)
    ensures
        outlines(nodes).len() == nodes.len(),
        forall|i: int| 0 <= i < nodes.len() ==> (#[trigger] outlines(nodes)[i]) == nodes[i]@,
    decreases nodes.len(),
{
    if nodes.len() > 0 {
        lemma_outlines(nodes.drop_last());
    }
}

impl<T: Message> MessageHandledVNode<T> {
    /// Binds the handlers of every element of `vnode` to `sender`. The tree
    /// keeps its shape; each element's declarations collapse into one
    /// callback and the lists of the kinds it subscribes to.
    pub fn handle_message(vnode: VNode<T>, sender: UnboundedSender<T>) -> (bound: Self)
        ensures
            bound@ == vnode.bound(sender),
        decreases vnode,
    {
        match vnode {
            VNode::Text { text } => MessageHandledVNode::Text { text },
            VNode::Element { tag, class, props, event, children, style } => {
                let bound_children = Self::bind_all(children, &sender);
                let bound = MessageHandledVNode::Element {
                    tag,
                    class,
                    props,
                    event: BundledEventHandler::bundle(event, sender),
                    children: bound_children,
                    style,
                };
                proof {
                    lemma_outlines(bound_children@);
                    lemma_bound_all(children@, sender);
                    assert(bound@->Element_children =~= vnode.bound(sender)->Element_children);
                }
                bound
            },
            VNode::Portal { children } => {
                let bound_children = Self::bind_all(children, &sender);
                let bound = MessageHandledVNode::Portal { children: bound_children };
                proof {
                    lemma_outlines(bound_children@);
                    lemma_bound_all(children@, sender);
                    assert(bound@->Portal_children =~= vnode.bound(sender)->Portal_children);
                }
                bound
            },
        }
    }

    /// Binds each tree of `children`.
    fn bind_all(children: Vec<VNode<T>>, sender: &UnboundedSender<T>) -> (bound: Vec<Self>)
        ensures
            bound.len() == children.len(),
            forall|i: int| 0 <= i < bound.len() ==> (#[trigger] bound[i])@ == children[i].bound(*sender),
        decreases children,
    {
        let mut bound: Vec<Self> = Vec::new();
        for child in it: children
            invariant
                bound.len() == it.index(),
                forall|i: int|
                    0 <= i < bound.len() ==> (#[trigger] bound[i])@ == children[i].bound(*sender),
        {
            assert(child == children[it.index() as int]);
            bound.push(Self::handle_message(child, share_sender(sender)));
        }
        bound
    }
}

} // verus!
