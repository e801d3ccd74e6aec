//! The declarative tree, the stages it passes through, and the commands that
//! carry its changes to the remote side.
//!
//! A tree passes the stages in this order: [`VNode`], the tree with its
//! handlers bound to the message channel, the tree with its inline styles
//! turned into classes, the forests without portals, the rendered forests.

use vstd::prelude::*;
use tokio::sync::mpsc::UnboundedSender;
use crate::window::Message;

pub mod command;
pub mod event;
pub mod event_list;
pub mod handler;
pub mod laws;
pub mod message_handled_vnode;
pub mod names;
pub mod portal_expanded_vnode;
pub mod processor;
pub mod registry;
pub mod remote;
pub mod rendered_vnode;
pub mod style_extracted_vnode;

pub use handler::{VNodeEventHandler, VNodeEventHandlers};

verus! {

/// One node of the tree that an application describes on each render.
#[verifier::reject_recursive_types(T)]
pub enum VNode<T: Message> {
    Text { text: String },
    Element {
        tag: String,
        class: Vec<String>,
        props: Vec<String>,
        event: VNodeEventHandlers<T>,
        children: Vec<VNode<T>>,
        style: Option<String>,
    },
    Portal { children: Vec<VNode<T>> },
}

/// The mathematical content of a tree with bound handlers, at any stage
/// before the reconciler.
#[verifier::reject_recursive_types(T)]
pub ghost enum Outline<T: Message> {
    Text { text: Seq<char> },
    Element {
        tag: Seq<char>,
        class: Seq<Seq<char>>,
        props: Seq<Seq<char>>,
        event: handler::Binding<T>,
        children: Seq<Outline<T>>,
        style: Option<Seq<char>>,
    },
    Portal { children: Seq<Outline<T>> },
}

/// The characters of an optional string.
pub open spec fn text_of(style: Option<String>) -> Option<Seq<char>> {
    match style {
        Some(text) => Some(text@),
        None => None,
    }
}

impl<T: Message> VNode<T> {
    /// The tree with each element's handlers bound to `sender`.
    pub open spec fn bound(self, sender: UnboundedSender<T>) -> Outline<T> {
        bound_one(self, sender)
    }
}

/// The tree `node` with each element's handlers bound to `sender`.
pub open spec fn bound_one<T: Message>(node: VNode<T>, sender: UnboundedSender<T>) -> Outline<T>
    decreases node,
{
    match node {
        VNode::Text { text } => Outline::Text { text: text@ },
        VNode::Element { tag, class, props, event, children, style } => Outline::Element {
            tag: tag@,
            class: class.deep_view(),
            props: props.deep_view(),
            event: handler::bind(event, sender),
            children: bound_all(children@, sender),
            style: text_of(style),
        },
        VNode::Portal { children } => Outline::Portal { children: bound_all(children@, sender) },
    }
}

/// The trees `nodes` with each element's handlers bound to `sender`.
pub open spec fn bound_all<T: Message>(nodes: Seq<VNode<T>>, sender: UnboundedSender<T>) -> Seq<
    Outline<T>,
>
    decreases nodes,
{
    if nodes.len() == 0 {
        Seq::empty()
    } else {
        bound_all(nodes.drop_last(), sender).push(bound_one(nodes.last(), sender))
    }
}

/// Binding a list of trees binds each of them.
pub proof fn lemma_bound_all<T: Message>(nodes: Seq<VNode<T>>, sender: UnboundedSender<T>)
    ensures
        bound_all(nodes, sender).len() == nodes.len(),
        forall|i: int|
            0 <= i < nodes.len() ==> (#[trigger] bound_all(nodes, sender)[i]) == nodes[i].bound(
                sender,
            ),
    decreases nodes.len(),
{
    if nodes.len() > 0 {
        lemma_bound_all(nodes.drop_last(), sender);
    }
}

impl<T: Message> Outline<T> {
    /// Whether neither the node nor anything below it is a portal.
    pub open spec fn portal_free(self) -> bool
        decreases self,
    {
        match self {
            Outline::Text { .. } => true,
            Outline::Element { children, .. } => forall|i: int|
                0 <= i < children.len() ==> (#[trigger] children[i]).portal_free(),
            Outline::Portal { .. } => false,
        }
    }
}

} // verus!
