//! The simple window: what an application implements, and the decisions of
//! the session that runs it.

use vstd::prelude::*;
use vstd::string::StringExecFns;
use std::sync::Arc;
use tokio::sync::mpsc::UnboundedSender;
use crate::vnode::command::DifferenceCommands;
use crate::vnode::event::VNodeEvent;
use crate::vnode::handler::{send_message, share_sender, Delivery, Subscription};
use crate::vnode::message_handled_vnode::MessageHandledVNode;
use crate::vnode::processor::Processor;
use crate::vnode::style_extracted_vnode::StyleError;
use crate::vnode::VNode;
use crate::window::{DirtyFlag, Message};

verus! {

/// The handle through which a window sends messages to itself.
#[verifier::reject_recursive_types(T)]
pub struct SimpleWindowContext<T: Message> {
    sender: UnboundedSender<T>,
}

impl<T: Message> SimpleWindowContext<T> {
    /// The sender through which the context sends.
    pub closed spec fn channel(self) -> UnboundedSender<T> {
        self.sender
    }

    /// A context that sends into the channel of `sender`.
    pub fn new(sender: UnboundedSender<T>) -> (context: Self)
        ensures
            context.channel() == sender,
    {
        SimpleWindowContext { sender }
    }

    /// Sends `message` to the window. Where the session has ended, the
    /// message comes back.
    pub fn dispatch(&self, message: T) -> (outcome: Result<(), T>)
        ensures
            outcome matches Err(returned) ==> returned == message,
    {
        send_message(&self.sender, message)
    }
}

impl<T: Message> Clone for SimpleWindowContext<T> {
    fn clone(&self) -> (copy: Self) {
        SimpleWindowContext { sender: share_sender(&self.sender) }
    }
}

/// A window: application state that answers messages and describes its
/// view.
pub trait SimpleWindow: 'static + Send + Sync {
    type Message: Message;

    /// Whether `flag` is an answer that `update` may give to `message`. A
    /// window that says nothing of its answers may give any.
    open spec fn answers(&self, message: Self::Message, flag: DirtyFlag) -> bool {
        true
    }

    /// Whether `view` is a view that the window may show. A window that
    /// says nothing of its views may show any.
    open spec fn shows(&self, view: VNode<Self::Message>) -> bool {
        true
    }

    /// Takes `message` into the state and says whether the view is stale.
    fn update(&self, message: Self::Message) -> (flag: DirtyFlag)
        ensures
            self.answers(message, flag),
    ;

    /// The view of the current state.
    fn view(&self) -> (view: VNode<Self::Message>)
        ensures
            self.shows(view),
    ;

    /// Called when the remote side has gone.
    fn disconnected(&self) {
    }
}

impl<T: SimpleWindow + ?Sized> SimpleWindow for Arc<T> {
    type Message = T::Message;

    open spec fn answers(&self, message: Self::Message, flag: DirtyFlag) -> bool {
        (**self).answers(message, flag)
    }

    open spec fn shows(&self, view: VNode<Self::Message>) -> bool {
        (**self).shows(view)
    }

    fn update(&self, message: Self::Message) -> (flag: DirtyFlag) {
        T::update(self, message)
    }

    fn view(&self) -> (view: VNode<Self::Message>) {
        T::view(self)
    }

    fn disconnected(&self) {
        T::disconnected(self)
    }
}

/// The text by which the remote side asks for a draw.
pub open spec fn draw_request() -> Seq<char> {
    "\"DRAW\""@
}

/// Whether `text`, as it arrived from the remote side, asks for a draw.
pub fn is_draw_request(text: &str) -> (asks: bool)
    ensures
        asks == (text@ == draw_request()),
{
    String::from_str(text) == String::from_str("\"DRAW\"")
}

/// How a request for a draw ended.
pub enum DrawOutcome {
    /// The view was current: nothing was drawn and nothing is to be sent.
    Idle,
    /// The view was drawn: the commands are to be sent, and the view is
    /// current again.
    Drawn(DifferenceCommands),
    /// The window's view has a portal for its root, which no window may
    /// have.
    PortalRoot,
    /// The CSS engine refused an inline style of the view.
    InvalidStyle(StyleError),
}

/// One session: a window, the channel of its messages, and the state of
/// its rendering.
#[verifier::reject_recursive_types(W)]
pub struct SimpleWindowRunner<W: SimpleWindow> {
    pub window: W,
    pub sender: UnboundedSender<W::Message>,
    pub vnode_processor: Processor<W::Message>,
}

impl<W: SimpleWindow> SimpleWindowRunner<W> {
    /// A session of `window` that has drawn nothing yet: it holds no style,
    /// no rendered node and no callback.
    pub fn new(window: W, sender: UnboundedSender<W::Message>) -> (runner: Self)
        ensures
            runner.vnode_processor.wf(),
            runner.window == window,
            runner.sender == sender,
            runner.vnode_processor.styles@.len() == 0,
            runner.vnode_processor.events@.dom() == Set::<u128>::empty(),
            runner.vnode_processor.current_vnode.main@.len() == 0,
            runner.vnode_processor.current_vnode.portals@.len() == 0,
    {
        SimpleWindowRunner { window, sender, vnode_processor: Processor::new() }
    }

    /// Whether the session and `outcome` are what a draw of `view` makes of
    /// the session `before`. A view with a portal for its root is refused.
    /// Any other view is bound to the channel and run through the
    /// pipeline: it is drawn, with the commands and the state that the
    /// pipeline gives, unless the CSS engine refuses one of its styles.
    /// Window and channel stay, and a view that is not drawn leaves the
    /// session as it was.
    pub open spec fn drew(
        self,
        before: Self,
        view: VNode<W::Message>,
        outcome: DrawOutcome,
    ) -> bool {
        let frame = view.bound(before.sender);
        &&& self.window == before.window
        &&& self.sender == before.sender
        &&& outcome is PortalRoot <==> view is Portal
        &&& match outcome {
            DrawOutcome::Idle => false,
            DrawOutcome::Drawn(commands) => self.vnode_processor.drawn(
                before.vnode_processor,
                frame,
                commands,
            ),
            DrawOutcome::PortalRoot => self.vnode_processor.unchanged_since(
                before.vnode_processor,
            ),
            DrawOutcome::InvalidStyle(error) => self.vnode_processor.unchanged_since(
                before.vnode_processor,
            ) && before.vnode_processor.refuses(frame, error),
        }
        &&& !(view is Portal) && before.vnode_processor.takes(frame) ==> outcome is Drawn
    }

    /// Answers a request for a draw. A view that is not `dirty` is left
    /// alone, and so is the session. A dirty one is asked of the window
    /// and drawn.
    pub fn draw(&mut self, dirty: bool) -> (outcome: DrawOutcome)
        requires
            old(self).vnode_processor.wf(),
        ensures
            final(self).vnode_processor.wf(),
            final(self).window == old(self).window,
            final(self).sender == old(self).sender,
            outcome is Idle <==> !dirty,
            !(outcome is Drawn) ==> final(self).vnode_processor.unchanged_since(
                old(self).vnode_processor,
            ),
            dirty ==> exists|view: VNode<W::Message>|
                old(self).window.shows(view) && #[trigger] final(self).drew(
                    *old(self),
                    view,
                    outcome,
                ),
    {
        if !dirty {
            return DrawOutcome::Idle;
        }
        let view = self.window.view();
        let ghost shown = view;
        let outcome = self.draw_view(view);
        proof {
            assert(old(self).window.shows(shown) && self.drew(*old(self), shown, outcome));
        }
        outcome
    }

    /// Draws `view`: binds it to the channel and runs it through the
    /// pipeline. A view with a portal for its root, or with an inline style
    /// that the CSS engine refuses, is not drawn and leaves the session as
    /// it was.
    pub fn draw_view(&mut self, view: VNode<W::Message>) -> (outcome: DrawOutcome)
        requires
            old(self).vnode_processor.wf(),
        ensures
            final(self).vnode_processor.wf(),
            final(self).drew(*old(self), view, outcome),
    {
        let is_portal = match &view {
            VNode::Portal { .. } => true,
            _ => false,
        };
        if is_portal {
            return DrawOutcome::PortalRoot;
        }
        let bound = MessageHandledVNode::handle_message(view, share_sender(&self.sender));
        match self.vnode_processor.next(bound) {
            Ok(commands) => DrawOutcome::Drawn(commands),
            Err(error) => DrawOutcome::InvalidStyle(error),
        }
    }

    /// Hands an event from the remote side to the callback it is addressed
    /// to.
    pub fn handle_event(&self, event: VNodeEvent) -> (delivery: Option<Delivery<W::Message>>)
        ensures
            delivery is Some <==> self.vnode_processor.events@.contains_key(event.handle_id.0),
            delivery == Some(Delivery::<W::Message>::NotSubscribed)
                <==> self.vnode_processor.events@.contains_key(event.handle_id.0)
                && self.vnode_processor.events@[event.handle_id.0].handlers.declared(
                event.kind.kind(),
            ) == Subscription::Unset,
            delivery matches Some(Delivery::ChannelClosed(returned))
                ==> self.vnode_processor.events@[event.handle_id.0].handlers.replies(
                event.kind,
                returned,
            ),
    {
        self.vnode_processor.handle_event(event)
    }

    /// Takes `message` into the window's state. Returns whether the view
    /// has become stale: whether the window answered that it is to be
    /// rendered again.
    pub fn update(&self, message: W::Message) -> (stale: bool)
        ensures
            self.window.answers(
                message,
                if stale {
                    DirtyFlag::ShouldRender
                } else {
                    DirtyFlag::Clean
                },
            ),
    {
        self.window.update(message).should_render()
    }
}

} // verus!
