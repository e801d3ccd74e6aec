//! The processor: one session's styles, rendered forests and callbacks, and
//! the render pipeline that runs over them.

use vstd::prelude::*;
use crate::ident::Taken;
use crate::vnode::command::{patches, style_patches, DifferenceCommands, StylePatch};
use crate::vnode::event::VNodeEvent;
use crate::vnode::handler::{Delivery, Subscription};
use crate::vnode::laws::lemma_one_handle_per_element;
use crate::vnode::message_handled_vnode::MessageHandledVNode;
use crate::vnode::names::firsts;
use crate::vnode::portal_expanded_vnode::{detach_one, flat, lift_one, PortalExpandedVNodes};
use crate::vnode::registry::EventRegistry;
use crate::vnode::rendered_vnode::{
    novel, patches_for, retained, settled, wired_all, RenderedVNodes,
};
use crate::vnode::style_extracted_vnode::{
    additions, minified_css, removals, restyle_one, rule_source, style_texts_one, texts,
    unused_by, used_by, StyleError, StyleExtractedVNode, StyleRegistry, StyleRule, CHROME_TARGET,
};
use crate::vnode::Outline;
use crate::window::Message;

verus! {

/// The state of one session's rendering.
#[verifier::reject_recursive_types(T)]
pub struct Processor<T: Message> {
    pub current_vnode: RenderedVNodes,
    pub styles: StyleRegistry,
    pub events: EventRegistry<T>,
}

/// Whether `fresh` are the rules that a draw of a tree with the style texts
/// `used` adds to `before`, and `after` the rules that it leaves.
pub open spec fn restocked(
    before: Seq<StyleRule>,
    used: Seq<Seq<char>>,
    after: Seq<StyleRule>,
    fresh: Seq<StyleRule>,
) -> bool {
    &&& after == before.filter(used_by(used)) + fresh
    &&& texts(fresh) == firsts(texts(before), used)
    &&& forall|i: int|
        0 <= i < fresh.len() ==> minified_css(
            rule_source((#[trigger] fresh[i]).id, fresh[i].text),
            CHROME_TARGET,
        ) is Some
}

/// The style commands of a draw that finds the rules `before` and adds
/// `fresh`.
pub open spec fn style_commands(
    before: Seq<StyleRule>,
    used: Seq<Seq<char>>,
    fresh: Seq<StyleRule>,
) -> Seq<StylePatch> {
    removals(before.filter(unused_by(used))) + additions(fresh)
}

impl<T: Message> Processor<T> {
    /// Whether styles stand one to one with their identifiers and the
    /// registry holds the callbacks of the rendered elements, one each.
    pub open spec fn wf(self) -> bool {
        self.styles.wf() && self.current_vnode.tracked_by(self.events@.dom())
    }

    /// Whether the session is as it was when it was `before`.
    pub open spec fn unchanged_since(self, before: Self) -> bool {
        &&& self.styles@ == before.styles@
        &&& self.current_vnode == before.current_vnode
        &&& self.events@ == before.events@
        &&& self.events.taken() == before.events.taken()
    }

    /// Whether the session and `commands` are what a draw of `frame` makes
    /// of the session `before`: the styles are restocked, the two forests
    /// are settled over those of `before`, the commands are those that
    /// bring the remote side there, every rendered element answers with
    /// the callback that `frame` holds for it, and no new element has a
    /// handle that was ever registered before.
    pub open spec fn drawn(self, before: Self, frame: Outline<T>, commands: DifferenceCommands) -> bool {
        let used = style_texts_one(frame);
        let stock = before.styles@;
        let fresh = self.styles@.skip(stock.filter(used_by(used)).len() as int);
        let styled = restyle_one(frame, self.styles@);
        &&& restocked(stock, used, self.styles@, fresh)
        &&& style_patches(commands.styles@) == style_commands(stock, used, fresh)
        &&& settled(
            retained(before.current_vnode.main@),
            lift_one(styled),
            retained(self.current_vnode.main@),
        )
        &&& settled(
            retained(before.current_vnode.portals@),
            flat(detach_one(styled)),
            retained(self.current_vnode.portals@),
        )
        &&& patches(commands.main@) == patches_for(
            retained(before.current_vnode.main@),
            lift_one(styled),
            retained(self.current_vnode.main@),
        )
        &&& patches(commands.portals@) == patches_for(
            retained(before.current_vnode.portals@),
            flat(detach_one(styled)),
            retained(self.current_vnode.portals@),
        )
        &&& wired_all(
            retained(self.current_vnode.main@),
            lift_one(styled),
            self.events@,
        )
        &&& wired_all(
            retained(self.current_vnode.portals@),
            flat(detach_one(styled)),
            self.events@,
        )
        &&& before.events.taken().subset_of(self.events.taken())
        &&& novel(
            retained(before.current_vnode.main@),
            lift_one(styled),
            retained(self.current_vnode.main@),
        ).disjoint(before.events.taken())
        &&& novel(
            retained(before.current_vnode.portals@),
            flat(detach_one(styled)),
            retained(self.current_vnode.portals@),
        ).disjoint(before.events.taken())
    }

    /// Whether `error` names an inline style of `frame` that the session
    /// holds no rule for and that the CSS engine refuses.
    pub open spec fn refuses(self, frame: Outline<T>, error: StyleError) -> bool {
        &&& style_texts_one(frame).contains(error.text@)
        &&& !texts(self.styles@).contains(error.text@)
        &&& minified_css(rule_source(error.id, error.text@), CHROME_TARGET) is None
    }

    /// Whether the CSS engine takes every inline style of `frame` that the
    /// session holds no rule for, under whatever identifier.
    pub open spec fn takes(self, frame: Outline<T>) -> bool {
        forall|text: Seq<char>, id: u128|
            style_texts_one(frame).contains(text) && !texts(self.styles@).contains(text)
                ==> (#[trigger] minified_css(rule_source(id, text), CHROME_TARGET)) is Some
    }

    /// A session that has rendered nothing.
    pub fn new() -> (processor: Self)
        ensures
            processor.wf(),
            processor.styles@.len() == 0,
            processor.events@.dom() == Set::<u128>::empty(),
            processor.current_vnode.main@.len() == 0,
            processor.current_vnode.portals@.len() == 0,
    {
        Processor {
            current_vnode: RenderedVNodes::new(),
            styles: StyleRegistry::new(),
            events: EventRegistry::new(),
        }
    }

    /// Runs one frame through the pipeline: the inline styles of `vnode`
    /// become classes, its portals leave for the side forest, and the two
    /// forests are drawn over the rendered ones. Returns the commands for
    /// the remote side. Where the CSS engine refuses a new style text the
    /// session is left as it was and the text comes back as the error.
    pub fn next(&mut self, vnode: MessageHandledVNode<T>) -> (outcome: Result<
        DifferenceCommands,
        StyleError,
    >)
        requires
            old(self).wf(),
            !(vnode@ is Portal),
        ensures
            final(self).wf(),
            match outcome {
                Ok(commands) => final(self).drawn(*old(self), vnode@, commands),
                Err(error) => final(self).unchanged_since(*old(self)) && old(self).refuses(
                    vnode@,
                    error,
                ),
            },
            old(self).takes(vnode@) ==> outcome is Ok,
    {
        match StyleExtractedVNode::extract(vnode, &mut self.styles) {
            Ok((styled, styles)) => {
                proof {
                    lemma_restyle_keeps_kind(vnode@, self.styles@);
                }
                let forests = PortalExpandedVNodes::expand(styled);
                let (main, portals) = self.current_vnode.diff(forests, &mut self.events);
                Ok(DifferenceCommands { main, portals, styles })
            },
            Err(error) => Err(error),
        }
    }

    /// How many callbacks the session holds: one for each rendered element.
    pub fn handles(&self) -> (n: usize)
        requires
            self.wf(),
        ensures
            n == self.current_vnode.elements(),
    {
        proof {
            lemma_one_handle_per_element(self.current_vnode, self.events@.dom());
        }
        self.events.len()
    }

    /// Hands an event from the remote side to the callback it is addressed
    /// to. An event for a handle that is not registered is dropped.
    pub fn handle_event(&self, event: VNodeEvent) -> (delivery: Option<Delivery<T>>)
        ensures
            delivery is Some <==> self.events@.contains_key(event.handle_id.0),
            delivery == Some(Delivery::<T>::NotSubscribed) <==> self.events@.contains_key(
                event.handle_id.0,
            ) && self.events@[event.handle_id.0].handlers.declared(event.kind.kind())
                == Subscription::Unset,
            delivery matches Some(Delivery::ChannelClosed(returned))
                ==> self.events@[event.handle_id.0].handlers.replies(event.kind, returned),
    {
        self.events.dispatch(event.handle_id, event.kind)
    }
}

/// Restyling leaves a node the kind of node it is.
pub proof fn lemma_restyle_keeps_kind<T: Message>(node: Outline<T>, rules: Seq<StyleRule>)
    ensures
        restyle_one(node, rules) is Portal <==> node is Portal,
        restyle_one(node, rules) is Text <==> node is Text,
{
}

} // verus!
