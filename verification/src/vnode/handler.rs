//! Handler declarations and their binding to a message channel.

use vstd::prelude::*;
use tokio::sync::mpsc::UnboundedSender;
use crate::vnode::event::{
    AnimationEvent, DragEvent, Event, FocusEvent, InputEvent, KeyboardEvent, MouseEvent,
    PointerEvent, ProgressEvent, SubmitEvent, TouchEvent, TransitionEvent, VNodeEventKind,
    WheelEvent,
};
use crate::vnode::event_list::{catalog, VNodeEventType, EVENT_KINDS};
use crate::window::Message;

verus! {

/// Something that makes a message of an event payload.
trait Respond<E, T>: Send + Sync {
    /// Whether every payload may be handed over.
    spec fn ready(&self) -> bool;

    /// Whether `message` is a message that may be made of `event`.
    spec fn promises(&self, event: E, message: T) -> bool;

    /// The message made of `event`.
    fn run(&self, event: E) -> (message: T)
        requires
            self.ready(),
        ensures
            self.promises(event, message),
    ;
}

/// A closure as something that makes a message of an event payload.
struct Closure<F> {
    f: F,
}

impl<E, T, F: Fn(E) -> T + Send + Sync> Respond<E, T> for Closure<F> {
    spec fn ready(&self) -> bool {
        forall|event: E| call_requires(self.f, (event,))
    }

    spec fn promises(&self, event: E, message: T) -> bool {
        call_ensures(self.f, (event,), message)
    }

    fn run(&self, event: E) -> (message: T) {
        (self.f)(event)
    }
}

/// An application's callback from an event payload to a message: a closure
/// that takes every payload, held without its type.
#[verifier::reject_recursive_types(E)]
#[verifier::reject_recursive_types(T)]
pub struct Callback<E, T> {
    run: Box<dyn Respond<E, T>>,
}

impl<E, T> Callback<E, T> {
    #[verifier::type_invariant]
    spec fn takes_every_payload(self) -> bool {
        self.run.ready()
    }

    /// Whether `message` is a message that the callback may make of
    /// `event`: what the closure it holds promises of its result.
    pub closed spec fn yields(self, event: E, message: T) -> bool {
        self.run.promises(event, message)
    }

    /// The callback that holds `f`.
    pub(crate) fn new<F>(f: F) -> (callback: Self) where F: Fn(E) -> T + 'static + Sync + Send
        requires
            forall|event: E| call_requires(f, (event,)),
        ensures
            forall|event: E, message: T| #[trigger]
                callback.yields(event, message) <==> call_ensures(f, (event,), message),
    {
        Callback { run: Box::new(Closure { f }) }
    }

    /// The message that the callback makes of `event`.
    pub(crate) fn call(&self, event: E) -> (message: T)
        ensures
            self.yields(event, message),
    {
        proof {
            use_type_invariant(self);
        }
        self.run.run(event)
    }
}

/// Declares `tokio::sync::mpsc::UnboundedSender`, the sending half of the
/// message channel, as a type that verified code may hold and pass on.
#[verifier::external_type_specification]
#[verifier::external_body]
#[verifier::reject_recursive_types(T)]
pub struct ExUnboundedSender<T>(UnboundedSender<T>);

/// Calls `UnboundedSender::send`. Whether the message is taken depends on
/// the receiving half being open; the contract claims only what the
/// documentation states of a refusal: the message comes back unchanged.
#[verifier::external_body]
pub(crate) fn send_message<T>(sender: &UnboundedSender<T>, message: T) -> (outcome: Result<(), T>)
    ensures
        outcome matches Err(returned) ==> returned == message,
{
    match sender.send(message) {
        Ok(()) => Ok(()),
        Err(refused) => Err(refused.0),
    }
}

/// Calls `UnboundedSender::clone`. To the verifier a sender is the channel
/// it addresses, and nothing else of it is observed here. The clone
/// addresses the channel of the sender it was made from
/// (`UnboundedSender::same_channel`): the contract claims that the two are
/// equal as values.
#[verifier::external_body]
pub(crate) fn share_sender<T>(sender: &UnboundedSender<T>) -> (shared: UnboundedSender<T>)
    ensures
        shared == *sender,
{
    sender.clone()
}

/// What an element declares for one kind of event.
#[derive(Clone, Copy, Debug, PartialEq, Eq, Structural)]
pub enum Subscription {
    /// No handler.
    Unset,
    /// A handler; the remote side keeps the event's default action.
    Plain,
    /// A handler; the remote side suppresses the event's default action.
    PreventDefault,
}

/// The handler that an element declares for one kind of event.
#[verifier::reject_recursive_types(Event)]
#[verifier::reject_recursive_types(T)]
pub enum VNodeEventHandler<Event, T: Message> {
    Handle { handler: Callback<Event, T> },
    HandlePreventDefault { handler: Callback<Event, T> },
    Unset,
}

impl<Event, T: Message> VNodeEventHandler<Event, T> {
    /// What this declaration subscribes to.
    pub open spec fn subscription(self) -> Subscription {
        match self {
            VNodeEventHandler::Handle { .. } => Subscription::Plain,
            VNodeEventHandler::HandlePreventDefault { .. } => Subscription::PreventDefault,
            VNodeEventHandler::Unset => Subscription::Unset,
        }
    }

    /// Whether `message` is a message that the declared handler may make
    /// of `event`. Where no handler is declared, none is.
    pub open spec fn yields(self, event: Event, message: T) -> bool {
        match self {
            VNodeEventHandler::Handle { handler } => handler.yields(event, message),
            VNodeEventHandler::HandlePreventDefault { handler } => handler.yields(event, message),
            VNodeEventHandler::Unset => false,
        }
    }

    /// Declares `handler` for the event. The handler has to take every
    /// payload, since any may arrive.
    pub fn handle<F>(handler: F) -> (declared: Self) where
        F: Fn(Event) -> T + 'static + Sync + Send,

        requires
            forall|event: Event| call_requires(handler, (event,)),
        ensures
            declared is Handle,
            declared.subscription() == Subscription::Plain,
            forall|event: Event, message: T| #[trigger]
                declared.yields(event, message) <==> call_ensures(handler, (event,), message),
    {
        Self::Handle { handler: Callback::new(handler) }
    }

    /// Declares `handler` for the event, and asks the remote side to
    /// suppress the event's default action. The handler has to take every
    /// payload, since any may arrive.
    pub fn handle_prevent_default<F>(handler: F) -> (declared: Self) where
        F: Fn(Event) -> T + 'static + Sync + Send,

        requires
            forall|event: Event| call_requires(handler, (event,)),
        ensures
            declared is HandlePreventDefault,
            declared.subscription() == Subscription::PreventDefault,
            forall|event: Event, message: T| #[trigger]
                declared.yields(event, message) <==> call_ensures(handler, (event,), message),
    {
        Self::HandlePreventDefault { handler: Callback::new(handler) }
    }

    /// What this declaration subscribes to.
    pub fn state(&self) -> (s: Subscription)
        ensures
            s == self.subscription(),
    {
        match self {
            VNodeEventHandler::Handle { .. } => Subscription::Plain,
            VNodeEventHandler::HandlePreventDefault { .. } => Subscription::PreventDefault,
            VNodeEventHandler::Unset => Subscription::Unset,
        }
    }

    /// The message that the declared handler makes of `event`, if one is
    /// declared.
    pub fn respond(&self, event: Event) -> (message: Option<T>)
        ensures
            message is Some <==> self.subscription() != Subscription::Unset,
            message matches Some(made) ==> self.yields(event, made),
    {
        match self {
            VNodeEventHandler::Handle { handler } => Some(handler.call(event)),
            VNodeEventHandler::HandlePreventDefault { handler } => Some(handler.call(event)),
            VNodeEventHandler::Unset => None,
        }
    }
}

impl<Event, T: Message> Default for VNodeEventHandler<Event, T> {
    fn default() -> (declared: Self)
        ensures
            declared is Unset,
    {
        VNodeEventHandler::Unset
    }
}

/// The handlers that an element declares, one per kind of event.
#[verifier::reject_recursive_types(T)]
pub struct VNodeEventHandlers<T: Message> {
    pub abort: VNodeEventHandler<Event, T>,
    pub animation_cancel: VNodeEventHandler<AnimationEvent, T>,
    pub animation_end: VNodeEventHandler<AnimationEvent, T>,
    pub animation_iteration: VNodeEventHandler<AnimationEvent, T>,
    pub animation_start: VNodeEventHandler<AnimationEvent, T>,
    pub aux_click: VNodeEventHandler<MouseEvent, T>,
    pub blur: VNodeEventHandler<FocusEvent, T>,
    pub cancel: VNodeEventHandler<Event, T>,
    pub can_play: VNodeEventHandler<Event, T>,
    pub can_play_through: VNodeEventHandler<Event, T>,
    pub change: VNodeEventHandler<Event, T>,
    pub click: VNodeEventHandler<MouseEvent, T>,
    pub close: VNodeEventHandler<Event, T>,
    pub context_menu: VNodeEventHandler<MouseEvent, T>,
    pub copy: VNodeEventHandler<Event, T>,
    pub cue_change: VNodeEventHandler<Event, T>,
    pub cut: VNodeEventHandler<Event, T>,
    pub double_click: VNodeEventHandler<MouseEvent, T>,
    pub drag: VNodeEventHandler<DragEvent, T>,
    pub drag_end: VNodeEventHandler<DragEvent, T>,
    pub drag_enter: VNodeEventHandler<DragEvent, T>,
    pub drag_leave: VNodeEventHandler<DragEvent, T>,
    pub drag_over: VNodeEventHandler<DragEvent, T>,
    pub drag_start: VNodeEventHandler<DragEvent, T>,
    pub drop: VNodeEventHandler<DragEvent, T>,
    pub duration_change: VNodeEventHandler<Event, T>,
    pub emptied: VNodeEventHandler<Event, T>,
    pub ended: VNodeEventHandler<Event, T>,
    pub error: VNodeEventHandler<Event, T>,
    pub focus: VNodeEventHandler<FocusEvent, T>,
    pub focus_in: VNodeEventHandler<FocusEvent, T>,
    pub focus_out: VNodeEventHandler<FocusEvent, T>,
    pub form_data: VNodeEventHandler<Event, T>,
    pub got_pointer_capture: VNodeEventHandler<PointerEvent, T>,
    pub input: VNodeEventHandler<InputEvent, T>,
    pub invalid: VNodeEventHandler<Event, T>,
    pub key_down: VNodeEventHandler<KeyboardEvent, T>,
    pub key_press: VNodeEventHandler<KeyboardEvent, T>,
    pub key_up: VNodeEventHandler<KeyboardEvent, T>,
    pub load: VNodeEventHandler<Event, T>,
    pub loaded_data: VNodeEventHandler<Event, T>,
    pub loaded_metadata: VNodeEventHandler<Event, T>,
    pub load_start: VNodeEventHandler<ProgressEvent, T>,
    pub lost_pointer_capture: VNodeEventHandler<PointerEvent, T>,
    pub mouse_down: VNodeEventHandler<MouseEvent, T>,
    pub mouse_enter: VNodeEventHandler<MouseEvent, T>,
    pub mouse_leave: VNodeEventHandler<MouseEvent, T>,
    pub mouse_move: VNodeEventHandler<MouseEvent, T>,
    pub mouse_out: VNodeEventHandler<MouseEvent, T>,
    pub mouse_over: VNodeEventHandler<MouseEvent, T>,
    pub mouse_up: VNodeEventHandler<MouseEvent, T>,
    pub paste: VNodeEventHandler<Event, T>,
    pub pause: VNodeEventHandler<Event, T>,
    pub play: VNodeEventHandler<Event, T>,
    pub playing: VNodeEventHandler<Event, T>,
    pub pointer_cancel: VNodeEventHandler<PointerEvent, T>,
    pub pointer_down: VNodeEventHandler<PointerEvent, T>,
    pub pointer_enter: VNodeEventHandler<PointerEvent, T>,
    pub pointer_leave: VNodeEventHandler<PointerEvent, T>,
    pub pointer_move: VNodeEventHandler<PointerEvent, T>,
    pub pointer_out: VNodeEventHandler<PointerEvent, T>,
    pub pointer_over: VNodeEventHandler<PointerEvent, T>,
    pub pointer_up: VNodeEventHandler<PointerEvent, T>,
    pub progress: VNodeEventHandler<ProgressEvent, T>,
    pub rate_change: VNodeEventHandler<Event, T>,
    pub reset: VNodeEventHandler<Event, T>,
    pub resize: VNodeEventHandler<Event, T>,
    pub scroll: VNodeEventHandler<Event, T>,
    pub security_policy_violation: VNodeEventHandler<Event, T>,
    pub seeked: VNodeEventHandler<Event, T>,
    pub seeking: VNodeEventHandler<Event, T>,
    pub select: VNodeEventHandler<Event, T>,
    pub selection_change: VNodeEventHandler<Event, T>,
    pub select_start: VNodeEventHandler<Event, T>,
    pub slot_change: VNodeEventHandler<Event, T>,
    pub stalled: VNodeEventHandler<Event, T>,
    pub submit: VNodeEventHandler<SubmitEvent, T>,
    pub suspend: VNodeEventHandler<Event, T>,
    pub time_update: VNodeEventHandler<Event, T>,
    pub toggle: VNodeEventHandler<Event, T>,
    pub touch_cancel: VNodeEventHandler<TouchEvent, T>,
    pub touch_end: VNodeEventHandler<TouchEvent, T>,
    pub touch_move: VNodeEventHandler<TouchEvent, T>,
    pub touch_start: VNodeEventHandler<TouchEvent, T>,
    pub transition_cancel: VNodeEventHandler<TransitionEvent, T>,
    pub transition_end: VNodeEventHandler<TransitionEvent, T>,
    pub transition_run: VNodeEventHandler<TransitionEvent, T>,
    pub transition_start: VNodeEventHandler<TransitionEvent, T>,
    pub volume_change: VNodeEventHandler<Event, T>,
    pub waiting: VNodeEventHandler<Event, T>,
    pub wheel: VNodeEventHandler<WheelEvent, T>,
}

impl<T: Message> VNodeEventHandlers<T> {
    /// What the element declares for `kind`.
    pub open spec fn declared(self, kind: VNodeEventType) -> Subscription {
        match kind {
            VNodeEventType::Abort => self.abort.subscription(),
            VNodeEventType::AnimationCancel => self.animation_cancel.subscription(),
            VNodeEventType::AnimationEnd => self.animation_end.subscription(),
            VNodeEventType::AnimationIteration => self.animation_iteration.subscription(),
            VNodeEventType::AnimationStart => self.animation_start.subscription(),
            VNodeEventType::AuxClick => self.aux_click.subscription(),
            VNodeEventType::Blur => self.blur.subscription(),
            VNodeEventType::Cancel => self.cancel.subscription(),
            VNodeEventType::CanPlay => self.can_play.subscription(),
            VNodeEventType::CanPlayThrough => self.can_play_through.subscription(),
            VNodeEventType::Change => self.change.subscription(),
            VNodeEventType::Click => self.click.subscription(),
            VNodeEventType::Close => self.close.subscription(),
            VNodeEventType::ContextMenu => self.context_menu.subscription(),
            VNodeEventType::Copy => self.copy.subscription(),
            VNodeEventType::CueChange => self.cue_change.subscription(),
            VNodeEventType::Cut => self.cut.subscription(),
            VNodeEventType::DoubleClick => self.double_click.subscription(),
            VNodeEventType::Drag => self.drag.subscription(),
            VNodeEventType::DragEnd => self.drag_end.subscription(),
            VNodeEventType::DragEnter => self.drag_enter.subscription(),
            VNodeEventType::DragLeave => self.drag_leave.subscription(),
            VNodeEventType::DragOver => self.drag_over.subscription(),
            VNodeEventType::DragStart => self.drag_start.subscription(),
            VNodeEventType::Drop => self.drop.subscription(),
            VNodeEventType::DurationChange => self.duration_change.subscription(),
            VNodeEventType::Emptied => self.emptied.subscription(),
            VNodeEventType::Ended => self.ended.subscription(),
            VNodeEventType::Error => self.error.subscription(),
            VNodeEventType::Focus => self.focus.subscription(),
            VNodeEventType::FocusIn => self.focus_in.subscription(),
            VNodeEventType::FocusOut => self.focus_out.subscription(),
            VNodeEventType::FormData => self.form_data.subscription(),
            VNodeEventType::GotPointerCapture => self.got_pointer_capture.subscription(),
            VNodeEventType::Input => self.input.subscription(),
            VNodeEventType::Invalid => self.invalid.subscription(),
            VNodeEventType::KeyDown => self.key_down.subscription(),
            VNodeEventType::KeyPress => self.key_press.subscription(),
            VNodeEventType::KeyUp => self.key_up.subscription(),
            VNodeEventType::Load => self.load.subscription(),
            VNodeEventType::LoadedData => self.loaded_data.subscription(),
            VNodeEventType::LoadedMetadata => self.loaded_metadata.subscription(),
            VNodeEventType::LoadStart => self.load_start.subscription(),
            VNodeEventType::LostPointerCapture => self.lost_pointer_capture.subscription(),
            VNodeEventType::MouseDown => self.mouse_down.subscription(),
            VNodeEventType::MouseEnter => self.mouse_enter.subscription(),
            VNodeEventType::MouseLeave => self.mouse_leave.subscription(),
            VNodeEventType::MouseMove => self.mouse_move.subscription(),
            VNodeEventType::MouseOut => self.mouse_out.subscription(),
            VNodeEventType::MouseOver => self.mouse_over.subscription(),
            VNodeEventType::MouseUp => self.mouse_up.subscription(),
            VNodeEventType::Paste => self.paste.subscription(),
            VNodeEventType::Pause => self.pause.subscription(),
            VNodeEventType::Play => self.play.subscription(),
            VNodeEventType::Playing => self.playing.subscription(),
            VNodeEventType::PointerCancel => self.pointer_cancel.subscription(),
            VNodeEventType::PointerDown => self.pointer_down.subscription(),
            VNodeEventType::PointerEnter => self.pointer_enter.subscription(),
            VNodeEventType::PointerLeave => self.pointer_leave.subscription(),
            VNodeEventType::PointerMove => self.pointer_move.subscription(),
            VNodeEventType::PointerOut => self.pointer_out.subscription(),
            VNodeEventType::PointerOver => self.pointer_over.subscription(),
            VNodeEventType::PointerUp => self.pointer_up.subscription(),
            VNodeEventType::Progress => self.progress.subscription(),
            VNodeEventType::RateChange => self.rate_change.subscription(),
            VNodeEventType::Reset => self.reset.subscription(),
            VNodeEventType::Resize => self.resize.subscription(),
            VNodeEventType::Scroll => self.scroll.subscription(),
            VNodeEventType::SecurityPolicyViolation => self.security_policy_violation.subscription(),
            VNodeEventType::Seeked => self.seeked.subscription(),
            VNodeEventType::Seeking => self.seeking.subscription(),
            VNodeEventType::Select => self.select.subscription(),
            VNodeEventType::SelectionChange => self.selection_change.subscription(),
            VNodeEventType::SelectStart => self.select_start.subscription(),
            VNodeEventType::SlotChange => self.slot_change.subscription(),
            VNodeEventType::Stalled => self.stalled.subscription(),
            VNodeEventType::Submit => self.submit.subscription(),
            VNodeEventType::Suspend => self.suspend.subscription(),
            VNodeEventType::TimeUpdate => self.time_update.subscription(),
            VNodeEventType::Toggle => self.toggle.subscription(),
            VNodeEventType::TouchCancel => self.touch_cancel.subscription(),
            VNodeEventType::TouchEnd => self.touch_end.subscription(),
            VNodeEventType::TouchMove => self.touch_move.subscription(),
            VNodeEventType::TouchStart => self.touch_start.subscription(),
            VNodeEventType::TransitionCancel => self.transition_cancel.subscription(),
            VNodeEventType::TransitionEnd => self.transition_end.subscription(),
            VNodeEventType::TransitionRun => self.transition_run.subscription(),
            VNodeEventType::TransitionStart => self.transition_start.subscription(),
            VNodeEventType::VolumeChange => self.volume_change.subscription(),
            VNodeEventType::Waiting => self.waiting.subscription(),
            VNodeEventType::Wheel => self.wheel.subscription(),
        }
    }

    /// The kinds for which the element declares `wanted`, in catalog order.
    pub open spec fn kinds(self, wanted: Subscription) -> Seq<VNodeEventType> {
        catalog().filter(self.declares(wanted))
    }

    /// The test "the element declares `wanted` for this kind".
    pub open spec fn declares(self, wanted: Subscription) -> spec_fn(VNodeEventType) -> bool {
        |kind: VNodeEventType| self.declared(kind) == wanted
    }

    /// What the element declares for `kind`.
    pub fn subscription(&self, kind: VNodeEventType) -> (s: Subscription)
        ensures
            s == self.declared(kind),
    {
        match kind {
            VNodeEventType::Abort => self.abort.state(),
            VNodeEventType::AnimationCancel => self.animation_cancel.state(),
            VNodeEventType::AnimationEnd => self.animation_end.state(),
            VNodeEventType::AnimationIteration => self.animation_iteration.state(),
            VNodeEventType::AnimationStart => self.animation_start.state(),
            VNodeEventType::AuxClick => self.aux_click.state(),
            VNodeEventType::Blur => self.blur.state(),
            VNodeEventType::Cancel => self.cancel.state(),
            VNodeEventType::CanPlay => self.can_play.state(),
            VNodeEventType::CanPlayThrough => self.can_play_through.state(),
            VNodeEventType::Change => self.change.state(),
            VNodeEventType::Click => self.click.state(),
            VNodeEventType::Close => self.close.state(),
            VNodeEventType::ContextMenu => self.context_menu.state(),
            VNodeEventType::Copy => self.copy.state(),
            VNodeEventType::CueChange => self.cue_change.state(),
            VNodeEventType::Cut => self.cut.state(),
            VNodeEventType::DoubleClick => self.double_click.state(),
            VNodeEventType::Drag => self.drag.state(),
            VNodeEventType::DragEnd => self.drag_end.state(),
            VNodeEventType::DragEnter => self.drag_enter.state(),
            VNodeEventType::DragLeave => self.drag_leave.state(),
            VNodeEventType::DragOver => self.drag_over.state(),
            VNodeEventType::DragStart => self.drag_start.state(),
            VNodeEventType::Drop => self.drop.state(),
            VNodeEventType::DurationChange => self.duration_change.state(),
            VNodeEventType::Emptied => self.emptied.state(),
            VNodeEventType::Ended => self.ended.state(),
            VNodeEventType::Error => self.error.state(),
            VNodeEventType::Focus => self.focus.state(),
            VNodeEventType::FocusIn => self.focus_in.state(),
            VNodeEventType::FocusOut => self.focus_out.state(),
            VNodeEventType::FormData => self.form_data.state(),
            VNodeEventType::GotPointerCapture => self.got_pointer_capture.state(),
            VNodeEventType::Input => self.input.state(),
            VNodeEventType::Invalid => self.invalid.state(),
            VNodeEventType::KeyDown => self.key_down.state(),
            VNodeEventType::KeyPress => self.key_press.state(),
            VNodeEventType::KeyUp => self.key_up.state(),
            VNodeEventType::Load => self.load.state(),
            VNodeEventType::LoadedData => self.loaded_data.state(),
            VNodeEventType::LoadedMetadata => self.loaded_metadata.state(),
            VNodeEventType::LoadStart => self.load_start.state(),
            VNodeEventType::LostPointerCapture => self.lost_pointer_capture.state(),
            VNodeEventType::MouseDown => self.mouse_down.state(),
            VNodeEventType::MouseEnter => self.mouse_enter.state(),
            VNodeEventType::MouseLeave => self.mouse_leave.state(),
            VNodeEventType::MouseMove => self.mouse_move.state(),
            VNodeEventType::MouseOut => self.mouse_out.state(),
            VNodeEventType::MouseOver => self.mouse_over.state(),
            VNodeEventType::MouseUp => self.mouse_up.state(),
            VNodeEventType::Paste => self.paste.state(),
            VNodeEventType::Pause => self.pause.state(),
            VNodeEventType::Play => self.play.state(),
            VNodeEventType::Playing => self.playing.state(),
            VNodeEventType::PointerCancel => self.pointer_cancel.state(),
            VNodeEventType::PointerDown => self.pointer_down.state(),
            VNodeEventType::PointerEnter => self.pointer_enter.state(),
            VNodeEventType::PointerLeave => self.pointer_leave.state(),
            VNodeEventType::PointerMove => self.pointer_move.state(),
            VNodeEventType::PointerOut => self.pointer_out.state(),
            VNodeEventType::PointerOver => self.pointer_over.state(),
            VNodeEventType::PointerUp => self.pointer_up.state(),
            VNodeEventType::Progress => self.progress.state(),
            VNodeEventType::RateChange => self.rate_change.state(),
            VNodeEventType::Reset => self.reset.state(),
            VNodeEventType::Resize => self.resize.state(),
            VNodeEventType::Scroll => self.scroll.state(),
            VNodeEventType::SecurityPolicyViolation => self.security_policy_violation.state(),
            VNodeEventType::Seeked => self.seeked.state(),
            VNodeEventType::Seeking => self.seeking.state(),
            VNodeEventType::Select => self.select.state(),
            VNodeEventType::SelectionChange => self.selection_change.state(),
            VNodeEventType::SelectStart => self.select_start.state(),
            VNodeEventType::SlotChange => self.slot_change.state(),
            VNodeEventType::Stalled => self.stalled.state(),
            VNodeEventType::Submit => self.submit.state(),
            VNodeEventType::Suspend => self.suspend.state(),
            VNodeEventType::TimeUpdate => self.time_update.state(),
            VNodeEventType::Toggle => self.toggle.state(),
            VNodeEventType::TouchCancel => self.touch_cancel.state(),
            VNodeEventType::TouchEnd => self.touch_end.state(),
            VNodeEventType::TouchMove => self.touch_move.state(),
            VNodeEventType::TouchStart => self.touch_start.state(),
            VNodeEventType::TransitionCancel => self.transition_cancel.state(),
            VNodeEventType::TransitionEnd => self.transition_end.state(),
            VNodeEventType::TransitionRun => self.transition_run.state(),
            VNodeEventType::TransitionStart => self.transition_start.state(),
            VNodeEventType::VolumeChange => self.volume_change.state(),
            VNodeEventType::Waiting => self.waiting.state(),
            VNodeEventType::Wheel => self.wheel.state(),
        }
    }

    /// What the element declares for the kind of `event`.
    pub open spec fn answers(self, event: VNodeEventKind) -> Subscription {
        match event {
            VNodeEventKind::Abort(_) => self.abort.subscription(),
            VNodeEventKind::AnimationCancel(_) => self.animation_cancel.subscription(),
            VNodeEventKind::AnimationEnd(_) => self.animation_end.subscription(),
            VNodeEventKind::AnimationIteration(_) => self.animation_iteration.subscription(),
            VNodeEventKind::AnimationStart(_) => self.animation_start.subscription(),
            VNodeEventKind::AuxClick(_) => self.aux_click.subscription(),
            VNodeEventKind::Blur(_) => self.blur.subscription(),
            VNodeEventKind::Cancel(_) => self.cancel.subscription(),
            VNodeEventKind::CanPlay(_) => self.can_play.subscription(),
            VNodeEventKind::CanPlayThrough(_) => self.can_play_through.subscription(),
            VNodeEventKind::Change(_) => self.change.subscription(),
            VNodeEventKind::Click(_) => self.click.subscription(),
            VNodeEventKind::Close(_) => self.close.subscription(),
            VNodeEventKind::ContextMenu(_) => self.context_menu.subscription(),
            VNodeEventKind::Copy(_) => self.copy.subscription(),
            VNodeEventKind::CueChange(_) => self.cue_change.subscription(),
            VNodeEventKind::Cut(_) => self.cut.subscription(),
            VNodeEventKind::DoubleClick(_) => self.double_click.subscription(),
            VNodeEventKind::Drag(_) => self.drag.subscription(),
            VNodeEventKind::DragEnd(_) => self.drag_end.subscription(),
            VNodeEventKind::DragEnter(_) => self.drag_enter.subscription(),
            VNodeEventKind::DragLeave(_) => self.drag_leave.subscription(),
            VNodeEventKind::DragOver(_) => self.drag_over.subscription(),
            VNodeEventKind::DragStart(_) => self.drag_start.subscription(),
            VNodeEventKind::Drop(_) => self.drop.subscription(),
            VNodeEventKind::DurationChange(_) => self.duration_change.subscription(),
            VNodeEventKind::Emptied(_) => self.emptied.subscription(),
            VNodeEventKind::Ended(_) => self.ended.subscription(),
            VNodeEventKind::Error(_) => self.error.subscription(),
            VNodeEventKind::Focus(_) => self.focus.subscription(),
            VNodeEventKind::FocusIn(_) => self.focus_in.subscription(),
            VNodeEventKind::FocusOut(_) => self.focus_out.subscription(),
            VNodeEventKind::FormData(_) => self.form_data.subscription(),
            VNodeEventKind::GotPointerCapture(_) => self.got_pointer_capture.subscription(),
            VNodeEventKind::Input(_) => self.input.subscription(),
            VNodeEventKind::Invalid(_) => self.invalid.subscription(),
            VNodeEventKind::KeyDown(_) => self.key_down.subscription(),
            VNodeEventKind::KeyPress(_) => self.key_press.subscription(),
            VNodeEventKind::KeyUp(_) => self.key_up.subscription(),
            VNodeEventKind::Load(_) => self.load.subscription(),
            VNodeEventKind::LoadedData(_) => self.loaded_data.subscription(),
            VNodeEventKind::LoadedMetadata(_) => self.loaded_metadata.subscription(),
            VNodeEventKind::LoadStart(_) => self.load_start.subscription(),
            VNodeEventKind::LostPointerCapture(_) => self.lost_pointer_capture.subscription(),
            VNodeEventKind::MouseDown(_) => self.mouse_down.subscription(),
            VNodeEventKind::MouseEnter(_) => self.mouse_enter.subscription(),
            VNodeEventKind::MouseLeave(_) => self.mouse_leave.subscription(),
            VNodeEventKind::MouseMove(_) => self.mouse_move.subscription(),
            VNodeEventKind::MouseOut(_) => self.mouse_out.subscription(),
            VNodeEventKind::MouseOver(_) => self.mouse_over.subscription(),
            VNodeEventKind::MouseUp(_) => self.mouse_up.subscription(),
            VNodeEventKind::Paste(_) => self.paste.subscription(),
            VNodeEventKind::Pause(_) => self.pause.subscription(),
            VNodeEventKind::Play(_) => self.play.subscription(),
            VNodeEventKind::Playing(_) => self.playing.subscription(),
            VNodeEventKind::PointerCancel(_) => self.pointer_cancel.subscription(),
            VNodeEventKind::PointerDown(_) => self.pointer_down.subscription(),
            VNodeEventKind::PointerEnter(_) => self.pointer_enter.subscription(),
            VNodeEventKind::PointerLeave(_) => self.pointer_leave.subscription(),
            VNodeEventKind::PointerMove(_) => self.pointer_move.subscription(),
            VNodeEventKind::PointerOut(_) => self.pointer_out.subscription(),
            VNodeEventKind::PointerOver(_) => self.pointer_over.subscription(),
            VNodeEventKind::PointerUp(_) => self.pointer_up.subscription(),
            VNodeEventKind::Progress(_) => self.progress.subscription(),
            VNodeEventKind::RateChange(_) => self.rate_change.subscription(),
            VNodeEventKind::Reset(_) => self.reset.subscription(),
            VNodeEventKind::Resize(_) => self.resize.subscription(),
            VNodeEventKind::Scroll(_) => self.scroll.subscription(),
            VNodeEventKind::SecurityPolicyViolation(_) => self.security_policy_violation.subscription(),
            VNodeEventKind::Seeked(_) => self.seeked.subscription(),
            VNodeEventKind::Seeking(_) => self.seeking.subscription(),
            VNodeEventKind::Select(_) => self.select.subscription(),
            VNodeEventKind::SelectionChange(_) => self.selection_change.subscription(),
            VNodeEventKind::SelectStart(_) => self.select_start.subscription(),
            VNodeEventKind::SlotChange(_) => self.slot_change.subscription(),
            VNodeEventKind::Stalled(_) => self.stalled.subscription(),
            VNodeEventKind::Submit(_) => self.submit.subscription(),
            VNodeEventKind::Suspend(_) => self.suspend.subscription(),
            VNodeEventKind::TimeUpdate(_) => self.time_update.subscription(),
            VNodeEventKind::Toggle(_) => self.toggle.subscription(),
            VNodeEventKind::TouchCancel(_) => self.touch_cancel.subscription(),
            VNodeEventKind::TouchEnd(_) => self.touch_end.subscription(),
            VNodeEventKind::TouchMove(_) => self.touch_move.subscription(),
            VNodeEventKind::TouchStart(_) => self.touch_start.subscription(),
            VNodeEventKind::TransitionCancel(_) => self.transition_cancel.subscription(),
            VNodeEventKind::TransitionEnd(_) => self.transition_end.subscription(),
            VNodeEventKind::TransitionRun(_) => self.transition_run.subscription(),
            VNodeEventKind::TransitionStart(_) => self.transition_start.subscription(),
            VNodeEventKind::VolumeChange(_) => self.volume_change.subscription(),
            VNodeEventKind::Waiting(_) => self.waiting.subscription(),
            VNodeEventKind::Wheel(_) => self.wheel.subscription(),
        }
    }

    /// Whether `message` is a message that the handler declared for the
    /// kind of `event` may make of the payload of `event`. Where no handler
    /// is declared for the kind, none is.
    pub open spec fn replies(self, event: VNodeEventKind, message: T) -> bool {
        match event {
            VNodeEventKind::Abort(payload) => self.abort.yields(payload, message),
            VNodeEventKind::AnimationCancel(payload) => self.animation_cancel.yields(payload, message),
            VNodeEventKind::AnimationEnd(payload) => self.animation_end.yields(payload, message),
            VNodeEventKind::AnimationIteration(payload) => self.animation_iteration.yields(payload, message),
            VNodeEventKind::AnimationStart(payload) => self.animation_start.yields(payload, message),
            VNodeEventKind::AuxClick(payload) => self.aux_click.yields(payload, message),
            VNodeEventKind::Blur(payload) => self.blur.yields(payload, message),
            VNodeEventKind::Cancel(payload) => self.cancel.yields(payload, message),
            VNodeEventKind::CanPlay(payload) => self.can_play.yields(payload, message),
            VNodeEventKind::CanPlayThrough(payload) => self.can_play_through.yields(payload, message),
            VNodeEventKind::Change(payload) => self.change.yields(payload, message),
            VNodeEventKind::Click(payload) => self.click.yields(payload, message),
            VNodeEventKind::Close(payload) => self.close.yields(payload, message),
            VNodeEventKind::ContextMenu(payload) => self.context_menu.yields(payload, message),
            VNodeEventKind::Copy(payload) => self.copy.yields(payload, message),
            VNodeEventKind::CueChange(payload) => self.cue_change.yields(payload, message),
            VNodeEventKind::Cut(payload) => self.cut.yields(payload, message),
            VNodeEventKind::DoubleClick(payload) => self.double_click.yields(payload, message),
            VNodeEventKind::Drag(payload) => self.drag.yields(payload, message),
            VNodeEventKind::DragEnd(payload) => self.drag_end.yields(payload, message),
            VNodeEventKind::DragEnter(payload) => self.drag_enter.yields(payload, message),
            VNodeEventKind::DragLeave(payload) => self.drag_leave.yields(payload, message),
            VNodeEventKind::DragOver(payload) => self.drag_over.yields(payload, message),
            VNodeEventKind::DragStart(payload) => self.drag_start.yields(payload, message),
            VNodeEventKind::Drop(payload) => self.drop.yields(payload, message),
            VNodeEventKind::DurationChange(payload) => self.duration_change.yields(payload, message),
            VNodeEventKind::Emptied(payload) => self.emptied.yields(payload, message),
            VNodeEventKind::Ended(payload) => self.ended.yields(payload, message),
            VNodeEventKind::Error(payload) => self.error.yields(payload, message),
            VNodeEventKind::Focus(payload) => self.focus.yields(payload, message),
            VNodeEventKind::FocusIn(payload) => self.focus_in.yields(payload, message),
            VNodeEventKind::FocusOut(payload) => self.focus_out.yields(payload, message),
            VNodeEventKind::FormData(payload) => self.form_data.yields(payload, message),
            VNodeEventKind::GotPointerCapture(payload) => self.got_pointer_capture.yields(payload, message),
            VNodeEventKind::Input(payload) => self.input.yields(payload, message),
            VNodeEventKind::Invalid(payload) => self.invalid.yields(payload, message),
            VNodeEventKind::KeyDown(payload) => self.key_down.yields(payload, message),
            VNodeEventKind::KeyPress(payload) => self.key_press.yields(payload, message),
            VNodeEventKind::KeyUp(payload) => self.key_up.yields(payload, message),
            VNodeEventKind::Load(payload) => self.load.yields(payload, message),
            VNodeEventKind::LoadedData(payload) => self.loaded_data.yields(payload, message),
            VNodeEventKind::LoadedMetadata(payload) => self.loaded_metadata.yields(payload, message),
            VNodeEventKind::LoadStart(payload) => self.load_start.yields(payload, message),
            VNodeEventKind::LostPointerCapture(payload) => self.lost_pointer_capture.yields(payload, message),
            VNodeEventKind::MouseDown(payload) => self.mouse_down.yields(payload, message),
            VNodeEventKind::MouseEnter(payload) => self.mouse_enter.yields(payload, message),
            VNodeEventKind::MouseLeave(payload) => self.mouse_leave.yields(payload, message),
            VNodeEventKind::MouseMove(payload) => self.mouse_move.yields(payload, message),
            VNodeEventKind::MouseOut(payload) => self.mouse_out.yields(payload, message),
            VNodeEventKind::MouseOver(payload) => self.mouse_over.yields(payload, message),
            VNodeEventKind::MouseUp(payload) => self.mouse_up.yields(payload, message),
            VNodeEventKind::Paste(payload) => self.paste.yields(payload, message),
            VNodeEventKind::Pause(payload) => self.pause.yields(payload, message),
            VNodeEventKind::Play(payload) => self.play.yields(payload, message),
            VNodeEventKind::Playing(payload) => self.playing.yields(payload, message),
            VNodeEventKind::PointerCancel(payload) => self.pointer_cancel.yields(payload, message),
            VNodeEventKind::PointerDown(payload) => self.pointer_down.yields(payload, message),
            VNodeEventKind::PointerEnter(payload) => self.pointer_enter.yields(payload, message),
            VNodeEventKind::PointerLeave(payload) => self.pointer_leave.yields(payload, message),
            VNodeEventKind::PointerMove(payload) => self.pointer_move.yields(payload, message),
            VNodeEventKind::PointerOut(payload) => self.pointer_out.yields(payload, message),
            VNodeEventKind::PointerOver(payload) => self.pointer_over.yields(payload, message),
            VNodeEventKind::PointerUp(payload) => self.pointer_up.yields(payload, message),
            VNodeEventKind::Progress(payload) => self.progress.yields(payload, message),
            VNodeEventKind::RateChange(payload) => self.rate_change.yields(payload, message),
            VNodeEventKind::Reset(payload) => self.reset.yields(payload, message),
            VNodeEventKind::Resize(payload) => self.resize.yields(payload, message),
            VNodeEventKind::Scroll(payload) => self.scroll.yields(payload, message),
            VNodeEventKind::SecurityPolicyViolation(payload) => self.security_policy_violation.yields(payload, message),
            VNodeEventKind::Seeked(payload) => self.seeked.yields(payload, message),
            VNodeEventKind::Seeking(payload) => self.seeking.yields(payload, message),
            VNodeEventKind::Select(payload) => self.select.yields(payload, message),
            VNodeEventKind::SelectionChange(payload) => self.selection_change.yields(payload, message),
            VNodeEventKind::SelectStart(payload) => self.select_start.yields(payload, message),
            VNodeEventKind::SlotChange(payload) => self.slot_change.yields(payload, message),
            VNodeEventKind::Stalled(payload) => self.stalled.yields(payload, message),
            VNodeEventKind::Submit(payload) => self.submit.yields(payload, message),
            VNodeEventKind::Suspend(payload) => self.suspend.yields(payload, message),
            VNodeEventKind::TimeUpdate(payload) => self.time_update.yields(payload, message),
            VNodeEventKind::Toggle(payload) => self.toggle.yields(payload, message),
            VNodeEventKind::TouchCancel(payload) => self.touch_cancel.yields(payload, message),
            VNodeEventKind::TouchEnd(payload) => self.touch_end.yields(payload, message),
            VNodeEventKind::TouchMove(payload) => self.touch_move.yields(payload, message),
            VNodeEventKind::TouchStart(payload) => self.touch_start.yields(payload, message),
            VNodeEventKind::TransitionCancel(payload) => self.transition_cancel.yields(payload, message),
            VNodeEventKind::TransitionEnd(payload) => self.transition_end.yields(payload, message),
            VNodeEventKind::TransitionRun(payload) => self.transition_run.yields(payload, message),
            VNodeEventKind::TransitionStart(payload) => self.transition_start.yields(payload, message),
            VNodeEventKind::VolumeChange(payload) => self.volume_change.yields(payload, message),
            VNodeEventKind::Waiting(payload) => self.waiting.yields(payload, message),
            VNodeEventKind::Wheel(payload) => self.wheel.yields(payload, message),
        }
    }

    /// `answers` reads the declaration for the event's kind.
    pub proof fn lemma_answers(self, event: VNodeEventKind)
        ensures
            self.answers(event) == self.declared(event.kind()),
    {
    }

    /// The message that the handler declared for the kind of `event` makes
    /// of it, stated over `answers`.
    fn dispatch(&self, event: VNodeEventKind) -> (message: Option<T>)
        ensures
            message is Some <==> self.answers(event) != Subscription::Unset,
            message matches Some(made) ==> self.replies(event, made),
    {
        match event {
            VNodeEventKind::Abort(payload) => self.abort.respond(payload),
            VNodeEventKind::AnimationCancel(payload) => self.animation_cancel.respond(payload),
            VNodeEventKind::AnimationEnd(payload) => self.animation_end.respond(payload),
            VNodeEventKind::AnimationIteration(payload) => self.animation_iteration.respond(payload),
            VNodeEventKind::AnimationStart(payload) => self.animation_start.respond(payload),
            VNodeEventKind::AuxClick(payload) => self.aux_click.respond(payload),
            VNodeEventKind::Blur(payload) => self.blur.respond(payload),
            VNodeEventKind::Cancel(payload) => self.cancel.respond(payload),
            VNodeEventKind::CanPlay(payload) => self.can_play.respond(payload),
            VNodeEventKind::CanPlayThrough(payload) => self.can_play_through.respond(payload),
            VNodeEventKind::Change(payload) => self.change.respond(payload),
            VNodeEventKind::Click(payload) => self.click.respond(payload),
            VNodeEventKind::Close(payload) => self.close.respond(payload),
            VNodeEventKind::ContextMenu(payload) => self.context_menu.respond(payload),
            VNodeEventKind::Copy(payload) => self.copy.respond(payload),
            VNodeEventKind::CueChange(payload) => self.cue_change.respond(payload),
            VNodeEventKind::Cut(payload) => self.cut.respond(payload),
            VNodeEventKind::DoubleClick(payload) => self.double_click.respond(payload),
            VNodeEventKind::Drag(payload) => self.drag.respond(payload),
            VNodeEventKind::DragEnd(payload) => self.drag_end.respond(payload),
            VNodeEventKind::DragEnter(payload) => self.drag_enter.respond(payload),
            VNodeEventKind::DragLeave(payload) => self.drag_leave.respond(payload),
            VNodeEventKind::DragOver(payload) => self.drag_over.respond(payload),
            VNodeEventKind::DragStart(payload) => self.drag_start.respond(payload),
            VNodeEventKind::Drop(payload) => self.drop.respond(payload),
            VNodeEventKind::DurationChange(payload) => self.duration_change.respond(payload),
            VNodeEventKind::Emptied(payload) => self.emptied.respond(payload),
            VNodeEventKind::Ended(payload) => self.ended.respond(payload),
            VNodeEventKind::Error(payload) => self.error.respond(payload),
            VNodeEventKind::Focus(payload) => self.focus.respond(payload),
            VNodeEventKind::FocusIn(payload) => self.focus_in.respond(payload),
            VNodeEventKind::FocusOut(payload) => self.focus_out.respond(payload),
            VNodeEventKind::FormData(payload) => self.form_data.respond(payload),
            VNodeEventKind::GotPointerCapture(payload) => self.got_pointer_capture.respond(payload),
            VNodeEventKind::Input(payload) => self.input.respond(payload),
            VNodeEventKind::Invalid(payload) => self.invalid.respond(payload),
            VNodeEventKind::KeyDown(payload) => self.key_down.respond(payload),
            VNodeEventKind::KeyPress(payload) => self.key_press.respond(payload),
            VNodeEventKind::KeyUp(payload) => self.key_up.respond(payload),
            VNodeEventKind::Load(payload) => self.load.respond(payload),
            VNodeEventKind::LoadedData(payload) => self.loaded_data.respond(payload),
            VNodeEventKind::LoadedMetadata(payload) => self.loaded_metadata.respond(payload),
            VNodeEventKind::LoadStart(payload) => self.load_start.respond(payload),
            VNodeEventKind::LostPointerCapture(payload) => self.lost_pointer_capture.respond(payload),
            VNodeEventKind::MouseDown(payload) => self.mouse_down.respond(payload),
            VNodeEventKind::MouseEnter(payload) => self.mouse_enter.respond(payload),
            VNodeEventKind::MouseLeave(payload) => self.mouse_leave.respond(payload),
            VNodeEventKind::MouseMove(payload) => self.mouse_move.respond(payload),
            VNodeEventKind::MouseOut(payload) => self.mouse_out.respond(payload),
            VNodeEventKind::MouseOver(payload) => self.mouse_over.respond(payload),
            VNodeEventKind::MouseUp(payload) => self.mouse_up.respond(payload),
            VNodeEventKind::Paste(payload) => self.paste.respond(payload),
            VNodeEventKind::Pause(payload) => self.pause.respond(payload),
            VNodeEventKind::Play(payload) => self.play.respond(payload),
            VNodeEventKind::Playing(payload) => self.playing.respond(payload),
            VNodeEventKind::PointerCancel(payload) => self.pointer_cancel.respond(payload),
            VNodeEventKind::PointerDown(payload) => self.pointer_down.respond(payload),
            VNodeEventKind::PointerEnter(payload) => self.pointer_enter.respond(payload),
            VNodeEventKind::PointerLeave(payload) => self.pointer_leave.respond(payload),
            VNodeEventKind::PointerMove(payload) => self.pointer_move.respond(payload),
            VNodeEventKind::PointerOut(payload) => self.pointer_out.respond(payload),
            VNodeEventKind::PointerOver(payload) => self.pointer_over.respond(payload),
            VNodeEventKind::PointerUp(payload) => self.pointer_up.respond(payload),
            VNodeEventKind::Progress(payload) => self.progress.respond(payload),
            VNodeEventKind::RateChange(payload) => self.rate_change.respond(payload),
            VNodeEventKind::Reset(payload) => self.reset.respond(payload),
            VNodeEventKind::Resize(payload) => self.resize.respond(payload),
            VNodeEventKind::Scroll(payload) => self.scroll.respond(payload),
            VNodeEventKind::SecurityPolicyViolation(payload) => self.security_policy_violation.respond(payload),
            VNodeEventKind::Seeked(payload) => self.seeked.respond(payload),
            VNodeEventKind::Seeking(payload) => self.seeking.respond(payload),
            VNodeEventKind::Select(payload) => self.select.respond(payload),
            VNodeEventKind::SelectionChange(payload) => self.selection_change.respond(payload),
            VNodeEventKind::SelectStart(payload) => self.select_start.respond(payload),
            VNodeEventKind::SlotChange(payload) => self.slot_change.respond(payload),
            VNodeEventKind::Stalled(payload) => self.stalled.respond(payload),
            VNodeEventKind::Submit(payload) => self.submit.respond(payload),
            VNodeEventKind::Suspend(payload) => self.suspend.respond(payload),
            VNodeEventKind::TimeUpdate(payload) => self.time_update.respond(payload),
            VNodeEventKind::Toggle(payload) => self.toggle.respond(payload),
            VNodeEventKind::TouchCancel(payload) => self.touch_cancel.respond(payload),
            VNodeEventKind::TouchEnd(payload) => self.touch_end.respond(payload),
            VNodeEventKind::TouchMove(payload) => self.touch_move.respond(payload),
            VNodeEventKind::TouchStart(payload) => self.touch_start.respond(payload),
            VNodeEventKind::TransitionCancel(payload) => self.transition_cancel.respond(payload),
            VNodeEventKind::TransitionEnd(payload) => self.transition_end.respond(payload),
            VNodeEventKind::TransitionRun(payload) => self.transition_run.respond(payload),
            VNodeEventKind::TransitionStart(payload) => self.transition_start.respond(payload),
            VNodeEventKind::VolumeChange(payload) => self.volume_change.respond(payload),
            VNodeEventKind::Waiting(payload) => self.waiting.respond(payload),
            VNodeEventKind::Wheel(payload) => self.wheel.respond(payload),
        }
    }

    /// The message that the handler declared for the kind of `event` makes
    /// of it, if one is declared.
    pub fn message_for(&self, event: VNodeEventKind) -> (message: Option<T>)
        ensures
            message is Some <==> self.declared(event.kind()) != Subscription::Unset,
            message matches Some(made) ==> self.replies(event, made),
    {
        proof {
            self.lemma_answers(event);
        }
        self.dispatch(event)
    }
}

impl<T: Message> Default for VNodeEventHandlers<T> {
    fn default() -> (handlers: Self)
        ensures
            forall|kind: VNodeEventType| handlers.declared(kind) == Subscription::Unset,
    {
        VNodeEventHandlers {
            abort: VNodeEventHandler::Unset,
            animation_cancel: VNodeEventHandler::Unset,
            animation_end: VNodeEventHandler::Unset,
            animation_iteration: VNodeEventHandler::Unset,
            animation_start: VNodeEventHandler::Unset,
            aux_click: VNodeEventHandler::Unset,
            blur: VNodeEventHandler::Unset,
            cancel: VNodeEventHandler::Unset,
            can_play: VNodeEventHandler::Unset,
            can_play_through: VNodeEventHandler::Unset,
            change: VNodeEventHandler::Unset,
            click: VNodeEventHandler::Unset,
            close: VNodeEventHandler::Unset,
            context_menu: VNodeEventHandler::Unset,
            copy: VNodeEventHandler::Unset,
            cue_change: VNodeEventHandler::Unset,
            cut: VNodeEventHandler::Unset,
            double_click: VNodeEventHandler::Unset,
            drag: VNodeEventHandler::Unset,
            drag_end: VNodeEventHandler::Unset,
            drag_enter: VNodeEventHandler::Unset,
            drag_leave: VNodeEventHandler::Unset,
            drag_over: VNodeEventHandler::Unset,
            drag_start: VNodeEventHandler::Unset,
            drop: VNodeEventHandler::Unset,
            duration_change: VNodeEventHandler::Unset,
            emptied: VNodeEventHandler::Unset,
            ended: VNodeEventHandler::Unset,
            error: VNodeEventHandler::Unset,
            focus: VNodeEventHandler::Unset,
            focus_in: VNodeEventHandler::Unset,
            focus_out: VNodeEventHandler::Unset,
            form_data: VNodeEventHandler::Unset,
            got_pointer_capture: VNodeEventHandler::Unset,
            input: VNodeEventHandler::Unset,
            invalid: VNodeEventHandler::Unset,
            key_down: VNodeEventHandler::Unset,
            key_press: VNodeEventHandler::Unset,
            key_up: VNodeEventHandler::Unset,
            load: VNodeEventHandler::Unset,
            loaded_data: VNodeEventHandler::Unset,
            loaded_metadata: VNodeEventHandler::Unset,
            load_start: VNodeEventHandler::Unset,
            lost_pointer_capture: VNodeEventHandler::Unset,
            mouse_down: VNodeEventHandler::Unset,
            mouse_enter: VNodeEventHandler::Unset,
            mouse_leave: VNodeEventHandler::Unset,
            mouse_move: VNodeEventHandler::Unset,
            mouse_out: VNodeEventHandler::Unset,
            mouse_over: VNodeEventHandler::Unset,
            mouse_up: VNodeEventHandler::Unset,
            paste: VNodeEventHandler::Unset,
            pause: VNodeEventHandler::Unset,
            play: VNodeEventHandler::Unset,
            playing: VNodeEventHandler::Unset,
            pointer_cancel: VNodeEventHandler::Unset,
            pointer_down: VNodeEventHandler::Unset,
            pointer_enter: VNodeEventHandler::Unset,
            pointer_leave: VNodeEventHandler::Unset,
            pointer_move: VNodeEventHandler::Unset,
            pointer_out: VNodeEventHandler::Unset,
            pointer_over: VNodeEventHandler::Unset,
            pointer_up: VNodeEventHandler::Unset,
            progress: VNodeEventHandler::Unset,
            rate_change: VNodeEventHandler::Unset,
            reset: VNodeEventHandler::Unset,
            resize: VNodeEventHandler::Unset,
            scroll: VNodeEventHandler::Unset,
            security_policy_violation: VNodeEventHandler::Unset,
            seeked: VNodeEventHandler::Unset,
            seeking: VNodeEventHandler::Unset,
            select: VNodeEventHandler::Unset,
            selection_change: VNodeEventHandler::Unset,
            select_start: VNodeEventHandler::Unset,
            slot_change: VNodeEventHandler::Unset,
            stalled: VNodeEventHandler::Unset,
            submit: VNodeEventHandler::Unset,
            suspend: VNodeEventHandler::Unset,
            time_update: VNodeEventHandler::Unset,
            toggle: VNodeEventHandler::Unset,
            touch_cancel: VNodeEventHandler::Unset,
            touch_end: VNodeEventHandler::Unset,
            touch_move: VNodeEventHandler::Unset,
            touch_start: VNodeEventHandler::Unset,
            transition_cancel: VNodeEventHandler::Unset,
            transition_end: VNodeEventHandler::Unset,
            transition_run: VNodeEventHandler::Unset,
            transition_start: VNodeEventHandler::Unset,
            volume_change: VNodeEventHandler::Unset,
            waiting: VNodeEventHandler::Unset,
            wheel: VNodeEventHandler::Unset,
        }
    }
}

/// What became of an event handed to a callback.
#[derive(Clone, Debug, PartialEq, Eq)]
pub enum Delivery<T> {
    /// The element declares no handler for the event's kind.
    NotSubscribed,
    /// The handler's message went into the channel.
    Sent,
    /// The handler made its message, and the channel's receiving half is
    /// closed: the message comes back.
    ChannelClosed(T),
}

/// An element's handlers together with the channel that takes their
/// messages: the callback that the registry keeps for the element.
#[verifier::reject_recursive_types(T)]
pub struct EventCallback<T: Message> {
    pub handlers: VNodeEventHandlers<T>,
    pub sender: UnboundedSender<T>,
}

impl<T: Message> EventCallback<T> {
    /// Hands `event` to the handler declared for its kind and sends the
    /// handler's message. An event of a kind without handler is ignored. A
    /// message that the channel refuses comes back: it is one that the
    /// declared handler made of the payload of `event`.
    pub fn call(&self, event: VNodeEventKind) -> (delivery: Delivery<T>)
        ensures
            delivery == Delivery::<T>::NotSubscribed <==> self.handlers.declared(event.kind())
                == Subscription::Unset,
            delivery matches Delivery::ChannelClosed(returned) ==> self.handlers.replies(
                event,
                returned,
            ),
    {
        match self.handlers.message_for(event) {
            Some(message) => match send_message(&self.sender, message) {
                Ok(()) => Delivery::Sent,
                Err(returned) => Delivery::ChannelClosed(returned),
            },
            None => Delivery::NotSubscribed,
        }
    }
}

/// An element's callback with the kinds it subscribes to.
#[verifier::reject_recursive_types(T)]
pub struct BundledEventHandler<T: Message> {
    pub handler: EventCallback<T>,
    pub handle_events: Vec<VNodeEventType>,
    pub handle_prevent_default_events: Vec<VNodeEventType>,
}

/// The mathematical content of a [`BundledEventHandler`].
#[verifier::reject_recursive_types(T)]
pub ghost struct Binding<T: Message> {
    pub handler: EventCallback<T>,
    pub plain: Seq<VNodeEventType>,
    pub prevent: Seq<VNodeEventType>,
}

/// The binding of `handlers` to `sender`.
pub open spec fn bind<T: Message>(
    handlers: VNodeEventHandlers<T>,
    sender: UnboundedSender<T>,
) -> Binding<T> {
    Binding {
        handler: EventCallback { handlers, sender },
        plain: handlers.kinds(Subscription::Plain),
        prevent: handlers.kinds(Subscription::PreventDefault),
    }
}

impl<T: Message> View for BundledEventHandler<T> {
    type V = Binding<T>;

    open spec fn view(&self) -> Binding<T> {
        Binding {
            handler: self.handler,
            plain: self.handle_events@,
            prevent: self.handle_prevent_default_events@,
        }
    }
}

impl<T: Message> BundledEventHandler<T> {
    /// Binds an element's declarations to the message channel and lists, in
    /// catalog order, the kinds it subscribes to.
    pub fn bundle(handlers: VNodeEventHandlers<T>, sender: UnboundedSender<T>) -> (bundled: Self)
        ensures
            bundled@ == bind(handlers, sender),
    {
        let mut handle_events: Vec<VNodeEventType> = Vec::new();
        let mut handle_prevent_default_events: Vec<VNodeEventType> = Vec::new();
        let ghost plain = handlers.declares(Subscription::Plain);
        let ghost prevent = handlers.declares(Subscription::PreventDefault);
        let mut i: usize = 0;
        proof {
            assert(catalog().take(0) =~= Seq::empty());
            assert(catalog().take(0).filter(plain) =~= Seq::empty()) by {
                reveal(Seq::filter);
            }
            assert(catalog().take(0).filter(prevent) =~= Seq::empty()) by {
                reveal(Seq::filter);
            }
        }
        while i < EVENT_KINDS
            invariant
                i <= EVENT_KINDS,
                plain == handlers.declares(Subscription::Plain),
                prevent == handlers.declares(Subscription::PreventDefault),
                handle_events@ == catalog().take(i as int).filter(plain),
                handle_prevent_default_events@ == catalog().take(i as int).filter(prevent),
            decreases EVENT_KINDS - i,
        {
            let kind = VNodeEventType::at(i);
            proof {
                let seen = catalog().take(i as int);
                catalog().lemma_take_succ_push(i as int);
                seen.lemma_filter_push(kind, plain);
                seen.lemma_filter_push(kind, prevent);
            }
            match handlers.subscription(kind) {
                Subscription::Plain => {
                    handle_events.push(kind);
                },
                Subscription::PreventDefault => {
                    handle_prevent_default_events.push(kind);
                },
                Subscription::Unset => {},
            }
            i = i + 1;
        }
        proof {
            assert(catalog().take(EVENT_KINDS as int) =~= catalog());
        }
        BundledEventHandler {
            handler: EventCallback { handlers, sender },
            handle_events,
            handle_prevent_default_events,
        }
    }
}

} // verus!
