//! Events that the remote side reports, each with the payload of its kind.

use vstd::prelude::*;
use crate::ident::EventHandleId;
use crate::vnode::event_list::VNodeEventType;

verus! {

/// What the remote side reports of the element an event concerns.
#[derive(PartialEq, Clone, Debug, Default)]
pub struct Element {
    pub tag_name: String,
    pub client_height: u32,
    pub client_width: u32,
    pub client_left: u32,
    pub client_top: u32,
    pub scroll_height: u32,
    pub scroll_width: u32,
    pub scroll_left: u32,
    pub scroll_top: u32,
}

/// The payload of an event that carries nothing but its target.
#[derive(PartialEq, Clone, Debug, Default)]
pub struct Event {
    pub target: Option<Element>,
}

/// The payload of a mouse event.
#[derive(PartialEq, Clone, Debug, Default)]
pub struct MouseEvent {
    pub alt_key: bool,
    pub button: u8,
    pub buttons: u16,
    pub client_x: i32,
    pub client_y: i32,
    pub ctrl_key: bool,
    pub meta_key: bool,
    pub movement_x: i32,
    pub movement_y: i32,
    pub offset_x: i32,
    pub offset_y: i32,
    pub page_x: i32,
    pub page_y: i32,
    pub related_target: Option<Element>,
    pub screen_x: i32,
    pub screen_y: i32,
    pub shift_key: bool,
    pub target: Option<Element>,
    pub x: i32,
    pub y: i32,
}

/// The payload of a focus event.
#[derive(PartialEq, Clone, Debug, Default)]
pub struct FocusEvent {
    pub related_target: Option<Element>,
    pub target: Option<Element>,
}

/// The payload of a drag-and-drop event.
#[derive(PartialEq, Clone, Debug, Default)]
pub struct DragEvent {
    pub alt_key: bool,
    pub button: u8,
    pub buttons: u16,
    pub client_x: i32,
    pub client_y: i32,
    pub ctrl_key: bool,
    pub meta_key: bool,
    pub movement_x: i32,
    pub movement_y: i32,
    pub offset_x: i32,
    pub offset_y: i32,
    pub page_x: i32,
    pub page_y: i32,
    pub related_target: Option<Element>,
    pub screen_x: i32,
    pub screen_y: i32,
    pub shift_key: bool,
    pub target: Option<Element>,
    pub x: i32,
    pub y: i32,
}

/// The payload of an input event.
#[derive(PartialEq, Clone, Debug, Default)]
pub struct InputEvent {
    pub data: String,
    pub input_type: String,
    pub is_composing: bool,
    pub target: Option<Element>,
}

/// The payload of a keyboard event.
#[derive(PartialEq, Clone, Debug, Default)]
pub struct KeyboardEvent {
    pub alt_key: bool,
    pub char_code: u32,
    pub code: String,
    pub ctrl_key: bool,
    pub key: String,
    pub key_code: u32,
    pub location: u32,
    pub meta_key: bool,
    pub repeat: bool,
    pub shift_key: bool,
    pub target: Option<Element>,
}

/// The payload of a progress event.
#[derive(PartialEq, Clone, Debug, Default)]
pub struct ProgressEvent {
    pub length_computable: bool,
    pub loaded: u32,
    pub target: Option<Element>,
    pub total: u32,
}

/// The payload of a form submission.
#[derive(PartialEq, Clone, Debug, Default)]
pub struct SubmitEvent {
    pub submitter: Option<Element>,
    pub target: Option<Element>,
}

/// The payload of a wheel event. Fractional amounts are held as bit patterns.
#[derive(PartialEq, Clone, Debug, Default)]
pub struct WheelEvent {
    pub alt_key: bool,
    pub button: u8,
    pub buttons: u16,
    pub client_x: i32,
    pub client_y: i32,
    pub ctrl_key: bool,
    pub delta_mode: u32,
    /// The IEEE 754 binary64 bit pattern of the value.
    pub delta_x: u64,
    /// The IEEE 754 binary64 bit pattern of the value.
    pub delta_y: u64,
    /// The IEEE 754 binary64 bit pattern of the value.
    pub delta_z: u64,
    pub meta_key: bool,
    pub movement_x: i32,
    pub movement_y: i32,
    pub offset_x: i32,
    pub offset_y: i32,
    pub page_x: i32,
    pub page_y: i32,
    pub screen_x: i32,
    pub screen_y: i32,
    pub shift_key: bool,
    pub x: i32,
    pub y: i32,
    pub target: Option<Element>,
}

/// The payload of an animation event. The elapsed time is held as a bit pattern.
#[derive(PartialEq, Clone, Debug, Default)]
pub struct AnimationEvent {
    pub animation_name: String,
    /// The IEEE 754 binary64 bit pattern of the value.
    pub elapsed_time: u64,
    pub pseudo_element: String,
    pub target: Option<Element>,
}

/// The payload of a pointer event. Fractional amounts are held as bit patterns.
#[derive(PartialEq, Clone, Debug, Default)]
pub struct PointerEvent {
    pub alt_key: bool,
    pub button: u8,
    pub buttons: u16,
    pub client_x: i32,
    pub client_y: i32,
    pub ctrl_key: bool,
    /// The IEEE 754 binary64 bit pattern of the value.
    pub height: u64,
    pub is_primary: bool,
    pub meta_key: bool,
    pub movement_x: i32,
    pub movement_y: i32,
    pub offset_x: i32,
    pub offset_y: i32,
    pub page_x: i32,
    pub page_y: i32,
    pub pointer_id: u32,
    pub pointer_type: String,
    /// The IEEE 754 binary64 bit pattern of the value.
    pub pressure: u64,
    pub related_target: Option<Element>,
    pub screen_x: i32,
    pub screen_y: i32,
    pub shift_key: bool,
    pub target: Option<Element>,
    pub tilt_x: i16,
    pub tilt_y: i16,
    pub twist: i32,
    /// The IEEE 754 binary64 bit pattern of the value.
    pub width: u64,
    pub x: i32,
    pub y: i32,
}

/// One contact point of a touch event. Fractional amounts are held as bit patterns.
#[derive(PartialEq, Clone, Debug, Default)]
pub struct Touch {
    pub identifier: u32,
    pub client_x: i32,
    pub client_y: i32,
    pub page_x: i32,
    pub page_y: i32,
    /// The IEEE 754 binary64 bit pattern of the value.
    pub radius_x: u64,
    /// The IEEE 754 binary64 bit pattern of the value.
    pub radius_y: u64,
    /// The IEEE 754 binary64 bit pattern of the value.
    pub rotation_angle: u64,
    pub screen_x: i32,
    pub screen_y: i32,
    pub target: Option<Element>,
}

/// The payload of a touch event.
#[derive(PartialEq, Clone, Debug, Default)]
pub struct TouchEvent {
    pub alt_key: bool,
    pub changed_touches: Vec<Touch>,
    pub ctrl_key: bool,
    pub meta_key: bool,
    pub shift_key: bool,
    pub target_touches: Vec<Touch>,
    pub touches: Vec<Touch>,
    pub target: Option<Element>,
}

/// The payload of a transition event. The elapsed time is held as a bit pattern.
#[derive(PartialEq, Clone, Debug, Default)]
pub struct TransitionEvent {
    /// The IEEE 754 binary64 bit pattern of the value.
    pub elapsed_time: u64,
    pub pseudo_element: String,
    pub property_name: String,
    pub target: Option<Element>,
}

/// One reported event: its kind together with the payload of that kind.
#[derive(PartialEq, Clone, Debug)]
pub enum VNodeEventKind {
    Abort(Event),
    AnimationCancel(AnimationEvent),
    AnimationEnd(AnimationEvent),
    AnimationIteration(AnimationEvent),
    AnimationStart(AnimationEvent),
    AuxClick(MouseEvent),
    Blur(FocusEvent),
    Cancel(Event),
    CanPlay(Event),
    CanPlayThrough(Event),
    Change(Event),
    Click(MouseEvent),
    Close(Event),
    ContextMenu(MouseEvent),
    Copy(Event),
    CueChange(Event),
    Cut(Event),
    DoubleClick(MouseEvent),
    Drag(DragEvent),
    DragEnd(DragEvent),
    DragEnter(DragEvent),
    DragLeave(DragEvent),
    DragOver(DragEvent),
    DragStart(DragEvent),
    Drop(DragEvent),
    DurationChange(Event),
    Emptied(Event),
    Ended(Event),
    Error(Event),
    Focus(FocusEvent),
    FocusIn(FocusEvent),
    FocusOut(FocusEvent),
    FormData(Event),
    GotPointerCapture(PointerEvent),
    Input(InputEvent),
    Invalid(Event),
    KeyDown(KeyboardEvent),
    KeyPress(KeyboardEvent),
    KeyUp(KeyboardEvent),
    Load(Event),
    LoadedData(Event),
    LoadedMetadata(Event),
    LoadStart(ProgressEvent),
    LostPointerCapture(PointerEvent),
    MouseDown(MouseEvent),
    MouseEnter(MouseEvent),
    MouseLeave(MouseEvent),
    MouseMove(MouseEvent),
    MouseOut(MouseEvent),
    MouseOver(MouseEvent),
    MouseUp(MouseEvent),
    Paste(Event),
    Pause(Event),
    Play(Event),
    Playing(Event),
    PointerCancel(PointerEvent),
    PointerDown(PointerEvent),
    PointerEnter(PointerEvent),
    PointerLeave(PointerEvent),
    PointerMove(PointerEvent),
    PointerOut(PointerEvent),
    PointerOver(PointerEvent),
    PointerUp(PointerEvent),
    Progress(ProgressEvent),
    RateChange(Event),
    Reset(Event),
    Resize(Event),
    Scroll(Event),
    SecurityPolicyViolation(Event),
    Seeked(Event),
    Seeking(Event),
    Select(Event),
    SelectionChange(Event),
    SelectStart(Event),
    SlotChange(Event),
    Stalled(Event),
    Submit(SubmitEvent),
    Suspend(Event),
    TimeUpdate(Event),
    Toggle(Event),
    TouchCancel(TouchEvent),
    TouchEnd(TouchEvent),
    TouchMove(TouchEvent),
    TouchStart(TouchEvent),
    TransitionCancel(TransitionEvent),
    TransitionEnd(TransitionEvent),
    TransitionRun(TransitionEvent),
    TransitionStart(TransitionEvent),
    VolumeChange(Event),
    Waiting(Event),
    Wheel(WheelEvent),
}

impl VNodeEventKind {
    /// The kind of this event.
    pub open spec fn kind(self) -> VNodeEventType {
        match self {
            VNodeEventKind::Abort(_) => VNodeEventType::Abort,
            VNodeEventKind::AnimationCancel(_) => VNodeEventType::AnimationCancel,
            VNodeEventKind::AnimationEnd(_) => VNodeEventType::AnimationEnd,
            VNodeEventKind::AnimationIteration(_) => VNodeEventType::AnimationIteration,
            VNodeEventKind::AnimationStart(_) => VNodeEventType::AnimationStart,
            VNodeEventKind::AuxClick(_) => VNodeEventType::AuxClick,
            VNodeEventKind::Blur(_) => VNodeEventType::Blur,
            VNodeEventKind::Cancel(_) => VNodeEventType::Cancel,
            VNodeEventKind::CanPlay(_) => VNodeEventType::CanPlay,
            VNodeEventKind::CanPlayThrough(_) => VNodeEventType::CanPlayThrough,
            VNodeEventKind::Change(_) => VNodeEventType::Change,
            VNodeEventKind::Click(_) => VNodeEventType::Click,
            VNodeEventKind::Close(_) => VNodeEventType::Close,
            VNodeEventKind::ContextMenu(_) => VNodeEventType::ContextMenu,
            VNodeEventKind::Copy(_) => VNodeEventType::Copy,
            VNodeEventKind::CueChange(_) => VNodeEventType::CueChange,
            VNodeEventKind::Cut(_) => VNodeEventType::Cut,
            VNodeEventKind::DoubleClick(_) => VNodeEventType::DoubleClick,
            VNodeEventKind::Drag(_) => VNodeEventType::Drag,
            VNodeEventKind::DragEnd(_) => VNodeEventType::DragEnd,
            VNodeEventKind::DragEnter(_) => VNodeEventType::DragEnter,
            VNodeEventKind::DragLeave(_) => VNodeEventType::DragLeave,
            VNodeEventKind::DragOver(_) => VNodeEventType::DragOver,
            VNodeEventKind::DragStart(_) => VNodeEventType::DragStart,
            VNodeEventKind::Drop(_) => VNodeEventType::Drop,
            VNodeEventKind::DurationChange(_) => VNodeEventType::DurationChange,
            VNodeEventKind::Emptied(_) => VNodeEventType::Emptied,
            VNodeEventKind::Ended(_) => VNodeEventType::Ended,
            VNodeEventKind::Error(_) => VNodeEventType::Error,
            VNodeEventKind::Focus(_) => VNodeEventType::Focus,
            VNodeEventKind::FocusIn(_) => VNodeEventType::FocusIn,
            VNodeEventKind::FocusOut(_) => VNodeEventType::FocusOut,
            VNodeEventKind::FormData(_) => VNodeEventType::FormData,
            VNodeEventKind::GotPointerCapture(_) => VNodeEventType::GotPointerCapture,
            VNodeEventKind::Input(_) => VNodeEventType::Input,
            VNodeEventKind::Invalid(_) => VNodeEventType::Invalid,
            VNodeEventKind::KeyDown(_) => VNodeEventType::KeyDown,
            VNodeEventKind::KeyPress(_) => VNodeEventType::KeyPress,
            VNodeEventKind::KeyUp(_) => VNodeEventType::KeyUp,
            VNodeEventKind::Load(_) => VNodeEventType::Load,
            VNodeEventKind::LoadedData(_) => VNodeEventType::LoadedData,
            VNodeEventKind::LoadedMetadata(_) => VNodeEventType::LoadedMetadata,
            VNodeEventKind::LoadStart(_) => VNodeEventType::LoadStart,
            VNodeEventKind::LostPointerCapture(_) => VNodeEventType::LostPointerCapture,
            VNodeEventKind::MouseDown(_) => VNodeEventType::MouseDown,
            VNodeEventKind::MouseEnter(_) => VNodeEventType::MouseEnter,
            VNodeEventKind::MouseLeave(_) => VNodeEventType::MouseLeave,
            VNodeEventKind::MouseMove(_) => VNodeEventType::MouseMove,
            VNodeEventKind::MouseOut(_) => VNodeEventType::MouseOut,
            VNodeEventKind::MouseOver(_) => VNodeEventType::MouseOver,
            VNodeEventKind::MouseUp(_) => VNodeEventType::MouseUp,
            VNodeEventKind::Paste(_) => VNodeEventType::Paste,
            VNodeEventKind::Pause(_) => VNodeEventType::Pause,
            VNodeEventKind::Play(_) => VNodeEventType::Play,
            VNodeEventKind::Playing(_) => VNodeEventType::Playing,
            VNodeEventKind::PointerCancel(_) => VNodeEventType::PointerCancel,
            VNodeEventKind::PointerDown(_) => VNodeEventType::PointerDown,
            VNodeEventKind::PointerEnter(_) => VNodeEventType::PointerEnter,
            VNodeEventKind::PointerLeave(_) => VNodeEventType::PointerLeave,
            VNodeEventKind::PointerMove(_) => VNodeEventType::PointerMove,
            VNodeEventKind::PointerOut(_) => VNodeEventType::PointerOut,
            VNodeEventKind::PointerOver(_) => VNodeEventType::PointerOver,
            VNodeEventKind::PointerUp(_) => VNodeEventType::PointerUp,
            VNodeEventKind::Progress(_) => VNodeEventType::Progress,
            VNodeEventKind::RateChange(_) => VNodeEventType::RateChange,
            VNodeEventKind::Reset(_) => VNodeEventType::Reset,
            VNodeEventKind::Resize(_) => VNodeEventType::Resize,
            VNodeEventKind::Scroll(_) => VNodeEventType::Scroll,
            VNodeEventKind::SecurityPolicyViolation(_) => VNodeEventType::SecurityPolicyViolation,
            VNodeEventKind::Seeked(_) => VNodeEventType::Seeked,
            VNodeEventKind::Seeking(_) => VNodeEventType::Seeking,
            VNodeEventKind::Select(_) => VNodeEventType::Select,
            VNodeEventKind::SelectionChange(_) => VNodeEventType::SelectionChange,
            VNodeEventKind::SelectStart(_) => VNodeEventType::SelectStart,
            VNodeEventKind::SlotChange(_) => VNodeEventType::SlotChange,
            VNodeEventKind::Stalled(_) => VNodeEventType::Stalled,
            VNodeEventKind::Submit(_) => VNodeEventType::Submit,
            VNodeEventKind::Suspend(_) => VNodeEventType::Suspend,
            VNodeEventKind::TimeUpdate(_) => VNodeEventType::TimeUpdate,
            VNodeEventKind::Toggle(_) => VNodeEventType::Toggle,
            VNodeEventKind::TouchCancel(_) => VNodeEventType::TouchCancel,
            VNodeEventKind::TouchEnd(_) => VNodeEventType::TouchEnd,
            VNodeEventKind::TouchMove(_) => VNodeEventType::TouchMove,
            VNodeEventKind::TouchStart(_) => VNodeEventType::TouchStart,
            VNodeEventKind::TransitionCancel(_) => VNodeEventType::TransitionCancel,
            VNodeEventKind::TransitionEnd(_) => VNodeEventType::TransitionEnd,
            VNodeEventKind::TransitionRun(_) => VNodeEventType::TransitionRun,
            VNodeEventKind::TransitionStart(_) => VNodeEventType::TransitionStart,
            VNodeEventKind::VolumeChange(_) => VNodeEventType::VolumeChange,
            VNodeEventKind::Waiting(_) => VNodeEventType::Waiting,
            VNodeEventKind::Wheel(_) => VNodeEventType::Wheel,
        }
    }

    /// The kind of this event.
    pub fn event_type(&self) -> (kind: VNodeEventType)
        ensures
            kind == self.kind(),
    {
        match self {
            VNodeEventKind::Abort(_) => VNodeEventType::Abort,
            VNodeEventKind::AnimationCancel(_) => VNodeEventType::AnimationCancel,
            VNodeEventKind::AnimationEnd(_) => VNodeEventType::AnimationEnd,
            VNodeEventKind::AnimationIteration(_) => VNodeEventType::AnimationIteration,
            VNodeEventKind::AnimationStart(_) => VNodeEventType::AnimationStart,
            VNodeEventKind::AuxClick(_) => VNodeEventType::AuxClick,
            VNodeEventKind::Blur(_) => VNodeEventType::Blur,
            VNodeEventKind::Cancel(_) => VNodeEventType::Cancel,
            VNodeEventKind::CanPlay(_) => VNodeEventType::CanPlay,
            VNodeEventKind::CanPlayThrough(_) => VNodeEventType::CanPlayThrough,
            VNodeEventKind::Change(_) => VNodeEventType::Change,
            VNodeEventKind::Click(_) => VNodeEventType::Click,
            VNodeEventKind::Close(_) => VNodeEventType::Close,
            VNodeEventKind::ContextMenu(_) => VNodeEventType::ContextMenu,
            VNodeEventKind::Copy(_) => VNodeEventType::Copy,
            VNodeEventKind::CueChange(_) => VNodeEventType::CueChange,
            VNodeEventKind::Cut(_) => VNodeEventType::Cut,
            VNodeEventKind::DoubleClick(_) => VNodeEventType::DoubleClick,
            VNodeEventKind::Drag(_) => VNodeEventType::Drag,
            VNodeEventKind::DragEnd(_) => VNodeEventType::DragEnd,
            VNodeEventKind::DragEnter(_) => VNodeEventType::DragEnter,
            VNodeEventKind::DragLeave(_) => VNodeEventType::DragLeave,
            VNodeEventKind::DragOver(_) => VNodeEventType::DragOver,
            VNodeEventKind::DragStart(_) => VNodeEventType::DragStart,
            VNodeEventKind::Drop(_) => VNodeEventType::Drop,
            VNodeEventKind::DurationChange(_) => VNodeEventType::DurationChange,
            VNodeEventKind::Emptied(_) => VNodeEventType::Emptied,
            VNodeEventKind::Ended(_) => VNodeEventType::Ended,
            VNodeEventKind::Error(_) => VNodeEventType::Error,
            VNodeEventKind::Focus(_) => VNodeEventType::Focus,
            VNodeEventKind::FocusIn(_) => VNodeEventType::FocusIn,
            VNodeEventKind::FocusOut(_) => VNodeEventType::FocusOut,
            VNodeEventKind::FormData(_) => VNodeEventType::FormData,
            VNodeEventKind::GotPointerCapture(_) => VNodeEventType::GotPointerCapture,
            VNodeEventKind::Input(_) => VNodeEventType::Input,
            VNodeEventKind::Invalid(_) => VNodeEventType::Invalid,
            VNodeEventKind::KeyDown(_) => VNodeEventType::KeyDown,
            VNodeEventKind::KeyPress(_) => VNodeEventType::KeyPress,
            VNodeEventKind::KeyUp(_) => VNodeEventType::KeyUp,
            VNodeEventKind::Load(_) => VNodeEventType::Load,
            VNodeEventKind::LoadedData(_) => VNodeEventType::LoadedData,
            VNodeEventKind::LoadedMetadata(_) => VNodeEventType::LoadedMetadata,
            VNodeEventKind::LoadStart(_) => VNodeEventType::LoadStart,
            VNodeEventKind::LostPointerCapture(_) => VNodeEventType::LostPointerCapture,
            VNodeEventKind::MouseDown(_) => VNodeEventType::MouseDown,
            VNodeEventKind::MouseEnter(_) => VNodeEventType::MouseEnter,
            VNodeEventKind::MouseLeave(_) => VNodeEventType::MouseLeave,
            VNodeEventKind::MouseMove(_) => VNodeEventType::MouseMove,
            VNodeEventKind::MouseOut(_) => VNodeEventType::MouseOut,
            VNodeEventKind::MouseOver(_) => VNodeEventType::MouseOver,
            VNodeEventKind::MouseUp(_) => VNodeEventType::MouseUp,
            VNodeEventKind::Paste(_) => VNodeEventType::Paste,
            VNodeEventKind::Pause(_) => VNodeEventType::Pause,
            VNodeEventKind::Play(_) => VNodeEventType::Play,
            VNodeEventKind::Playing(_) => VNodeEventType::Playing,
            VNodeEventKind::PointerCancel(_) => VNodeEventType::PointerCancel,
            VNodeEventKind::PointerDown(_) => VNodeEventType::PointerDown,
            VNodeEventKind::PointerEnter(_) => VNodeEventType::PointerEnter,
            VNodeEventKind::PointerLeave(_) => VNodeEventType::PointerLeave,
            VNodeEventKind::PointerMove(_) => VNodeEventType::PointerMove,
            VNodeEventKind::PointerOut(_) => VNodeEventType::PointerOut,
            VNodeEventKind::PointerOver(_) => VNodeEventType::PointerOver,
            VNodeEventKind::PointerUp(_) => VNodeEventType::PointerUp,
            VNodeEventKind::Progress(_) => VNodeEventType::Progress,
            VNodeEventKind::RateChange(_) => VNodeEventType::RateChange,
            VNodeEventKind::Reset(_) => VNodeEventType::Reset,
            VNodeEventKind::Resize(_) => VNodeEventType::Resize,
            VNodeEventKind::Scroll(_) => VNodeEventType::Scroll,
            VNodeEventKind::SecurityPolicyViolation(_) => VNodeEventType::SecurityPolicyViolation,
            VNodeEventKind::Seeked(_) => VNodeEventType::Seeked,
            VNodeEventKind::Seeking(_) => VNodeEventType::Seeking,
            VNodeEventKind::Select(_) => VNodeEventType::Select,
            VNodeEventKind::SelectionChange(_) => VNodeEventType::SelectionChange,
            VNodeEventKind::SelectStart(_) => VNodeEventType::SelectStart,
            VNodeEventKind::SlotChange(_) => VNodeEventType::SlotChange,
            VNodeEventKind::Stalled(_) => VNodeEventType::Stalled,
            VNodeEventKind::Submit(_) => VNodeEventType::Submit,
            VNodeEventKind::Suspend(_) => VNodeEventType::Suspend,
            VNodeEventKind::TimeUpdate(_) => VNodeEventType::TimeUpdate,
            VNodeEventKind::Toggle(_) => VNodeEventType::Toggle,
            VNodeEventKind::TouchCancel(_) => VNodeEventType::TouchCancel,
            VNodeEventKind::TouchEnd(_) => VNodeEventType::TouchEnd,
            VNodeEventKind::TouchMove(_) => VNodeEventType::TouchMove,
            VNodeEventKind::TouchStart(_) => VNodeEventType::TouchStart,
            VNodeEventKind::TransitionCancel(_) => VNodeEventType::TransitionCancel,
            VNodeEventKind::TransitionEnd(_) => VNodeEventType::TransitionEnd,
            VNodeEventKind::TransitionRun(_) => VNodeEventType::TransitionRun,
            VNodeEventKind::TransitionStart(_) => VNodeEventType::TransitionStart,
            VNodeEventKind::VolumeChange(_) => VNodeEventType::VolumeChange,
            VNodeEventKind::Waiting(_) => VNodeEventType::Waiting,
            VNodeEventKind::Wheel(_) => VNodeEventType::Wheel,
        }
    }
}

/// An event as it arrives: the callback it is addressed to, and the event.
#[derive(PartialEq, Clone, Debug)]
pub struct VNodeEvent {
    pub handle_id: EventHandleId,
    pub kind: VNodeEventKind,
}

} // verus!
