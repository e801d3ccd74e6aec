//! The catalog of event kinds that an element can subscribe to.

use vstd::prelude::*;

verus! {

/// One kind of event, without its payload.
#[derive(Clone, Copy, Debug, PartialEq, Eq, Structural)]
pub enum VNodeEventType {
    Abort,
    AnimationCancel,
    AnimationEnd,
    AnimationIteration,
    AnimationStart,
    AuxClick,
    Blur,
    Cancel,
    CanPlay,
    CanPlayThrough,
    Change,
    Click,
    Close,
    ContextMenu,
    Copy,
    CueChange,
    Cut,
    DoubleClick,
    Drag,
    DragEnd,
    DragEnter,
    DragLeave,
    DragOver,
    DragStart,
    Drop,
    DurationChange,
    Emptied,
    Ended,
    Error,
    Focus,
    FocusIn,
    FocusOut,
    FormData,
    GotPointerCapture,
    Input,
    Invalid,
    KeyDown,
    KeyPress,
    KeyUp,
    Load,
    LoadedData,
    LoadedMetadata,
    LoadStart,
    LostPointerCapture,
    MouseDown,
    MouseEnter,
    MouseLeave,
    MouseMove,
    MouseOut,
    MouseOver,
    MouseUp,
    Paste,
    Pause,
    Play,
    Playing,
    PointerCancel,
    PointerDown,
    PointerEnter,
    PointerLeave,
    PointerMove,
    PointerOut,
    PointerOver,
    PointerUp,
    Progress,
    RateChange,
    Reset,
    Resize,
    Scroll,
    SecurityPolicyViolation,
    Seeked,
    Seeking,
    Select,
    SelectionChange,
    SelectStart,
    SlotChange,
    Stalled,
    Submit,
    Suspend,
    TimeUpdate,
    Toggle,
    TouchCancel,
    TouchEnd,
    TouchMove,
    TouchStart,
    TransitionCancel,
    TransitionEnd,
    TransitionRun,
    TransitionStart,
    VolumeChange,
    Waiting,
    Wheel,
}

/// How many kinds the catalog lists.
pub const EVENT_KINDS: usize = 91;

/// The kind at place `i` of the catalog.
pub open spec fn kind_at(i: int) -> VNodeEventType {
    if i == 0 {
        VNodeEventType::Abort
    } else if i == 1 {
        VNodeEventType::AnimationCancel
    } else if i == 2 {
        VNodeEventType::AnimationEnd
    } else if i == 3 {
        VNodeEventType::AnimationIteration
    } else if i == 4 {
        VNodeEventType::AnimationStart
    } else if i == 5 {
        VNodeEventType::AuxClick
    } else if i == 6 {
        VNodeEventType::Blur
    } else if i == 7 {
        VNodeEventType::Cancel
    } else if i == 8 {
        VNodeEventType::CanPlay
    } else if i == 9 {
        VNodeEventType::CanPlayThrough
    } else if i == 10 {
        VNodeEventType::Change
    } else if i == 11 {
        VNodeEventType::Click
    } else if i == 12 {
        VNodeEventType::Close
    } else if i == 13 {
        VNodeEventType::ContextMenu
    } else if i == 14 {
        VNodeEventType::Copy
    } else if i == 15 {
        VNodeEventType::CueChange
    } else if i == 16 {
        VNodeEventType::Cut
    } else if i == 17 {
        VNodeEventType::DoubleClick
    } else if i == 18 {
        VNodeEventType::Drag
    } else if i == 19 {
        VNodeEventType::DragEnd
    } else if i == 20 {
        VNodeEventType::DragEnter
    } else if i == 21 {
        VNodeEventType::DragLeave
    } else if i == 22 {
        VNodeEventType::DragOver
    } else if i == 23 {
        VNodeEventType::DragStart
    } else if i == 24 {
        VNodeEventType::Drop
    } else if i == 25 {
        VNodeEventType::DurationChange
    } else if i == 26 {
        VNodeEventType::Emptied
    } else if i == 27 {
        VNodeEventType::Ended
    } else if i == 28 {
        VNodeEventType::Error
    } else if i == 29 {
        VNodeEventType::Focus
    } else if i == 30 {
        VNodeEventType::FocusIn
    } else if i == 31 {
        VNodeEventType::FocusOut
    } else if i == 32 {
        VNodeEventType::FormData
    } else if i == 33 {
        VNodeEventType::GotPointerCapture
    } else if i == 34 {
        VNodeEventType::Input
    } else if i == 35 {
        VNodeEventType::Invalid
    } else if i == 36 {
        VNodeEventType::KeyDown
    } else if i == 37 {
        VNodeEventType::KeyPress
    } else if i == 38 {
        VNodeEventType::KeyUp
    } else if i == 39 {
        VNodeEventType::Load
    } else if i == 40 {
        VNodeEventType::LoadedData
    } else if i == 41 {
        VNodeEventType::LoadedMetadata
    } else if i == 42 {
        VNodeEventType::LoadStart
    } else if i == 43 {
        VNodeEventType::LostPointerCapture
    } else if i == 44 {
        VNodeEventType::MouseDown
    } else if i == 45 {
        VNodeEventType::MouseEnter
    } else if i == 46 {
        VNodeEventType::MouseLeave
    } else if i == 47 {
        VNodeEventType::MouseMove
    } else if i == 48 {
        VNodeEventType::MouseOut
    } else if i == 49 {
        VNodeEventType::MouseOver
    } else if i == 50 {
        VNodeEventType::MouseUp
    } else if i == 51 {
        VNodeEventType::Paste
    } else if i == 52 {
        VNodeEventType::Pause
    } else if i == 53 {
        VNodeEventType::Play
    } else if i == 54 {
        VNodeEventType::Playing
    } else if i == 55 {
        VNodeEventType::PointerCancel
    } else if i == 56 {
        VNodeEventType::PointerDown
    } else if i == 57 {
        VNodeEventType::PointerEnter
    } else if i == 58 {
        VNodeEventType::PointerLeave
    } else if i == 59 {
        VNodeEventType::PointerMove
    } else if i == 60 {
        VNodeEventType::PointerOut
    } else if i == 61 {
        VNodeEventType::PointerOver
    } else if i == 62 {
        VNodeEventType::PointerUp
    } else if i == 63 {
        VNodeEventType::Progress
    } else if i == 64 {
        VNodeEventType::RateChange
    } else if i == 65 {
        VNodeEventType::Reset
    } else if i == 66 {
        VNodeEventType::Resize
    } else if i == 67 {
        VNodeEventType::Scroll
    } else if i == 68 {
        VNodeEventType::SecurityPolicyViolation
    } else if i == 69 {
        VNodeEventType::Seeked
    } else if i == 70 {
        VNodeEventType::Seeking
    } else if i == 71 {
        VNodeEventType::Select
    } else if i == 72 {
        VNodeEventType::SelectionChange
    } else if i == 73 {
        VNodeEventType::SelectStart
    } else if i == 74 {
        VNodeEventType::SlotChange
    } else if i == 75 {
        VNodeEventType::Stalled
    } else if i == 76 {
        VNodeEventType::Submit
    } else if i == 77 {
        VNodeEventType::Suspend
    } else if i == 78 {
        VNodeEventType::TimeUpdate
    } else if i == 79 {
        VNodeEventType::Toggle
    } else if i == 80 {
        VNodeEventType::TouchCancel
    } else if i == 81 {
        VNodeEventType::TouchEnd
    } else if i == 82 {
        VNodeEventType::TouchMove
    } else if i == 83 {
        VNodeEventType::TouchStart
    } else if i == 84 {
        VNodeEventType::TransitionCancel
    } else if i == 85 {
        VNodeEventType::TransitionEnd
    } else if i == 86 {
        VNodeEventType::TransitionRun
    } else if i == 87 {
        VNodeEventType::TransitionStart
    } else if i == 88 {
        VNodeEventType::VolumeChange
    } else if i == 89 {
        VNodeEventType::Waiting
    } else {
        VNodeEventType::Wheel
    }
}

/// Every kind once, in the order in which subscriptions are listed.
pub open spec fn catalog() -> Seq<VNodeEventType> {
    Seq::new(EVENT_KINDS as nat, |i: int| kind_at(i))
}

impl VNodeEventType {
    /// The place of this kind in the catalog.
    pub open spec fn place(self) -> int {
        match self {
            VNodeEventType::Abort => 0,
            VNodeEventType::AnimationCancel => 1,
            VNodeEventType::AnimationEnd => 2,
            VNodeEventType::AnimationIteration => 3,
            VNodeEventType::AnimationStart => 4,
            VNodeEventType::AuxClick => 5,
            VNodeEventType::Blur => 6,
            VNodeEventType::Cancel => 7,
            VNodeEventType::CanPlay => 8,
            VNodeEventType::CanPlayThrough => 9,
            VNodeEventType::Change => 10,
            VNodeEventType::Click => 11,
            VNodeEventType::Close => 12,
            VNodeEventType::ContextMenu => 13,
            VNodeEventType::Copy => 14,
            VNodeEventType::CueChange => 15,
            VNodeEventType::Cut => 16,
            VNodeEventType::DoubleClick => 17,
            VNodeEventType::Drag => 18,
            VNodeEventType::DragEnd => 19,
            VNodeEventType::DragEnter => 20,
            VNodeEventType::DragLeave => 21,
            VNodeEventType::DragOver => 22,
            VNodeEventType::DragStart => 23,
            VNodeEventType::Drop => 24,
            VNodeEventType::DurationChange => 25,
            VNodeEventType::Emptied => 26,
            VNodeEventType::Ended => 27,
            VNodeEventType::Error => 28,
            VNodeEventType::Focus => 29,
            VNodeEventType::FocusIn => 30,
            VNodeEventType::FocusOut => 31,
            VNodeEventType::FormData => 32,
            VNodeEventType::GotPointerCapture => 33,
            VNodeEventType::Input => 34,
            VNodeEventType::Invalid => 35,
            VNodeEventType::KeyDown => 36,
            VNodeEventType::KeyPress => 37,
            VNodeEventType::KeyUp => 38,
            VNodeEventType::Load => 39,
            VNodeEventType::LoadedData => 40,
            VNodeEventType::LoadedMetadata => 41,
            VNodeEventType::LoadStart => 42,
            VNodeEventType::LostPointerCapture => 43,
            VNodeEventType::MouseDown => 44,
            VNodeEventType::MouseEnter => 45,
            VNodeEventType::MouseLeave => 46,
            VNodeEventType::MouseMove => 47,
            VNodeEventType::MouseOut => 48,
            VNodeEventType::MouseOver => 49,
            VNodeEventType::MouseUp => 50,
            VNodeEventType::Paste => 51,
            VNodeEventType::Pause => 52,
            VNodeEventType::Play => 53,
            VNodeEventType::Playing => 54,
            VNodeEventType::PointerCancel => 55,
            VNodeEventType::PointerDown => 56,
            VNodeEventType::PointerEnter => 57,
            VNodeEventType::PointerLeave => 58,
            VNodeEventType::PointerMove => 59,
            VNodeEventType::PointerOut => 60,
            VNodeEventType::PointerOver => 61,
            VNodeEventType::PointerUp => 62,
            VNodeEventType::Progress => 63,
            VNodeEventType::RateChange => 64,
            VNodeEventType::Reset => 65,
            VNodeEventType::Resize => 66,
            VNodeEventType::Scroll => 67,
            VNodeEventType::SecurityPolicyViolation => 68,
            VNodeEventType::Seeked => 69,
            VNodeEventType::Seeking => 70,
            VNodeEventType::Select => 71,
            VNodeEventType::SelectionChange => 72,
            VNodeEventType::SelectStart => 73,
            VNodeEventType::SlotChange => 74,
            VNodeEventType::Stalled => 75,
            VNodeEventType::Submit => 76,
            VNodeEventType::Suspend => 77,
            VNodeEventType::TimeUpdate => 78,
            VNodeEventType::Toggle => 79,
            VNodeEventType::TouchCancel => 80,
            VNodeEventType::TouchEnd => 81,
            VNodeEventType::TouchMove => 82,
            VNodeEventType::TouchStart => 83,
            VNodeEventType::TransitionCancel => 84,
            VNodeEventType::TransitionEnd => 85,
            VNodeEventType::TransitionRun => 86,
            VNodeEventType::TransitionStart => 87,
            VNodeEventType::VolumeChange => 88,
            VNodeEventType::Waiting => 89,
            VNodeEventType::Wheel => 90,
        }
    }

    /// The kind at place `i` of the catalog.
    pub fn at(i: usize) -> (kind: VNodeEventType)
        requires
            i < EVENT_KINDS,
        ensures
            kind == kind_at(i as int),
            kind == catalog()[i as int],
    {
        if i == 0 {
            VNodeEventType::Abort
        } else if i == 1 {
            VNodeEventType::AnimationCancel
        } else if i == 2 {
            VNodeEventType::AnimationEnd
        } else if i == 3 {
            VNodeEventType::AnimationIteration
        } else if i == 4 {
            VNodeEventType::AnimationStart
        } else if i == 5 {
            VNodeEventType::AuxClick
        } else if i == 6 {
            VNodeEventType::Blur
        } else if i == 7 {
            VNodeEventType::Cancel
        } else if i == 8 {
            VNodeEventType::CanPlay
        } else if i == 9 {
            VNodeEventType::CanPlayThrough
        } else if i == 10 {
            VNodeEventType::Change
        } else if i == 11 {
            VNodeEventType::Click
        } else if i == 12 {
            VNodeEventType::Close
        } else if i == 13 {
            VNodeEventType::ContextMenu
        } else if i == 14 {
            VNodeEventType::Copy
        } else if i == 15 {
            VNodeEventType::CueChange
        } else if i == 16 {
            VNodeEventType::Cut
        } else if i == 17 {
            VNodeEventType::DoubleClick
        } else if i == 18 {
            VNodeEventType::Drag
        } else if i == 19 {
            VNodeEventType::DragEnd
        } else if i == 20 {
            VNodeEventType::DragEnter
        } else if i == 21 {
            VNodeEventType::DragLeave
        } else if i == 22 {
            VNodeEventType::DragOver
        } else if i == 23 {
            VNodeEventType::DragStart
        } else if i == 24 {
            VNodeEventType::Drop
        } else if i == 25 {
            VNodeEventType::DurationChange
        } else if i == 26 {
            VNodeEventType::Emptied
        } else if i == 27 {
            VNodeEventType::Ended
        } else if i == 28 {
            VNodeEventType::Error
        } else if i == 29 {
            VNodeEventType::Focus
        } else if i == 30 {
            VNodeEventType::FocusIn
        } else if i == 31 {
            VNodeEventType::FocusOut
        } else if i == 32 {
            VNodeEventType::FormData
        } else if i == 33 {
            VNodeEventType::GotPointerCapture
        } else if i == 34 {
            VNodeEventType::Input
        } else if i == 35 {
            VNodeEventType::Invalid
        } else if i == 36 {
            VNodeEventType::KeyDown
        } else if i == 37 {
            VNodeEventType::KeyPress
        } else if i == 38 {
            VNodeEventType::KeyUp
        } else if i == 39 {
            VNodeEventType::Load
        } else if i == 40 {
            VNodeEventType::LoadedData
        } else if i == 41 {
            VNodeEventType::LoadedMetadata
        } else if i == 42 {
            VNodeEventType::LoadStart
        } else if i == 43 {
            VNodeEventType::LostPointerCapture
        } else if i == 44 {
            VNodeEventType::MouseDown
        } else if i == 45 {
            VNodeEventType::MouseEnter
        } else if i == 46 {
            VNodeEventType::MouseLeave
        } else if i == 47 {
            VNodeEventType::MouseMove
        } else if i == 48 {
            VNodeEventType::MouseOut
        } else if i == 49 {
            VNodeEventType::MouseOver
        } else if i == 50 {
            VNodeEventType::MouseUp
        } else if i == 51 {
            VNodeEventType::Paste
        } else if i == 52 {
            VNodeEventType::Pause
        } else if i == 53 {
            VNodeEventType::Play
        } else if i == 54 {
            VNodeEventType::Playing
        } else if i == 55 {
            VNodeEventType::PointerCancel
        } else if i == 56 {
            VNodeEventType::PointerDown
        } else if i == 57 {
            VNodeEventType::PointerEnter
        } else if i == 58 {
            VNodeEventType::PointerLeave
        } else if i == 59 {
            VNodeEventType::PointerMove
        } else if i == 60 {
            VNodeEventType::PointerOut
        } else if i == 61 {
            VNodeEventType::PointerOver
        } else if i == 62 {
            VNodeEventType::PointerUp
        } else if i == 63 {
            VNodeEventType::Progress
        } else if i == 64 {
            VNodeEventType::RateChange
        } else if i == 65 {
            VNodeEventType::Reset
        } else if i == 66 {
            VNodeEventType::Resize
        } else if i == 67 {
            VNodeEventType::Scroll
        } else if i == 68 {
            VNodeEventType::SecurityPolicyViolation
        } else if i == 69 {
            VNodeEventType::Seeked
        } else if i == 70 {
            VNodeEventType::Seeking
        } else if i == 71 {
            VNodeEventType::Select
        } else if i == 72 {
            VNodeEventType::SelectionChange
        } else if i == 73 {
            VNodeEventType::SelectStart
        } else if i == 74 {
            VNodeEventType::SlotChange
        } else if i == 75 {
            VNodeEventType::Stalled
        } else if i == 76 {
            VNodeEventType::Submit
        } else if i == 77 {
            VNodeEventType::Suspend
        } else if i == 78 {
            VNodeEventType::TimeUpdate
        } else if i == 79 {
            VNodeEventType::Toggle
        } else if i == 80 {
            VNodeEventType::TouchCancel
        } else if i == 81 {
            VNodeEventType::TouchEnd
        } else if i == 82 {
            VNodeEventType::TouchMove
        } else if i == 83 {
            VNodeEventType::TouchStart
        } else if i == 84 {
            VNodeEventType::TransitionCancel
        } else if i == 85 {
            VNodeEventType::TransitionEnd
        } else if i == 86 {
            VNodeEventType::TransitionRun
        } else if i == 87 {
            VNodeEventType::TransitionStart
        } else if i == 88 {
            VNodeEventType::VolumeChange
        } else if i == 89 {
            VNodeEventType::Waiting
        } else {
            VNodeEventType::Wheel
        }
    }
}

/// Each kind stands in the catalog, at its own place and nowhere else.
pub proof fn lemma_catalog_complete(kind: VNodeEventType)
    ensures
        0 <= kind.place() < EVENT_KINDS,
        catalog()[kind.place()] == kind,
        forall|i: int| 0 <= i < EVENT_KINDS && catalog()[i] == kind ==> i == kind.place(),
{
}

} // verus!
