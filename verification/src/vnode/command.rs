//! The commands that carry a tree's changes to the remote side.

use vstd::prelude::*;
use crate::ident::EventHandleId;
use crate::vnode::event_list::VNodeEventType;

verus! {

/// One change to an element's props.
#[derive(Clone, Debug, PartialEq, Eq)]
pub enum DifferenceProps {
    Add(String),
    Remove(String),
}

/// One change to an element's classes.
#[derive(Clone, Debug, PartialEq, Eq)]
pub enum DifferenceClass {
    Add(String),
    Remove(String),
}

/// The mathematical content of a change to a list of names.
pub ghost enum NameChange {
    Add(Seq<char>),
    Remove(Seq<char>),
}

impl View for DifferenceProps {
    type V = NameChange;

    open spec fn view(&self) -> NameChange {
        match self {
            DifferenceProps::Add(name) => NameChange::Add(name@),
            DifferenceProps::Remove(name) => NameChange::Remove(name@),
        }
    }
}

impl View for DifferenceClass {
    type V = NameChange;

    open spec fn view(&self) -> NameChange {
        match self {
            DifferenceClass::Add(name) => NameChange::Add(name@),
            DifferenceClass::Remove(name) => NameChange::Remove(name@),
        }
    }
}

/// The callback of an element and the kinds of event it is to be told of.
#[derive(Clone, Debug, PartialEq, Eq)]
pub struct HandleEvent {
    pub handle_id: EventHandleId,
    pub handle_events: Vec<VNodeEventType>,
    pub handle_prevent_default_events: Vec<VNodeEventType>,
}

/// The mathematical content of an element's subscription.
pub ghost struct Subscriptions {
    pub id: u128,
    pub plain: Seq<VNodeEventType>,
    pub prevent: Seq<VNodeEventType>,
}

impl View for HandleEvent {
    type V = Subscriptions;

    open spec fn view(&self) -> Subscriptions {
        Subscriptions {
            id: self.handle_id.0,
            plain: self.handle_events@,
            prevent: self.handle_prevent_default_events@,
        }
    }
}

/// Whether, and to what, an element's subscription changes.
#[derive(Clone, Debug, PartialEq, Eq)]
pub enum DifferenceEvent {
    /// The subscription stays.
    Unchanged,
    /// The subscription becomes this one.
    Update(HandleEvent),
}

impl View for DifferenceEvent {
    type V = Option<Subscriptions>;

    open spec fn view(&self) -> Option<Subscriptions> {
        match self {
            DifferenceEvent::Unchanged => None,
            DifferenceEvent::Update(event) => Some(event@),
        }
    }
}

/// One change to a list of sibling nodes. `index` counts among the
/// siblings as they are when the command is applied.
#[derive(Debug, PartialEq, Eq)]
pub enum DifferenceCommand {
    /// The element at `index` changes classes, props, subscription or
    /// children.
    UpdateElement {
        index: usize,
        class_diff: Vec<DifferenceClass>,
        props_diff: Vec<DifferenceProps>,
        event_diff: DifferenceEvent,
        children: Vec<DifferenceCommand>,
    },
    /// The text at `index` becomes `new_text`.
    UpdateText { index: usize, new_text: String },
    /// The node at `index` gives way to a new element.
    ReplaceToElement {
        index: usize,
        new_tag: String,
        classes: Vec<String>,
        props: Vec<String>,
        event: HandleEvent,
        children: Vec<DifferenceCommand>,
    },
    /// The node at `index` gives way to a text.
    ReplaceToText { index: usize, text: String },
    /// A new element enters at `index`.
    InsertElement {
        index: usize,
        tag: String,
        classes: Vec<String>,
        props: Vec<String>,
        event: HandleEvent,
        children: Vec<DifferenceCommand>,
    },
    /// A new text enters at `index`.
    InsertText { index: usize, text: String },
    /// The node at `index` leaves.
    Remove { index: usize },
}

/// The mathematical content of a [`DifferenceCommand`].
pub ghost enum Patch {
    UpdateElement {
        index: int,
        class_diff: Seq<NameChange>,
        props_diff: Seq<NameChange>,
        event_diff: Option<Subscriptions>,
        children: Seq<Patch>,
    },
    UpdateText { index: int, new_text: Seq<char> },
    ReplaceToElement {
        index: int,
        new_tag: Seq<char>,
        classes: Seq<Seq<char>>,
        props: Seq<Seq<char>>,
        event: Subscriptions,
        children: Seq<Patch>,
    },
    ReplaceToText { index: int, text: Seq<char> },
    InsertElement {
        index: int,
        tag: Seq<char>,
        classes: Seq<Seq<char>>,
        props: Seq<Seq<char>>,
        event: Subscriptions,
        children: Seq<Patch>,
    },
    InsertText { index: int, text: Seq<char> },
    Remove { index: int },
}

/// The content of a list of class changes.
pub open spec fn class_changes(changes: Seq<DifferenceClass>) -> Seq<NameChange> {
    changes.map_values(|change: DifferenceClass| change@)
}

/// The content of a list of prop changes.
pub open spec fn props_changes(changes: Seq<DifferenceProps>) -> Seq<NameChange> {
    changes.map_values(|change: DifferenceProps| change@)
}

impl View for DifferenceCommand {
    type V = Patch;

    open spec fn view(&self) -> Patch {
        patch(*self)
    }
}

/// The mathematical content of a command.
pub open spec fn patch(command: DifferenceCommand) -> Patch
    decreases command,
{
    match command {
        DifferenceCommand::UpdateElement {
            index,
            class_diff,
            props_diff,
            event_diff,
            children,
        } => Patch::UpdateElement {
            index: index as int,
            class_diff: class_changes(class_diff@),
            props_diff: props_changes(props_diff@),
            event_diff: event_diff@,
            children: patches(children@),
        },
        DifferenceCommand::UpdateText { index, new_text } => Patch::UpdateText {
            index: index as int,
            new_text: new_text@,
        },
        DifferenceCommand::ReplaceToElement {
            index,
            new_tag,
            classes,
            props,
            event,
            children,
        } => Patch::ReplaceToElement {
            index: index as int,
            new_tag: new_tag@,
            classes: classes.deep_view(),
            props: props.deep_view(),
            event: event@,
            children: patches(children@),
        },
        DifferenceCommand::ReplaceToText { index, text } => Patch::ReplaceToText {
            index: index as int,
            text: text@,
        },
        DifferenceCommand::InsertElement {
            index,
            tag,
            classes,
            props,
            event,
            children,
        } => Patch::InsertElement {
            index: index as int,
            tag: tag@,
            classes: classes.deep_view(),
            props: props.deep_view(),
            event: event@,
            children: patches(children@),
        },
        DifferenceCommand::InsertText { index, text } => Patch::InsertText {
            index: index as int,
            text: text@,
        },
        DifferenceCommand::Remove { index } => Patch::Remove { index: index as int },
    }
}

/// The mathematical content of a list of commands.
pub open spec fn patches(commands: Seq<DifferenceCommand>) -> Seq<Patch>
    decreases commands,
{
    if commands.len() == 0 {
        Seq::empty()
    } else {
        patches(commands.drop_last()).push(patch(commands.last()))
    }
}

/// The content of a list of commands is the list of their contents.
pub proof fn lemma_patches(commands: Seq<DifferenceCommand>)
    ensures
        patches(commands).len() == commands.len(),
        forall|i: int| 0 <= i < commands.len() ==> (#[trigger] patches(commands)[i]) == commands[i]@,
    decreases commands.len(),
{
    if commands.len() > 0 {
        lemma_patches(commands.drop_last());
    }
}

/// One change to the remote style sheet.
#[derive(Clone, Debug, PartialEq, Eq)]
pub enum StyleDifferenceCommand {
    /// The rule `value` enters, for the class `class_name`.
    AddStyle { class_name: String, value: String },
    /// The rule of `class_name` leaves.
    RemoveStyle { class_name: String },
}

/// The mathematical content of a [`StyleDifferenceCommand`].
pub ghost enum StylePatch {
    AddStyle { class_name: Seq<char>, value: Seq<char> },
    RemoveStyle { class_name: Seq<char> },
}

impl View for StyleDifferenceCommand {
    type V = StylePatch;

    open spec fn view(&self) -> StylePatch {
        match self {
            StyleDifferenceCommand::AddStyle { class_name, value } => StylePatch::AddStyle {
                class_name: class_name@,
                value: value@,
            },
            StyleDifferenceCommand::RemoveStyle { class_name } => StylePatch::RemoveStyle {
                class_name: class_name@,
            },
        }
    }
}

/// The content of a list of style commands.
pub open spec fn style_patches(commands: Seq<StyleDifferenceCommand>) -> Seq<StylePatch> {
    commands.map_values(|command: StyleDifferenceCommand| command@)
}

/// What one draw sends to the remote side.
#[derive(Debug, PartialEq, Eq)]
pub struct DifferenceCommands {
    pub main: Vec<DifferenceCommand>,
    pub portals: Vec<DifferenceCommand>,
    pub styles: Vec<StyleDifferenceCommand>,
}

} // verus!
