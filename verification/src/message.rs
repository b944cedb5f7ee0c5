//! Messages: what an event carries back into the tree, and what a node
//! answers.

use vstd::prelude::*;

verus! {

/// What a widget of the host toolkit reports when the user acts on it.
#[derive(Debug)]
pub enum WidgetAction {
    /// A button was pressed, by the pointer button given where there was
    /// one.
    ButtonPressed(Option<masonry::core::PointerButton>),
    /// The text of an input changed.
    TextChanged(String),
    /// The text of an input was entered.
    TextEntered(String),
    /// A checkbox was toggled.
    CheckboxToggled(bool),
    /// Any other action of the toolkit, kept as it came.
    Other(masonry::core::Action),
}

/// The payload of a message. A node narrows it to the kind it expects and
/// hands back, untouched, one of another kind.
#[derive(Debug)]
pub enum DynMessage {
    /// An action of a host widget.
    Widget(WidgetAction),
    /// A payload of the application's own: the tag of its kind, and its bytes.
    Custom(u64, Vec<u8>),
}

impl DynMessage {
    /// Narrows the payload to a widget action; a payload of another kind
    /// comes back as it was.
    pub fn downcast_action(self) -> (r: Result<WidgetAction, DynMessage>)
        ensures
            match self {
                DynMessage::Widget(action) => r == Ok::<WidgetAction, DynMessage>(action),
                DynMessage::Custom(..) => r == Err::<WidgetAction, DynMessage>(self),
            },
    {
        match self {
            DynMessage::Widget(action) => Ok(action),
            other => Err(other),
        }
    }
}

/// What a node answers to a message.
#[derive(Debug)]
pub enum MessageResult<Action> {
    /// The node handled the message and produced an action for the
    /// application.
    Action(Action),
    /// The node handled the message; the tree is to be rebuilt.
    RequestRebuild,
    /// The node handled the message; nothing follows from it.
    Nop,
    /// The message found no node that takes it: its path no longer leads to
    /// one, or its payload is not of the kind the node expects. The payload
    /// comes back.
    Stale(DynMessage),
}

} // verus!
