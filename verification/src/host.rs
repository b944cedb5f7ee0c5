//! What the library takes from the widget toolkit: the identities of widgets
//! and the actions they report.

use vstd::prelude::*;
use crate::message::{DynMessage, WidgetAction};

verus! {

#[verifier::external_type_specification]
#[verifier::external_body]
pub struct ExAction(masonry::core::Action);

#[verifier::external_type_specification]
#[verifier::external_body]
pub struct ExPointerButton(masonry::core::PointerButton);

#[verifier::external_type_specification]
#[verifier::external_body]
pub struct ExWidgetId(masonry::core::WidgetId);

/// The identity of a widget of the host toolkit, as the number that the
/// toolkit gives for it.
#[derive(Clone, Copy, Debug, PartialEq, Eq, Structural, Hash)]
pub struct WidgetKey(pub u64);

/// Calls `masonry::core::WidgetId::next`. The toolkit draws identities from a
/// counter of the process, so nothing is claimed of the one that comes back.
#[verifier::external_body]
pub(crate) fn next_widget_id() -> (id: masonry::core::WidgetId) {
    masonry::core::WidgetId::next()
}

/// The number of a widget's identity: a name for what
/// `masonry::core::WidgetId::to_raw` returns.
pub uninterp spec fn widget_raw(id: masonry::core::WidgetId) -> u64;

/// Calls `masonry::core::WidgetId::to_raw`. The number depends on the
/// identity alone; the toolkit keeps it in a `NonZeroU64`, so it is never
/// zero.
#[verifier::external_body]
pub(crate) fn raw_widget_id(id: masonry::core::WidgetId) -> (raw: u64)
    ensures
        raw == widget_raw(id),
        raw != 0,
{
    id.to_raw()
}

/// What an action of the toolkit is to the library: the variant, with what
/// it carries. Verus cannot read the toolkit's enum, so this is a name for
/// what [`action_of`] makes of it.
pub uninterp spec fn widget_action_of(action: masonry::core::Action) -> WidgetAction;

/// Tells the variants of `masonry::core::Action` apart and moves the field
/// of each into the library's own enum. An action of a variant that the
/// library has no name for is kept whole. The result depends on the action
/// alone; no more is claimed.
#[verifier::external_body]
pub(crate) fn action_of(action: masonry::core::Action) -> (converted: WidgetAction)
    ensures
        converted == widget_action_of(action),
{
    match action {
        masonry::core::Action::ButtonPressed(button) => WidgetAction::ButtonPressed(button),
        masonry::core::Action::TextChanged(text) => WidgetAction::TextChanged(text),
        masonry::core::Action::TextEntered(text) => WidgetAction::TextEntered(text),
        masonry::core::Action::CheckboxToggled(checked) => WidgetAction::CheckboxToggled(checked),
        other => WidgetAction::Other(other),
    }
}

/// The message that carries the widget action `action` into the tree.
pub fn widget_message(action: WidgetAction) -> (message: DynMessage)
    ensures
        message == DynMessage::Widget(action),
{
    DynMessage::Widget(action)
}

/// The message that carries an action of a host widget into the tree: the
/// action is converted, and the message holds what the conversion gave.
pub fn action_message(action: masonry::core::Action) -> (message: DynMessage)
    ensures
        message == DynMessage::Widget(widget_action_of(action)),
{
    widget_message(action_of(action))
}

} // verus!
