//! Elements that stand for widgets of the host toolkit.

use vstd::prelude::*;
use vstd::view::View as _;
use crate::element::ViewElement;
use crate::host::{next_widget_id, raw_widget_id, widget_raw, WidgetKey};

verus! {

/// A widget together with the identity under which the host knows it.
pub struct Pod<W> {
    /// The number of the widget's identity.
    pub id: WidgetKey,
    /// The identity as the toolkit hands it out, for the host to make the
    /// widget with.
    pub handle: masonry::core::WidgetId,
    /// What the widget shows.
    pub widget: W,
}

/// What can be observed of a [`Pod`].
pub struct PodView<V> {
    /// The number of the widget's identity.
    pub id: WidgetKey,
    /// The identity as the toolkit hands it out.
    pub handle: masonry::core::WidgetId,
    /// What can be observed of the widget.
    pub widget: V,
}

impl<W: vstd::view::View> vstd::view::View for Pod<W> {
    type V = PodView<W::V>;

    open spec fn view(&self) -> PodView<W::V> {
        PodView { id: self.id, handle: self.handle, widget: self.widget@ }
    }
}

impl<W: vstd::view::View> ViewElement for Pod<W> {
    open spec fn alike(&self, other: &Self) -> bool {
        self@ == other@
    }

    open spec fn fresh(&self) -> bool {
        true
    }
}

impl<W> Pod<W> {
    /// Wraps `widget` under the identity `handle`.
    pub fn with_id(widget: W, handle: masonry::core::WidgetId) -> (pod: Pod<W>)
        ensures
            pod.id.0 == widget_raw(handle),
            pod.id.0 != 0,
            pod.handle == handle,
            pod.widget == widget,
    {
        Pod { id: WidgetKey(raw_widget_id(handle)), handle, widget }
    }

    /// Wraps `widget` under an identity that the host toolkit hands out.
    pub fn new(widget: W) -> (pod: Pod<W>)
        ensures
            pod.id.0 == widget_raw(pod.handle),
            pod.id.0 != 0,
            pod.widget == widget,
    {
        Pod::with_id(widget, next_widget_id())
    }
}

/// A button with a text label.
pub struct ButtonWidget {
    /// The text on the button.
    pub text: String,
}

impl vstd::view::View for ButtonWidget {
    type V = Seq<char>;

    open spec fn view(&self) -> Seq<char> {
        self.text@
    }
}

impl ButtonWidget {
    /// A button labelled `text`.
    pub fn new(text: &str) -> (button: ButtonWidget)
        ensures
            button@ == text@,
    {
        ButtonWidget { text: text.to_owned() }
    }

    /// Replaces the label.
    pub fn set_text(&mut self, text: &str)
        ensures
            final(self)@ == text@,
    {
        self.text = text.to_owned();
    }
}

} // verus!
