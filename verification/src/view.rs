//! The contract between a view and the tree that retains its element.

use vstd::prelude::*;
use vstd::view::View as _;
use crate::element::ViewElement;
use crate::id_path::{ViewId, ViewPathTracker};
use crate::message::{DynMessage, MessageResult};

verus! {

/// Marks the impls of [`View`] that a type writes for itself.
pub struct ViewMarker;

/// A description of one node of the tree. A view is made anew each cycle and
/// thrown away after the next; what lasts is the element it builds and the
/// state kept beside it.
///
/// The four `*_ensures` predicates are each view's own account of what its
/// operations do. The clauses on the operations are what holds of every view.
pub trait View<State, Action, Context: ViewPathTracker, Marker = ViewMarker>: Sized {
    /// What the view builds and then keeps up to date.
    type Element: ViewElement;

    /// What the tree keeps beside the element from build to teardown.
    type ViewState;

    /// What `message` asks of a call: that the callback which the message
    /// reaches, if it reaches one, accepts the application's state as it is.
    /// A message that reaches no callback asks for nothing.
    spec fn message_requires(
        &self,
        state: Self::ViewState,
        id_path: Seq<ViewId>,
        message: DynMessage,
        app: State,
    ) -> bool;

    /// Whether this view shows what `prev` shows: the fields that decide the
    /// output are equal.
    spec fn same(&self, prev: &Self) -> bool;

    /// Whether `element` and `state` are what the tree holds for this view
    /// at `path`.
    spec fn retained(
        &self,
        state: Self::ViewState,
        element: Self::Element,
        path: Seq<ViewId>,
    ) -> bool;

    /// What `build` does, from the context before to the context after and
    /// the pair it returns.
    spec fn build_ensures(
        &self,
        before: Context,
        after: Context,
        element: Self::Element,
        state: Self::ViewState,
    ) -> bool;

    /// What `rebuild` does to the state, the context and the element.
    spec fn rebuild_ensures(
        &self,
        prev: &Self,
        state_before: Self::ViewState,
        state_after: Self::ViewState,
        before: Context,
        after: Context,
        element_before: Self::Element,
        element_after: Self::Element,
    ) -> bool;

    /// What `teardown` does to the state, the context and the element.
    spec fn teardown_ensures(
        &self,
        state_before: Self::ViewState,
        state_after: Self::ViewState,
        before: Context,
        after: Context,
        element_before: Self::Element,
        element_after: Self::Element,
    ) -> bool;

    /// What `message` does to the state and the application, and what it
    /// answers. `app` is the application's state as a callback receives it:
    /// what it is when the message arrives, and what it is left as.
    spec fn message_ensures(
        &self,
        state_before: Self::ViewState,
        state_after: Self::ViewState,
        id_path: Seq<ViewId>,
        message: DynMessage,
        app: &mut State,
        app_after: State,
        result: MessageResult<Action>,
    ) -> bool;

    /// A view that shows the same as `prev` retains what `prev` retained.
    proof fn same_retained(
        &self,
        prev: &Self,
        state: Self::ViewState,
        element: Self::Element,
        path: Seq<ViewId>,
    )
        requires
            self.same(prev),
            prev.retained(state, element, path),
        ensures
            self.retained(state, element, path),
    ;

    /// A view that retains an element retains every element like it.
    proof fn retained_alike(
        &self,
        state: Self::ViewState,
        element: Self::Element,
        other: Self::Element,
        path: Seq<ViewId>,
    )
        requires
            self.retained(state, element, path),
            element.alike(&other),
        ensures
            self.retained(state, other, path),
    ;

    /// Compares the fields that decide the output.
    fn same_as(&self, prev: &Self) -> (same: bool)
        ensures
            same == self.same(prev),
    ;

    /// Makes the element and its state. The path is on return what it was on
    /// entry.
    fn build(&self, ctx: &mut Context) -> (built: (Self::Element, Self::ViewState))
        ensures
            final(ctx).path() == old(ctx).path(),
            built.0.fresh(),
            self.retained(built.1, built.0, old(ctx).path()),
            self.build_ensures(*old(ctx), *final(ctx), built.0, built.1),
    ;

    /// Brings the element that `prev` left in line with this view. Where the
    /// two views show the same, nothing that can be observed of the element
    /// changes and no change is reported.
    fn rebuild(
        &self,
        prev: &Self,
        view_state: &mut Self::ViewState,
        ctx: &mut Context,
        element: &mut Self::Element,
    )
        requires
            prev.retained(*old(view_state), *old(element), old(ctx).path()),
        ensures
            final(ctx).path() == old(ctx).path(),
            self.retained(*final(view_state), *final(element), old(ctx).path()),
            self.same(prev) ==> final(element)@ == old(element)@,
            self.same(prev) ==> final(ctx).changed() == old(ctx).changed(),
            self.rebuild_ensures(
                prev,
                *old(view_state),
                *final(view_state),
                *old(ctx),
                *final(ctx),
                *old(element),
                *final(element),
            ),
    ;

    /// Releases what build and the rebuilds took, on the path they took it
    /// on.
    fn teardown(
        &self,
        view_state: &mut Self::ViewState,
        ctx: &mut Context,
        element: &mut Self::Element,
    )
        requires
            self.retained(*old(view_state), *old(element), old(ctx).path()),
        ensures
            final(ctx).path() == old(ctx).path(),
            self.teardown_ensures(
                *old(view_state),
                *final(view_state),
                *old(ctx),
                *final(ctx),
                *old(element),
                *final(element),
            ),
    ;

    /// Takes a message addressed by `id_path`, the rest of the way from this
    /// node down. A message that no node takes comes back whole.
    fn message(
        &self,
        view_state: &mut Self::ViewState,
        id_path: &[ViewId],
        message: DynMessage,
        app_state: &mut State,
    ) -> (result: MessageResult<Action>)
        requires
            self.message_requires(*old(view_state), id_path@, message, *old(app_state)),
        ensures
            result matches MessageResult::Stale(payload) ==> payload == message,
            exists|app: &mut State|
                mut_ref_current(app) == *old(app_state)
                    && mut_ref_future(app) == *final(app_state) && #[trigger] self.message_ensures(
                    *old(view_state),
                    *final(view_state),
                    id_path@,
                    message,
                    app,
                    *final(app_state),
                    result,
                ),
    ;
}

/// Whether `view`, in some pass that visits it at `path`, builds `element`
/// and `state`.
pub open spec fn built_at<State, Action, Context, Marker, V>(
    view: V,
    state: V::ViewState,
    path: Seq<ViewId>,
    element: V::Element,
) -> bool where Context: ViewPathTracker, V: View<State, Action, Context, Marker> {
    exists|entered: Context, left: Context|
        entered.path() == path && #[trigger] view.build_ensures(entered, left, element, state)
}

/// Whether `view`, in some pass that visits it at `path`, brings the element
/// `before`, which `prev` left, to `after`.
pub open spec fn rebuilt_at<State, Action, Context, Marker, V>(
    view: V,
    prev: V,
    state_before: V::ViewState,
    state_after: V::ViewState,
    path: Seq<ViewId>,
    before: V::Element,
    after: V::Element,
) -> bool where Context: ViewPathTracker, V: View<State, Action, Context, Marker> {
    exists|entered: Context, left: Context|
        entered.path() == path && #[trigger] view.rebuild_ensures(
            &prev,
            state_before,
            state_after,
            entered,
            left,
            before,
            after,
        )
}

/// Whether `view`, in some pass that visits it at `path`, tears the element
/// `before` down to `after`.
pub open spec fn torn_at<State, Action, Context, Marker, V>(
    view: V,
    state_before: V::ViewState,
    state_after: V::ViewState,
    path: Seq<ViewId>,
    before: V::Element,
    after: V::Element,
) -> bool where Context: ViewPathTracker, V: View<State, Action, Context, Marker> {
    exists|entered: Context, left: Context|
        entered.path() == path && #[trigger] view.teardown_ensures(
            state_before,
            state_after,
            entered,
            left,
            before,
            after,
        )
}

} // verus!
