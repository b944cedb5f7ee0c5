//! Views for types that belong to someone else.

use vstd::prelude::*;
use vstd::view::View as _;
use crate::id_path::{ViewId, ViewPathTracker};
use crate::message::{DynMessage, MessageResult};
use crate::view::View;

verus! {

/// A context that knows which view stands for a value of the foreign type
/// `T`. With it, `T` is itself a view in that context.
pub trait OrphanView<T, State, Action>: ViewPathTracker + Sized {
    /// The view that stands for a `T`.
    type V: View<State, Action, Self>;

    /// The view that stands for `value`.
    spec fn view_of(value: &T) -> Self::V;

    /// Makes the view that stands for `value`.
    fn as_view(value: &T) -> (view: Self::V)
        ensures
            view == Self::view_of(value),
    ;
}

/// Marks the impl of [`View`] that a foreign type has through its context.
pub struct OrphanImpl;

impl<T: 'static, State, Action, Context> View<State, Action, Context, OrphanImpl> for T where
    Context: OrphanView<T, State, Action>,
 {
    type Element = <<Context as OrphanView<T, State, Action>>::V as View<
        State,
        Action,
        Context,
    >>::Element;

    type ViewState = <<Context as OrphanView<T, State, Action>>::V as View<
        State,
        Action,
        Context,
    >>::ViewState;

    open spec fn message_requires(
        &self,
        state: Self::ViewState,
        id_path: Seq<ViewId>,
        message: DynMessage,
        app: State,
    ) -> bool {
        Context::view_of(self).message_requires(state, id_path, message, app)
    }

    open spec fn same(&self, prev: &Self) -> bool {
        Context::view_of(self).same(&Context::view_of(prev))
    }

    open spec fn retained(
        &self,
        state: Self::ViewState,
        element: Self::Element,
        path: Seq<ViewId>,
    ) -> bool {
        Context::view_of(self).retained(state, element, path)
    }

    open spec fn build_ensures(
        &self,
        before: Context,
        after: Context,
        element: Self::Element,
        state: Self::ViewState,
    ) -> bool {
        Context::view_of(self).build_ensures(before, after, element, state)
    }

    open spec fn rebuild_ensures(
        &self,
        prev: &Self,
        state_before: Self::ViewState,
        state_after: Self::ViewState,
        before: Context,
        after: Context,
        element_before: Self::Element,
        element_after: Self::Element,
    ) -> bool {
        Context::view_of(self).rebuild_ensures(
            &Context::view_of(prev),
            state_before,
            state_after,
            before,
            after,
            element_before,
            element_after,
        )
    }

    open spec fn teardown_ensures(
        &self,
        state_before: Self::ViewState,
        state_after: Self::ViewState,
        before: Context,
        after: Context,
        element_before: Self::Element,
        element_after: Self::Element,
    ) -> bool {
        Context::view_of(self).teardown_ensures(
            state_before,
            state_after,
            before,
            after,
            element_before,
            element_after,
        )
    }

    open spec fn message_ensures(
        &self,
        state_before: Self::ViewState,
        state_after: Self::ViewState,
        id_path: Seq<ViewId>,
        message: DynMessage,
        app: &mut State,
        app_after: State,
        result: MessageResult<Action>,
    ) -> bool {
        Context::view_of(self).message_ensures(
            state_before,
            state_after,
            id_path,
            message,
            app,
            app_after,
            result,
        )
    }

    proof fn same_retained(
        &self,
        prev: &Self,
        state: Self::ViewState,
        element: Self::Element,
        path: Seq<ViewId>,
    ) {
        Context::view_of(self).same_retained(&Context::view_of(prev), state, element, path);
    }

    proof fn retained_alike(
        &self,
        state: Self::ViewState,
        element: Self::Element,
        other: Self::Element,
        path: Seq<ViewId>,
    ) {
        Context::view_of(self).retained_alike(state, element, other, path);
    }

    fn same_as(&self, prev: &Self) -> (same: bool) {
        Context::as_view(self).same_as(&Context::as_view(prev))
    }

    fn build(&self, ctx: &mut Context) -> (built: (Self::Element, Self::ViewState)) {
        Context::as_view(self).build(ctx)
    }

    fn rebuild(
        &self,
        prev: &Self,
        view_state: &mut Self::ViewState,
        ctx: &mut Context,
        element: &mut Self::Element,
    ) {
        Context::as_view(self).rebuild(&Context::as_view(prev), view_state, ctx, element)
    }

    fn teardown(
        &self,
        view_state: &mut Self::ViewState,
        ctx: &mut Context,
        element: &mut Self::Element,
    ) {
        Context::as_view(self).teardown(view_state, ctx, element);
    }

    fn message(
        &self,
        view_state: &mut Self::ViewState,
        id_path: &[ViewId],
        message: DynMessage,
        app_state: &mut State,
    ) -> (result: MessageResult<Action>) {
        let ghost sent = message;
        let view = Context::as_view(self);
        let result = view.message(view_state, id_path, message, app_state);
        proof {
            let app = choose|app: &mut State|
                mut_ref_current(app) == *old(app_state) && mut_ref_future(app) == *app_state
                    && #[trigger] view.message_ensures(
                        *old(view_state),
                        *view_state,
                        id_path@,
                        sent,
                        app,
                        *app_state,
                        result,
                    );
            assert(<T as View<State, Action, Context, OrphanImpl>>::message_ensures(
                self,
                *old(view_state),
                *view_state,
                id_path@,
                sent,
                app,
                *app_state,
                result,
            ));
        }
        result
    }
}

} // verus!
