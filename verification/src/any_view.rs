//! A place in the tree whose kind of view may change from cycle to cycle.

use std::marker::PhantomData;
use vstd::pervasive::unreached;
use vstd::prelude::*;
use vstd::slice::slice_subrange;
use vstd::view::View as _;
use crate::element::{AnyElement, SuperElement, ViewElement};
use crate::id_path::{advance_generation, next_generation, ViewId, ViewPathTracker};
use crate::message::{DynMessage, MessageResult};
use crate::view::{built_at, rebuilt_at, torn_at, View, ViewMarker};

verus! {

/// One of two kinds. As a view it is the view it holds; the element it builds
/// is of a kind `E` that can hold the element of either.
pub enum OneOf2<A, B> {
    /// The first kind.
    A(A),
    /// The second kind.
    B(B),
}

/// Marks the impl of [`View`] for a [`OneOf2`] whose element is an `E`.
pub struct AnyMarker<E> {
    marker: PhantomData<E>,
}

/// What the tree keeps for a [`OneOf2`]: the state of the view it holds, and
/// the number of times the kind has changed.
pub struct AnyViewState<SA, SB> {
    /// The state of the view of the kind that was there last.
    pub inner: OneOf2<SA, SB>,
    /// The segment under which the view is addressed. It changes with the
    /// kind.
    pub generation: u64,
}

impl<A, B> OneOf2<A, B> {
    /// What is held, where it is of the first kind.
    pub open spec fn first(self) -> A {
        match self {
            OneOf2::A(held) => held,
            OneOf2::B(_) => arbitrary(),
        }
    }

    /// What is held, where it is of the second kind.
    pub open spec fn second(self) -> B {
        match self {
            OneOf2::A(_) => arbitrary(),
            OneOf2::B(held) => held,
        }
    }

    /// Whether the two hold the same kind.
    pub open spec fn same_kind<C, D>(&self, other: &OneOf2<C, D>) -> bool {
        (self is A) == (other is A)
    }
}

/// Whether `held` is what `view` builds under the segment `generation` below
/// `path`.
pub open spec fn built_below<State, Action, Context, V>(
    view: V,
    state: V::ViewState,
    path: Seq<ViewId>,
    generation: u64,
    held: V::Element,
) -> bool where Context: ViewPathTracker, V: View<State, Action, Context> {
    built_at::<State, Action, Context, ViewMarker, V>(
        view,
        state,
        path.push(ViewId(generation)),
        held,
    )
}

/// Whether `view` brings the element `before`, which `prev` left, to `after`
/// under the segment `generation` below `path`.
pub open spec fn rebuilt_below<State, Action, Context, V>(
    view: V,
    prev: V,
    state_before: V::ViewState,
    state_after: V::ViewState,
    path: Seq<ViewId>,
    generation: u64,
    before: V::Element,
    after: V::Element,
) -> bool where Context: ViewPathTracker, V: View<State, Action, Context> {
    rebuilt_at::<State, Action, Context, ViewMarker, V>(
        view,
        prev,
        state_before,
        state_after,
        path.push(ViewId(generation)),
        before,
        after,
    )
}

/// Whether `view` tears the element `before` down to `after` under the
/// segment `generation` below `path`.
pub open spec fn torn_below<State, Action, Context, V>(
    view: V,
    state_before: V::ViewState,
    state_after: V::ViewState,
    path: Seq<ViewId>,
    generation: u64,
    before: V::Element,
    after: V::Element,
) -> bool where Context: ViewPathTracker, V: View<State, Action, Context> {
    torn_at::<State, Action, Context, ViewMarker, V>(
        view,
        state_before,
        state_after,
        path.push(ViewId(generation)),
        before,
        after,
    )
}

/// Whether the steps of a change of kind lead from `before` to `after`: the
/// old content is torn down where it stands, which leaves `torn`; the new
/// view builds `built` one generation on; and `built` takes the place of what
/// `torn` held.
pub open spec fn kind_changed_through<State, Action, Context, Old, New, E>(
    old_view: Old,
    new_view: New,
    old_state: Old::ViewState,
    new_state: New::ViewState,
    path: Seq<ViewId>,
    generation: u64,
    before: E,
    after: E,
    torn_state: Old::ViewState,
    torn: E,
    built: New::Element,
) -> bool where
    Context: ViewPathTracker,
    Old: View<State, Action, Context>,
    New: View<State, Action, Context>,
    E: SuperElement<Old::Element> + AnyElement<New::Element>,
 {
    &&& <E as SuperElement<Old::Element>>::holds(&before)
    &&& <E as SuperElement<Old::Element>>::holds(&torn)
    &&& torn_below::<State, Action, Context, Old>(
        old_view,
        old_state,
        torn_state,
        path,
        generation,
        <E as SuperElement<Old::Element>>::held(&before),
        <E as SuperElement<Old::Element>>::held(&torn),
    )
    &&& built.fresh()
    &&& built_below::<State, Action, Context, New>(
        new_view,
        new_state,
        path,
        next_generation(generation),
        built,
    )
    &&& new_view.retained(new_state, built, path.push(ViewId(next_generation(generation))))
    &&& <E as AnyElement<New::Element>>::replaced(torn, built, after)
}

/// Whether `after` is what a change of kind leaves of `before`: the content
/// that `old_view` retained is torn down, and what `new_view` builds afresh
/// takes its place.
pub open spec fn kind_changed<State, Action, Context, Old, New, E>(
    old_view: Old,
    new_view: New,
    old_state: Old::ViewState,
    new_state: New::ViewState,
    path: Seq<ViewId>,
    generation: u64,
    before: E,
    after: E,
) -> bool where
    Context: ViewPathTracker,
    Old: View<State, Action, Context>,
    New: View<State, Action, Context>,
    E: SuperElement<Old::Element> + AnyElement<New::Element>,
 {
    exists|torn_state: Old::ViewState, torn: E, built: New::Element| #[trigger]
        kind_changed_through::<State, Action, Context, Old, New, E>(
            old_view,
            new_view,
            old_state,
            new_state,
            path,
            generation,
            before,
            after,
            torn_state,
            torn,
            built,
        )
}

impl<State, Action, Context, VA, VB, E> View<State, Action, Context, AnyMarker<E>> for OneOf2<
    VA,
    VB,
> where
    Context: ViewPathTracker,
    VA: View<State, Action, Context>,
    VB: View<State, Action, Context>,
    E: AnyElement<VA::Element> + AnyElement<VB::Element>,
 {
    type Element = E;

    type ViewState = AnyViewState<VA::ViewState, VB::ViewState>;

    open spec fn message_requires(
        &self,
        state: Self::ViewState,
        id_path: Seq<ViewId>,
        message: DynMessage,
        app: State,
    ) -> bool {
        if id_path.len() > 0 && id_path[0] == ViewId(state.generation) {
            match (self, state.inner) {
                (OneOf2::A(view), OneOf2::A(inner)) => view.message_requires(
                    inner,
                    id_path.subrange(1, id_path.len() as int),
                    message,
                    app,
                ),
                (OneOf2::B(view), OneOf2::B(inner)) => view.message_requires(
                    inner,
                    id_path.subrange(1, id_path.len() as int),
                    message,
                    app,
                ),
                _ => true,
            }
        } else {
            true
        }
    }

    open spec fn same(&self, prev: &Self) -> bool {
        match (self, prev) {
            (OneOf2::A(view), OneOf2::A(prev_view)) => view.same(prev_view),
            (OneOf2::B(view), OneOf2::B(prev_view)) => view.same(prev_view),
            _ => false,
        }
    }

    open spec fn retained(&self, state: Self::ViewState, element: E, path: Seq<ViewId>) -> bool {
        match (self, state.inner) {
            (OneOf2::A(view), OneOf2::A(inner)) => {
                &&& <E as SuperElement<VA::Element>>::holds(&element)
                &&& view.retained(
                    inner,
                    <E as SuperElement<VA::Element>>::held(&element),
                    path.push(ViewId(state.generation)),
                )
            },
            (OneOf2::B(view), OneOf2::B(inner)) => {
                &&& <E as SuperElement<VB::Element>>::holds(&element)
                &&& view.retained(
                    inner,
                    <E as SuperElement<VB::Element>>::held(&element),
                    path.push(ViewId(state.generation)),
                )
            },
            _ => false,
        }
    }

    open spec fn build_ensures(
        &self,
        before: Context,
        after: Context,
        element: E,
        state: Self::ViewState,
    ) -> bool {
        &&& state.generation == 0
        &&& after.path() == before.path()
        &&& match (self, state.inner) {
            (OneOf2::A(view), OneOf2::A(inner)) => {
                &&& <E as SuperElement<VA::Element>>::holds(&element)
                &&& built_below::<State, Action, Context, VA>(
                    *view,
                    inner,
                    before.path(),
                    0,
                    <E as SuperElement<VA::Element>>::held(&element),
                )
            },
            (OneOf2::B(view), OneOf2::B(inner)) => {
                &&& <E as SuperElement<VB::Element>>::holds(&element)
                &&& built_below::<State, Action, Context, VB>(
                    *view,
                    inner,
                    before.path(),
                    0,
                    <E as SuperElement<VB::Element>>::held(&element),
                )
            },
            _ => false,
        }
    }

    open spec fn rebuild_ensures(
        &self,
        prev: &Self,
        state_before: Self::ViewState,
        state_after: Self::ViewState,
        before: Context,
        after: Context,
        element_before: E,
        element_after: E,
    ) -> bool {
        &&& after.path() == before.path()
        &&& match (self, prev, state_before.inner, state_after.inner) {
            (OneOf2::A(view), OneOf2::A(prev_view), OneOf2::A(inner_before), OneOf2::A(inner_after)) => {
                &&& state_after.generation == state_before.generation
                &&& rebuilt_below::<State, Action, Context, VA>(
                    *view,
                    *prev_view,
                    inner_before,
                    inner_after,
                    before.path(),
                    state_before.generation,
                    <E as SuperElement<VA::Element>>::held(&element_before),
                    <E as SuperElement<VA::Element>>::held(&element_after),
                )
            },
            (OneOf2::B(view), OneOf2::B(prev_view), OneOf2::B(inner_before), OneOf2::B(inner_after)) => {
                &&& state_after.generation == state_before.generation
                &&& rebuilt_below::<State, Action, Context, VB>(
                    *view,
                    *prev_view,
                    inner_before,
                    inner_after,
                    before.path(),
                    state_before.generation,
                    <E as SuperElement<VB::Element>>::held(&element_before),
                    <E as SuperElement<VB::Element>>::held(&element_after),
                )
            },
            (OneOf2::A(view), OneOf2::B(prev_view), OneOf2::B(inner_before), OneOf2::A(inner_after)) => {
                &&& state_after.generation == next_generation(state_before.generation)
                &&& after.changed()
                &&& kind_changed::<State, Action, Context, VB, VA, E>(
                    *prev_view,
                    *view,
                    inner_before,
                    inner_after,
                    before.path(),
                    state_before.generation,
                    element_before,
                    element_after,
                )
            },
            (OneOf2::B(view), OneOf2::A(prev_view), OneOf2::A(inner_before), OneOf2::B(inner_after)) => {
                &&& state_after.generation == next_generation(state_before.generation)
                &&& after.changed()
                &&& kind_changed::<State, Action, Context, VA, VB, E>(
                    *prev_view,
                    *view,
                    inner_before,
                    inner_after,
                    before.path(),
                    state_before.generation,
                    element_before,
                    element_after,
                )
            },
            _ => false,
        }
    }

    open spec fn teardown_ensures(
        &self,
        state_before: Self::ViewState,
        state_after: Self::ViewState,
        before: Context,
        after: Context,
        element_before: E,
        element_after: E,
    ) -> bool {
        &&& state_after.generation == state_before.generation
        &&& after.path() == before.path()
        &&& match (self, state_before.inner, state_after.inner) {
            (OneOf2::A(view), OneOf2::A(inner_before), OneOf2::A(inner_after)) => {
                &&& <E as SuperElement<VA::Element>>::holds(&element_after)
                &&& torn_below::<State, Action, Context, VA>(
                    *view,
                    inner_before,
                    inner_after,
                    before.path(),
                    state_before.generation,
                    <E as SuperElement<VA::Element>>::held(&element_before),
                    <E as SuperElement<VA::Element>>::held(&element_after),
                )
            },
            (OneOf2::B(view), OneOf2::B(inner_before), OneOf2::B(inner_after)) => {
                &&& <E as SuperElement<VB::Element>>::holds(&element_after)
                &&& torn_below::<State, Action, Context, VB>(
                    *view,
                    inner_before,
                    inner_after,
                    before.path(),
                    state_before.generation,
                    <E as SuperElement<VB::Element>>::held(&element_before),
                    <E as SuperElement<VB::Element>>::held(&element_after),
                )
            },
            _ => false,
        }
    }

    open spec fn message_ensures(
        &self,
        state_before: Self::ViewState,
        state_after: Self::ViewState,
        id_path: Seq<ViewId>,
        message: DynMessage,
        app: &mut State,
        app_after: State,
        result: MessageResult<Action>,
    ) -> bool {
        if id_path.len() > 0 && id_path[0] == ViewId(state_before.generation) && self.same_kind(
            &state_before.inner,
        ) {
            &&& state_after.generation == state_before.generation
            &&& match (self, state_before.inner, state_after.inner) {
                (OneOf2::A(view), OneOf2::A(inner_before), OneOf2::A(inner_after)) => view.message_ensures(
                    inner_before,
                    inner_after,
                    id_path.subrange(1, id_path.len() as int),
                    message,
                    app,
                    app_after,
                    result,
                ),
                (OneOf2::B(view), OneOf2::B(inner_before), OneOf2::B(inner_after)) => view.message_ensures(
                    inner_before,
                    inner_after,
                    id_path.subrange(1, id_path.len() as int),
                    message,
                    app,
                    app_after,
                    result,
                ),
                _ => false,
            }
        } else {
            &&& result == MessageResult::<Action>::Stale(message)
            &&& app_after == *app
            &&& state_after == state_before
        }
    }

    proof fn same_retained(
        &self,
        prev: &Self,
        state: Self::ViewState,
        element: E,
        path: Seq<ViewId>,
    ) {
        match (self, prev, state.inner) {
            (OneOf2::A(view), OneOf2::A(prev_view), OneOf2::A(inner)) => {
                view.same_retained(
                    prev_view,
                    inner,
                    <E as SuperElement<VA::Element>>::held(&element),
                    path.push(ViewId(state.generation)),
                );
            },
            (OneOf2::B(view), OneOf2::B(prev_view), OneOf2::B(inner)) => {
                view.same_retained(
                    prev_view,
                    inner,
                    <E as SuperElement<VB::Element>>::held(&element),
                    path.push(ViewId(state.generation)),
                );
            },
            _ => {},
        }
    }

    proof fn retained_alike(
        &self,
        state: Self::ViewState,
        element: E,
        other: E,
        path: Seq<ViewId>,
    ) {
        match (self, state.inner) {
            (OneOf2::A(view), OneOf2::A(inner)) => {
                <E as SuperElement<VA::Element>>::alike_held(&element, &other);
                view.retained_alike(
                    inner,
                    <E as SuperElement<VA::Element>>::held(&element),
                    <E as SuperElement<VA::Element>>::held(&other),
                    path.push(ViewId(state.generation)),
                );
            },
            (OneOf2::B(view), OneOf2::B(inner)) => {
                <E as SuperElement<VB::Element>>::alike_held(&element, &other);
                view.retained_alike(
                    inner,
                    <E as SuperElement<VB::Element>>::held(&element),
                    <E as SuperElement<VB::Element>>::held(&other),
                    path.push(ViewId(state.generation)),
                );
            },
            _ => {},
        }
    }

    fn same_as(&self, prev: &Self) -> (same: bool) {
        match (self, prev) {
            (OneOf2::A(view), OneOf2::A(prev_view)) => view.same_as(prev_view),
            (OneOf2::B(view), OneOf2::B(prev_view)) => view.same_as(prev_view),
            _ => false,
        }
    }

    fn build(&self, ctx: &mut Context) -> (built: (E, Self::ViewState)) {
        ctx.push_id(ViewId::new(0));
        let built = match self {
            OneOf2::A(view) => {
                let (element, inner) = view.build(ctx);
                (
                    <E as SuperElement<VA::Element>>::upcast(element),
                    AnyViewState { inner: OneOf2::A(inner), generation: 0 },
                )
            },
            OneOf2::B(view) => {
                let (element, inner) = view.build(ctx);
                (
                    <E as SuperElement<VB::Element>>::upcast(element),
                    AnyViewState { inner: OneOf2::B(inner), generation: 0 },
                )
            },
        };
        ctx.pop_id();
        assert(ctx.path() =~= old(ctx).path());
        built
    }

    fn rebuild(
        &self,
        prev: &Self,
        view_state: &mut Self::ViewState,
        ctx: &mut Context,
        element: &mut E,
    ) {
        let generation = view_state.generation;
        match (self, prev) {
            (OneOf2::A(view), OneOf2::A(prev_view)) => {
                match &mut view_state.inner {
                    OneOf2::A(inner) => {
                        ctx.push_id(ViewId::new(generation));
                        let child = <E as SuperElement<VA::Element>>::downcast_mut(element);
                        view.rebuild(prev_view, inner, ctx, child);
                        ctx.pop_id();
                        assert(ctx.path() =~= old(ctx).path());
                    },
                    OneOf2::B(_) => {
                        unreached::<()>();
                    },
                }
            },
            (OneOf2::B(view), OneOf2::B(prev_view)) => {
                match &mut view_state.inner {
                    OneOf2::B(inner) => {
                        ctx.push_id(ViewId::new(generation));
                        let child = <E as SuperElement<VB::Element>>::downcast_mut(element);
                        view.rebuild(prev_view, inner, ctx, child);
                        ctx.pop_id();
                        assert(ctx.path() =~= old(ctx).path());
                    },
                    OneOf2::A(_) => {
                        unreached::<()>();
                    },
                }
            },
            (OneOf2::A(view), OneOf2::B(prev_view)) => {
                let ghost old_state = view_state.inner.second();
                let ghost mut entered = *ctx;
                let ghost mut left = *ctx;
                match &mut view_state.inner {
                    OneOf2::B(inner) => {
                        ctx.push_id(ViewId::new(generation));
                        proof {
                            entered = *ctx;
                        }
                        let child = <E as SuperElement<VB::Element>>::downcast_mut(element);
                        prev_view.teardown(inner, ctx, child);
                        proof {
                            left = *ctx;
                        }
                        ctx.pop_id();
                        assert(ctx.path() =~= old(ctx).path());
                    },
                    OneOf2::A(_) => {
                        unreached::<()>();
                    },
                }
                let ghost torn = *element;
                let ghost torn_state = view_state.inner.second();
                proof {
                    assert(prev_view.teardown_ensures(
                        old_state,
                        torn_state,
                        entered,
                        left,
                        <E as SuperElement<VB::Element>>::held(old(element)),
                        <E as SuperElement<VB::Element>>::held(&torn),
                    ));
                    assert(torn_below::<State, Action, Context, VB>(
                        *prev_view,
                        old_state,
                        torn_state,
                        old(ctx).path(),
                        generation,
                        <E as SuperElement<VB::Element>>::held(old(element)),
                        <E as SuperElement<VB::Element>>::held(&torn),
                    ));
                }
                let next = advance_generation(generation);
                ctx.push_id(ViewId::new(next));
                proof {
                    entered = *ctx;
                }
                let (child, inner) = view.build(ctx);
                proof {
                    left = *ctx;
                }
                ctx.pop_id();
                assert(ctx.path() =~= old(ctx).path());
                let ghost built = child;
                let ghost new_state = inner;
                <E as AnyElement<VA::Element>>::replace_inner(element, child);
                proof {
                    view.retained_alike(
                        inner,
                        built,
                        <E as SuperElement<VA::Element>>::held(element),
                        old(ctx).path().push(ViewId(next)),
                    );
                    assert(view.build_ensures(entered, left, built, new_state));
                    assert(built_below::<State, Action, Context, VA>(
                        *view,
                        new_state,
                        old(ctx).path(),
                        next,
                        built,
                    ));
                    assert(kind_changed_through::<State, Action, Context, VB, VA, E>(
                        *prev_view,
                        *view,
                        old_state,
                        new_state,
                        old(ctx).path(),
                        generation,
                        *old(element),
                        *element,
                        torn_state,
                        torn,
                        built,
                    ));
                }
                view_state.inner = OneOf2::A(inner);
                view_state.generation = next;
                ctx.mark_changed();
            },
            (OneOf2::B(view), OneOf2::A(prev_view)) => {
                let ghost old_state = view_state.inner.first();
                let ghost mut entered = *ctx;
                let ghost mut left = *ctx;
                match &mut view_state.inner {
                    OneOf2::A(inner) => {
                        ctx.push_id(ViewId::new(generation));
                        proof {
                            entered = *ctx;
                        }
                        let child = <E as SuperElement<VA::Element>>::downcast_mut(element);
                        prev_view.teardown(inner, ctx, child);
                        proof {
                            left = *ctx;
                        }
                        ctx.pop_id();
                        assert(ctx.path() =~= old(ctx).path());
                    },
                    OneOf2::B(_) => {
                        unreached::<()>();
                    },
                }
                let ghost torn = *element;
                let ghost torn_state = view_state.inner.first();
                proof {
                    assert(prev_view.teardown_ensures(
                        old_state,
                        torn_state,
                        entered,
                        left,
                        <E as SuperElement<VA::Element>>::held(old(element)),
                        <E as SuperElement<VA::Element>>::held(&torn),
                    ));
                    assert(torn_below::<State, Action, Context, VA>(
                        *prev_view,
                        old_state,
                        torn_state,
                        old(ctx).path(),
                        generation,
                        <E as SuperElement<VA::Element>>::held(old(element)),
                        <E as SuperElement<VA::Element>>::held(&torn),
                    ));
                }
                let next = advance_generation(generation);
                ctx.push_id(ViewId::new(next));
                proof {
                    entered = *ctx;
                }
                let (child, inner) = view.build(ctx);
                proof {
                    left = *ctx;
                }
                ctx.pop_id();
                assert(ctx.path() =~= old(ctx).path());
                let ghost built = child;
                let ghost new_state = inner;
                <E as AnyElement<VB::Element>>::replace_inner(element, child);
                proof {
                    view.retained_alike(
                        inner,
                        built,
                        <E as SuperElement<VB::Element>>::held(element),
                        old(ctx).path().push(ViewId(next)),
                    );
                    assert(view.build_ensures(entered, left, built, new_state));
                    assert(built_below::<State, Action, Context, VB>(
                        *view,
                        new_state,
                        old(ctx).path(),
                        next,
                        built,
                    ));
                    assert(kind_changed_through::<State, Action, Context, VA, VB, E>(
                        *prev_view,
                        *view,
                        old_state,
                        new_state,
                        old(ctx).path(),
                        generation,
                        *old(element),
                        *element,
                        torn_state,
                        torn,
                        built,
                    ));
                }
                view_state.inner = OneOf2::B(inner);
                view_state.generation = next;
                ctx.mark_changed();
            },
        }
    }

    fn teardown(&self, view_state: &mut Self::ViewState, ctx: &mut Context, element: &mut E) {
        let generation = view_state.generation;
        ctx.push_id(ViewId::new(generation));
        match (self, &mut view_state.inner) {
            (OneOf2::A(view), OneOf2::A(inner)) => {
                let child = <E as SuperElement<VA::Element>>::downcast_mut(element);
                view.teardown(inner, ctx, child);
            },
            (OneOf2::B(view), OneOf2::B(inner)) => {
                let child = <E as SuperElement<VB::Element>>::downcast_mut(element);
                view.teardown(inner, ctx, child);
            },
            _ => {
                unreached::<()>();
            },
        }
        ctx.pop_id();
        assert(ctx.path() =~= old(ctx).path());
    }

    fn message(
        &self,
        view_state: &mut Self::ViewState,
        id_path: &[ViewId],
        message: DynMessage,
        app_state: &mut State,
    ) -> (result: MessageResult<Action>) {
        let ghost sent = message;
        if id_path.len() == 0 {
            let result = MessageResult::Stale(message);
            proof {
                assert(<Self as View<State, Action, Context, AnyMarker<E>>>::message_ensures(
                    self,
                    *old(view_state),
                    *view_state,
                    id_path@,
                    sent,
                    old(app_state),
                    *app_state,
                    result,
                ));
            }
            return result;
        }
        if id_path[0].routing_id() != view_state.generation {
            let result = MessageResult::Stale(message);
            proof {
                assert(<Self as View<State, Action, Context, AnyMarker<E>>>::message_ensures(
                    self,
                    *old(view_state),
                    *view_state,
                    id_path@,
                    sent,
                    old(app_state),
                    *app_state,
                    result,
                ));
            }
            return result;
        }
        let rest = slice_subrange(id_path, 1, id_path.len());
        let result = match (self, &mut view_state.inner) {
            (OneOf2::A(view), OneOf2::A(inner)) => view.message(inner, rest, message, app_state),
            (OneOf2::B(view), OneOf2::B(inner)) => view.message(inner, rest, message, app_state),
            _ => MessageResult::Stale(message),
        };
        proof {
            match (self, old(view_state).inner) {
                (OneOf2::A(view), OneOf2::A(inner_before)) => {
                    let app = choose|app: &mut State|
                        mut_ref_current(app) == *old(app_state) && mut_ref_future(app) == *app_state
                            && #[trigger] view.message_ensures(
                                inner_before,
                                view_state.inner.first(),
                                rest@,
                                sent,
                                app,
                                *app_state,
                                result,
                            );
                    assert(<Self as View<State, Action, Context, AnyMarker<E>>>::message_ensures(
                        self,
                        *old(view_state),
                        *view_state,
                        id_path@,
                        sent,
                        app,
                        *app_state,
                        result,
                    ));
                },
                (OneOf2::B(view), OneOf2::B(inner_before)) => {
                    let app = choose|app: &mut State|
                        mut_ref_current(app) == *old(app_state) && mut_ref_future(app) == *app_state
                            && #[trigger] view.message_ensures(
                                inner_before,
                                view_state.inner.second(),
                                rest@,
                                sent,
                                app,
                                *app_state,
                                result,
                            );
                    assert(<Self as View<State, Action, Context, AnyMarker<E>>>::message_ensures(
                        self,
                        *old(view_state),
                        *view_state,
                        id_path@,
                        sent,
                        app,
                        *app_state,
                        result,
                    ));
                },
                _ => {
                    assert(<Self as View<State, Action, Context, AnyMarker<E>>>::message_ensures(
                        self,
                        *old(view_state),
                        *view_state,
                        id_path@,
                        sent,
                        old(app_state),
                        *app_state,
                        result,
                    ));
                },
            }
        }
        result
    }
}

} // verus!
