//! A place in a sequence that may stand empty.

use std::marker::PhantomData;
use vstd::pervasive::unreached;
use vstd::prelude::*;
use vstd::slice::slice_subrange;
use vstd::view::View as _;
use crate::id_path::{advance_generation, next_generation, ViewId, ViewPathTracker};
use crate::message::{DynMessage, MessageResult};
use crate::sequence::{added, run, ViewSequence};
use crate::splice::{repeat, took_all_plain, AppendVec, ElementSplice, Step};

verus! {

/// Marks the sequence that an `Option` of a sequence is.
pub struct OptionMarker<M> {
    marker: PhantomData<M>,
}

/// What the tree keeps for an optional sequence: the state of the sequence
/// while it is there, and the number of times it has appeared.
pub struct OptionSeqState<S> {
    /// The state of the sequence, while it is there.
    pub inner: Option<S>,
    /// The segment under which the sequence is addressed. It changes each
    /// time the sequence appears, so that a message to an earlier appearance
    /// finds nobody.
    pub generation: u64,
}

impl<State, Action, Context, Element, Inner, M> ViewSequence<
    State,
    Action,
    Context,
    Element,
    OptionMarker<M>,
> for Option<Inner> where
    Context: ViewPathTracker,
    Inner: ViewSequence<State, Action, Context, Element, M>,
 {
    type SeqState = OptionSeqState<Inner::SeqState>;

    open spec fn seq_message_requires(
        &self,
        state: Self::SeqState,
        id_path: Seq<ViewId>,
        message: DynMessage,
        app: State,
    ) -> bool {
        id_path.len() > 0 && id_path[0] == ViewId(state.generation) && self is Some
            && state.inner is Some ==> self->0.seq_message_requires(
            state.inner->0,
            id_path.subrange(1, id_path.len() as int),
            message,
            app,
        )
    }

    open spec fn seq_same(&self, prev: &Self) -> bool {
        match (self, prev) {
            (Some(inner), Some(prev_inner)) => inner.seq_same(prev_inner),
            (None, None) => true,
            _ => false,
        }
    }

    open spec fn count(&self) -> nat {
        match self {
            Some(inner) => inner.count(),
            None => 0,
        }
    }

    open spec fn seq_retained(
        &self,
        state: Self::SeqState,
        elements: Seq<Element>,
        path: Seq<ViewId>,
    ) -> bool {
        match self {
            Some(inner) => state.inner matches Some(inner_state) && inner.seq_retained(
                inner_state,
                elements,
                path.push(ViewId(state.generation)),
            ),
            None => state.inner is None && elements.len() == 0,
        }
    }

    open spec fn removed_count(&self, prev: &Self) -> nat {
        match (self, prev) {
            (Some(inner), Some(prev_inner)) => inner.removed_count(prev_inner),
            (None, Some(prev_inner)) => prev_inner.count(),
            _ => 0,
        }
    }

    open spec fn edited_count(&self, prev: &Self) -> nat {
        match (self, prev) {
            (Some(inner), Some(prev_inner)) => inner.edited_count(prev_inner),
            _ => 0,
        }
    }

    open spec fn rebuild_steps(&self, prev: &Self) -> Seq<Step> {
        match (self, prev) {
            (Some(inner), Some(prev_inner)) => inner.rebuild_steps(prev_inner),
            (Some(inner), None) => repeat(Step::Insert, inner.count()),
            (None, Some(prev_inner)) => repeat(Step::Delete, prev_inner.count()),
            (None, None) => Seq::empty(),
        }
    }

    open spec fn seq_build_ensures(
        &self,
        state: Self::SeqState,
        path: Seq<ViewId>,
        built: Seq<Element>,
    ) -> bool {
        &&& state.generation == 0
        &&& match self {
            Some(inner) => state.inner matches Some(inner_state) && inner.seq_build_ensures(
                inner_state,
                path.push(ViewId(0)),
                built,
            ),
            None => state.inner is None && built.len() == 0,
        }
    }

    open spec fn seq_rebuild_ensures(
        &self,
        prev: &Self,
        state_before: Self::SeqState,
        state_after: Self::SeqState,
        path: Seq<ViewId>,
        origin: nat,
        before: Seq<Element>,
        after: Seq<Element>,
        removed: Seq<(usize, Element)>,
    ) -> bool {
        match (self, prev) {
            (Some(inner), Some(prev_inner)) => {
                &&& state_after.generation == state_before.generation
                &&& state_before.inner is Some
                &&& state_after.inner is Some
                &&& inner.seq_rebuild_ensures(
                    prev_inner,
                    state_before.inner->0,
                    state_after.inner->0,
                    path.push(ViewId(state_before.generation)),
                    origin,
                    before,
                    after,
                    removed,
                )
            },
            (None, None) => {
                &&& state_after == state_before
                &&& after.len() == 0
                &&& removed.len() == 0
            },
            (Some(inner), None) => {
                &&& state_after.generation == next_generation(state_before.generation)
                &&& state_after.inner is Some
                &&& removed.len() == 0
                &&& inner.seq_build_ensures(
                    state_after.inner->0,
                    path.push(ViewId(state_after.generation)),
                    after,
                )
            },
            (None, Some(prev_inner)) => {
                &&& state_after.generation == state_before.generation
                &&& state_before.inner is Some
                &&& state_after.inner is None
                &&& after.len() == 0
                &&& exists|torn: Inner::SeqState| #[trigger]
                    prev_inner.seq_teardown_ensures(
                        state_before.inner->0,
                        torn,
                        path.push(ViewId(state_before.generation)),
                        origin,
                        before,
                        removed,
                    )
            },
        }
    }

    open spec fn seq_teardown_ensures(
        &self,
        state_before: Self::SeqState,
        state_after: Self::SeqState,
        path: Seq<ViewId>,
        origin: nat,
        before: Seq<Element>,
        removed: Seq<(usize, Element)>,
    ) -> bool {
        match self {
            Some(inner) => {
                &&& state_after.generation == state_before.generation
                &&& state_before.inner is Some
                &&& state_after.inner is Some
                &&& inner.seq_teardown_ensures(
                    state_before.inner->0,
                    state_after.inner->0,
                    path.push(ViewId(state_before.generation)),
                    origin,
                    before,
                    removed,
                )
            },
            None => state_after == state_before && removed.len() == 0,
        }
    }

    open spec fn seq_message_ensures(
        &self,
        state_before: Self::SeqState,
        state_after: Self::SeqState,
        id_path: Seq<ViewId>,
        message: DynMessage,
        app: &mut State,
        app_after: State,
        result: MessageResult<Action>,
    ) -> bool {
        if id_path.len() > 0 && id_path[0] == ViewId(state_before.generation) && self is Some
            && state_before.inner is Some {
            &&& state_after.generation == state_before.generation
            &&& state_after.inner is Some
            &&& self->0.seq_message_ensures(
                state_before.inner->0,
                state_after.inner->0,
                id_path.subrange(1, id_path.len() as int),
                message,
                app,
                app_after,
                result,
            )
        } else {
            &&& result == MessageResult::<Action>::Stale(message)
            &&& app_after == *app
            &&& state_after == state_before
        }
    }

    proof fn seq_same_retained(
        &self,
        prev: &Self,
        state: Self::SeqState,
        elements: Seq<Element>,
        path: Seq<ViewId>,
    ) {
        if let (Some(inner), Some(prev_inner)) = (self, prev) {
            inner.seq_same_retained(
                prev_inner,
                state.inner->0,
                elements,
                path.push(ViewId(state.generation)),
            );
        }
    }

    fn seq_same_as(&self, prev: &Self) -> (same: bool) {
        match (self, prev) {
            (Some(inner), Some(prev_inner)) => inner.seq_same_as(prev_inner),
            (None, None) => true,
            _ => false,
        }
    }

    fn seq_build(&self, ctx: &mut Context, elements: &mut AppendVec<Element>) -> (state:
        Self::SeqState) {
        match self {
            Some(inner) => {
                ctx.push_id(ViewId::new(0));
                let inner_state = inner.seq_build(ctx, elements);
                ctx.pop_id();
                assert(ctx.path() =~= old(ctx).path());
                OptionSeqState { inner: Some(inner_state), generation: 0 }
            },
            None => {
                assert(elements@.subrange(0, elements@.len() as int) =~= elements@);
                OptionSeqState { inner: None, generation: 0 }
            },
        }
    }

    fn seq_rebuild<Splice: ElementSplice<Element>>(
        &self,
        prev: &Self,
        seq_state: &mut Self::SeqState,
        ctx: &mut Context,
        elements: &mut Splice,
    ) {
        match (self, prev) {
            (Some(inner), Some(prev_inner)) => {
                let generation = seq_state.generation;
                match &mut seq_state.inner {
                    Some(inner_state) => {
                        ctx.push_id(ViewId::new(generation));
                        inner.seq_rebuild(prev_inner, inner_state, ctx, elements);
                        ctx.pop_id();
                        assert(ctx.path() =~= old(ctx).path());
                    },
                    None => {
                        unreached::<()>();
                    },
                }
            },
            (None, None) => {
                assert(run(elements.active(), elements.cursor(), 0).len() == 0);
            },
            (Some(inner), None) => {
                proof {
                    took_all_plain(elements.steps(), repeat(Step::Insert, inner.count()));
                }
                let generation = advance_generation(seq_state.generation);
                ctx.push_id(ViewId::new(generation));
                let scratch = elements.with_scratch();
                let inner_state = inner.seq_build(ctx, scratch);
                ctx.pop_id();
                assert(ctx.path() =~= old(ctx).path());
                let ghost built = elements.scratch();
                assert(built =~= run(built, 0, inner.count()));
                elements.drain_scratch();
                assert(run(elements.active(), old(elements).cursor(), inner.count()) =~= built);
                seq_state.generation = generation;
                seq_state.inner = Some(inner_state);
            },
            (None, Some(prev_inner)) => {
                proof {
                    took_all_plain(elements.steps(), repeat(Step::Delete, prev_inner.count()));
                }
                let generation = seq_state.generation;
                match &mut seq_state.inner {
                    Some(inner_state) => {
                        ctx.push_id(ViewId::new(generation));
                        prev_inner.seq_teardown(inner_state, ctx, elements);
                        ctx.pop_id();
                        assert(ctx.path() =~= old(ctx).path());
                    },
                    None => {
                        unreached::<()>();
                    },
                }
                assert(prev_inner.seq_teardown_ensures(
                    old(seq_state).inner->0,
                    seq_state.inner->0,
                    old(ctx).path().push(ViewId(generation)),
                    old(elements).origin(),
                    run(old(elements).active(), old(elements).cursor(), prev_inner.count()),
                    added(old(elements).deleted(), elements.deleted()),
                ));
                seq_state.inner = None;
                assert(run(elements.active(), elements.cursor(), 0).len() == 0);
            },
        }
    }

    fn seq_teardown<Splice: ElementSplice<Element>>(
        &self,
        seq_state: &mut Self::SeqState,
        ctx: &mut Context,
        elements: &mut Splice,
    ) {
        match self {
            Some(inner) => {
                let generation = seq_state.generation;
                match &mut seq_state.inner {
                    Some(inner_state) => {
                        ctx.push_id(ViewId::new(generation));
                        inner.seq_teardown(inner_state, ctx, elements);
                        ctx.pop_id();
                        assert(ctx.path() =~= old(ctx).path());
                    },
                    None => {
                        unreached::<()>();
                    },
                }
            },
            None => {},
        }
    }

    fn seq_message(
        &self,
        seq_state: &mut Self::SeqState,
        id_path: &[ViewId],
        message: DynMessage,
        app_state: &mut State,
    ) -> (result: MessageResult<Action>) {
        let ghost sent = message;
        if id_path.len() == 0 {
            let result = MessageResult::Stale(message);
            proof {
                assert(<Self as ViewSequence<State, Action, Context, Element, OptionMarker<M>>>::seq_message_ensures(
                    self,
                    *old(seq_state),
                    *seq_state,
                    id_path@,
                    sent,
                    old(app_state),
                    *app_state,
                    result,
                ));
            }
            return result;
        }
        if id_path[0].routing_id() != seq_state.generation {
            let result = MessageResult::Stale(message);
            proof {
                assert(<Self as ViewSequence<State, Action, Context, Element, OptionMarker<M>>>::seq_message_ensures(
                    self,
                    *old(seq_state),
                    *seq_state,
                    id_path@,
                    sent,
                    old(app_state),
                    *app_state,
                    result,
                ));
            }
            return result;
        }
        let rest = slice_subrange(id_path, 1, id_path.len());
        let result = match self {
            Some(inner) => match &mut seq_state.inner {
                Some(inner_state) => inner.seq_message(inner_state, rest, message, app_state),
                None => MessageResult::Stale(message),
            },
            None => MessageResult::Stale(message),
        };
        proof {
            if self is Some && old(seq_state).inner is Some {
                let app = choose|app: &mut State|
                    mut_ref_current(app) == *old(app_state) && mut_ref_future(app) == *app_state
                        && #[trigger] self->0.seq_message_ensures(
                            old(seq_state).inner->0,
                            seq_state.inner->0,
                            rest@,
                            sent,
                            app,
                            *app_state,
                            result,
                        );
                assert(<Self as ViewSequence<State, Action, Context, Element, OptionMarker<M>>>::seq_message_ensures(
                    self,
                    *old(seq_state),
                    *seq_state,
                    id_path@,
                    sent,
                    app,
                    *app_state,
                    result,
                ));
            } else {
                assert(<Self as ViewSequence<State, Action, Context, Element, OptionMarker<M>>>::seq_message_ensures(
                    self,
                    *old(seq_state),
                    *seq_state,
                    id_path@,
                    sent,
                    old(app_state),
                    *app_state,
                    result,
                ));
            }
        }
        result
    }
}

} // verus!
