//! Sequences side by side.

use std::marker::PhantomData;
use vstd::prelude::*;
use vstd::slice::slice_subrange;
use vstd::view::View as _;
use crate::id_path::{ViewId, ViewPathTracker};
use crate::message::{DynMessage, MessageResult};
use crate::sequence::{added, extends_twice, run, spliced_twice, ViewSequence};
use crate::splice::{repeat, took_all_joined, AppendVec, ElementSplice, Step};

verus! {

/// Marks the sequence that a tuple of sequences is.
pub struct TupleMarker<M> {
    marker: PhantomData<M>,
}

impl<State, Action, Context, Element, A, B, MA, MB> ViewSequence<
    State,
    Action,
    Context,
    Element,
    TupleMarker<(MA, MB)>,
> for (A, B) where
    Context: ViewPathTracker,
    A: ViewSequence<State, Action, Context, Element, MA>,
    B: ViewSequence<State, Action, Context, Element, MB>,
 {
    type SeqState = (A::SeqState, B::SeqState);

    open spec fn seq_message_requires(
        &self,
        state: Self::SeqState,
        id_path: Seq<ViewId>,
        message: DynMessage,
        app: State,
    ) -> bool {
        if id_path.len() > 0 && id_path[0] == ViewId(0) {
            self.0.seq_message_requires(
                state.0,
                id_path.subrange(1, id_path.len() as int),
                message,
                app,
            )
        } else if id_path.len() > 0 && id_path[0] == ViewId(1) {
            self.1.seq_message_requires(
                state.1,
                id_path.subrange(1, id_path.len() as int),
                message,
                app,
            )
        } else {
            true
        }
    }

    open spec fn seq_same(&self, prev: &Self) -> bool {
        self.0.seq_same(&prev.0) && self.1.seq_same(&prev.1)
    }

    open spec fn count(&self) -> nat {
        self.0.count() + self.1.count()
    }

    open spec fn seq_retained(
        &self,
        state: Self::SeqState,
        elements: Seq<Element>,
        path: Seq<ViewId>,
    ) -> bool {
        &&& elements.len() == self.0.count() + self.1.count()
        &&& self.0.seq_retained(state.0, run(elements, 0, self.0.count()), path.push(ViewId(0)))
        &&& self.1.seq_retained(
            state.1,
            run(elements, self.0.count(), self.1.count()),
            path.push(ViewId(1)),
        )
    }

    open spec fn removed_count(&self, prev: &Self) -> nat {
        self.0.removed_count(&prev.0) + self.1.removed_count(&prev.1)
    }

    open spec fn edited_count(&self, prev: &Self) -> nat {
        self.0.edited_count(&prev.0) + self.1.edited_count(&prev.1)
    }

    open spec fn rebuild_steps(&self, prev: &Self) -> Seq<Step> {
        self.0.rebuild_steps(&prev.0) + self.1.rebuild_steps(&prev.1)
    }

    open spec fn seq_build_ensures(
        &self,
        state: Self::SeqState,
        path: Seq<ViewId>,
        built: Seq<Element>,
    ) -> bool {
        &&& self.0.seq_build_ensures(state.0, path.push(ViewId(0)), run(built, 0, self.0.count()))
        &&& self.1.seq_build_ensures(
            state.1,
            path.push(ViewId(1)),
            run(built, self.0.count(), self.1.count()),
        )
    }

    open spec fn seq_rebuild_ensures(
        &self,
        prev: &Self,
        state_before: Self::SeqState,
        state_after: Self::SeqState,
        path: Seq<ViewId>,
        origin: nat,
        before: Seq<Element>,
        after: Seq<Element>,
        removed: Seq<(usize, Element)>,
    ) -> bool {
        &&& self.0.seq_rebuild_ensures(
            &prev.0,
            state_before.0,
            state_after.0,
            path.push(ViewId(0)),
            origin,
            run(before, 0, prev.0.count()),
            run(after, 0, self.0.count()),
            run(removed, 0, self.0.removed_count(&prev.0)),
        )
        &&& self.1.seq_rebuild_ensures(
            &prev.1,
            state_before.1,
            state_after.1,
            path.push(ViewId(1)),
            origin + prev.0.count(),
            run(before, prev.0.count(), prev.1.count()),
            run(after, self.0.count(), self.1.count()),
            run(removed, self.0.removed_count(&prev.0), self.1.removed_count(&prev.1)),
        )
    }

    open spec fn seq_teardown_ensures(
        &self,
        state_before: Self::SeqState,
        state_after: Self::SeqState,
        path: Seq<ViewId>,
        origin: nat,
        before: Seq<Element>,
        removed: Seq<(usize, Element)>,
    ) -> bool {
        &&& self.0.seq_teardown_ensures(
            state_before.0,
            state_after.0,
            path.push(ViewId(0)),
            origin,
            run(before, 0, self.0.count()),
            run(removed, 0, self.0.count()),
        )
        &&& self.1.seq_teardown_ensures(
            state_before.1,
            state_after.1,
            path.push(ViewId(1)),
            origin + self.0.count(),
            run(before, self.0.count(), self.1.count()),
            run(removed, self.0.count(), self.1.count()),
        )
    }

    open spec fn seq_message_ensures(
        &self,
        state_before: Self::SeqState,
        state_after: Self::SeqState,
        id_path: Seq<ViewId>,
        message: DynMessage,
        app: &mut State,
        app_after: State,
        result: MessageResult<Action>,
    ) -> bool {
        if id_path.len() > 0 && id_path[0] == ViewId(0) {
            &&& state_after.1 == state_before.1
            &&& self.0.seq_message_ensures(
                state_before.0,
                state_after.0,
                id_path.subrange(1, id_path.len() as int),
                message,
                app,
                app_after,
                result,
            )
        } else if id_path.len() > 0 && id_path[0] == ViewId(1) {
            &&& state_after.0 == state_before.0
            &&& self.1.seq_message_ensures(
                state_before.1,
                state_after.1,
                id_path.subrange(1, id_path.len() as int),
                message,
                app,
                app_after,
                result,
            )
        } else {
            &&& result == MessageResult::<Action>::Stale(message)
            &&& app_after == *app
            &&& state_after == state_before
        }
    }

    proof fn seq_same_retained(
        &self,
        prev: &Self,
        state: Self::SeqState,
        elements: Seq<Element>,
        path: Seq<ViewId>,
    ) {
        self.0.seq_same_retained(
            &prev.0,
            state.0,
            run(elements, 0, prev.0.count()),
            path.push(ViewId(0)),
        );
        self.1.seq_same_retained(
            &prev.1,
            state.1,
            run(elements, prev.0.count(), prev.1.count()),
            path.push(ViewId(1)),
        );
    }

    fn seq_same_as(&self, prev: &Self) -> (same: bool) {
        self.0.seq_same_as(&prev.0) && self.1.seq_same_as(&prev.1)
    }

    fn seq_build(&self, ctx: &mut Context, elements: &mut AppendVec<Element>) -> (state:
        Self::SeqState) {
        let ghost start = elements@.len();
        ctx.push_id(ViewId::new(0));
        let first = self.0.seq_build(ctx, elements);
        ctx.pop_id();
        assert(ctx.path() =~= old(ctx).path());
        let ghost middle = elements@;
        ctx.push_id(ViewId::new(1));
        let second = self.1.seq_build(ctx, elements);
        ctx.pop_id();
        assert(ctx.path() =~= old(ctx).path());
        proof {
            let built = run(elements@, start, self.0.count() + self.1.count());
            assert(elements@.subrange(0, start as int) =~= middle.subrange(0, start as int));
            assert(run(built, 0, self.0.count()) =~= run(middle, start, self.0.count()));
            assert(run(built, self.0.count(), self.1.count()) =~= run(
                elements@,
                middle.len(),
                self.1.count(),
            ));
        }
        (first, second)
    }

    fn seq_rebuild<Splice: ElementSplice<Element>>(
        &self,
        prev: &Self,
        seq_state: &mut Self::SeqState,
        ctx: &mut Context,
        elements: &mut Splice,
    ) {
        let ghost at = elements.cursor();
        let ghost before = elements.active();
        let ghost removed = elements.deleted();
        proof {
            let held = run(before, at, prev.0.count() + prev.1.count());
            assert(run(held, 0, prev.0.count()) =~= run(before, at, prev.0.count()));
            assert(run(held, prev.0.count(), prev.1.count()) =~= run(
                before,
                at + prev.0.count(),
                prev.1.count(),
            ));
        }
        ctx.push_id(ViewId::new(0));
        self.0.seq_rebuild(&prev.0, &mut seq_state.0, ctx, elements);
        ctx.pop_id();
        assert(ctx.path() =~= old(ctx).path());
        let ghost middle = elements.active();
        let ghost removed_middle = elements.deleted();
        proof {
            assert(run(middle, at + self.0.count(), prev.1.count()) =~= run(
                before,
                at + prev.0.count(),
                prev.1.count(),
            ));
        }
        ctx.push_id(ViewId::new(1));
        self.1.seq_rebuild(&prev.1, &mut seq_state.1, ctx, elements);
        ctx.pop_id();
        assert(ctx.path() =~= old(ctx).path());
        proof {
            let after = elements.active();
            spliced_twice(
                before,
                middle,
                after,
                at,
                prev.0.count(),
                self.0.count(),
                prev.1.count(),
                self.1.count(),
            );
            extends_twice(removed, removed_middle, elements.deleted());
            let held = run(after, at, self.0.count() + self.1.count());
            assert(run(held, 0, self.0.count()) =~= run(middle, at, self.0.count()));
            assert(run(held, self.0.count(), self.1.count()) =~= run(
                after,
                at + self.0.count(),
                self.1.count(),
            ));
            took_all_joined(
                old(elements).steps(),
                self.0.rebuild_steps(&prev.0),
                self.1.rebuild_steps(&prev.1),
            );
            let gone = added(removed, elements.deleted());
            assert(run(gone, 0, self.0.removed_count(&prev.0)) =~= added(removed, removed_middle));
            assert(run(gone, self.0.removed_count(&prev.0), self.1.removed_count(&prev.1)) =~= added(
                removed_middle,
                elements.deleted(),
            ));
        }
    }

    fn seq_teardown<Splice: ElementSplice<Element>>(
        &self,
        seq_state: &mut Self::SeqState,
        ctx: &mut Context,
        elements: &mut Splice,
    ) {
        let ghost at = elements.cursor();
        let ghost before = elements.active();
        let ghost removed = elements.deleted();
        proof {
            let held = run(before, at, self.0.count() + self.1.count());
            assert(run(held, 0, self.0.count()) =~= run(before, at, self.0.count()));
            assert(run(held, self.0.count(), self.1.count()) =~= run(
                before,
                at + self.0.count(),
                self.1.count(),
            ));
        }
        ctx.push_id(ViewId::new(0));
        self.0.seq_teardown(&mut seq_state.0, ctx, elements);
        ctx.pop_id();
        assert(ctx.path() =~= old(ctx).path());
        let ghost middle = elements.active();
        let ghost removed_middle = elements.deleted();
        proof {
            assert(run(middle, at, self.1.count()) =~= run(
                before,
                at + self.0.count(),
                self.1.count(),
            ));
        }
        ctx.push_id(ViewId::new(1));
        self.1.seq_teardown(&mut seq_state.1, ctx, elements);
        ctx.pop_id();
        assert(ctx.path() =~= old(ctx).path());
        proof {
            spliced_twice(
                before,
                middle,
                elements.active(),
                at,
                self.0.count(),
                0,
                self.1.count(),
                0,
            );
            extends_twice(removed, removed_middle, elements.deleted());
            assert(repeat(Step::Delete, self.0.count()) + repeat(Step::Delete, self.1.count())
                =~= repeat(Step::Delete, self.0.count() + self.1.count()));
            let gone = added(removed, elements.deleted());
            assert(run(gone, 0, self.0.count()) =~= added(removed, removed_middle));
            assert(run(gone, self.0.count(), self.1.count()) =~= added(
                removed_middle,
                elements.deleted(),
            ));
        }
    }

    fn seq_message(
        &self,
        seq_state: &mut Self::SeqState,
        id_path: &[ViewId],
        message: DynMessage,
        app_state: &mut State,
    ) -> (result: MessageResult<Action>) {
        let ghost sent = message;
        if id_path.len() == 0 {
            let result = MessageResult::Stale(message);
            proof {
                assert(<Self as ViewSequence<
                    State,
                    Action,
                    Context,
                    Element,
                    TupleMarker<(MA, MB)>,
                >>::seq_message_ensures(
                    self,
                    *old(seq_state),
                    *seq_state,
                    id_path@,
                    sent,
                    old(app_state),
                    *app_state,
                    result,
                ));
            }
            return result;
        }
        let head = id_path[0].routing_id();
        let rest = slice_subrange(id_path, 1, id_path.len());
        if head == 0 {
            let result = self.0.seq_message(&mut seq_state.0, rest, message, app_state);
            proof {
                let app = choose|app: &mut State|
                    mut_ref_current(app) == *old(app_state) && mut_ref_future(app) == *app_state
                        && #[trigger] self.0.seq_message_ensures(
                            old(seq_state).0,
                            seq_state.0,
                            rest@,
                            sent,
                            app,
                            *app_state,
                            result,
                        );
                assert(<Self as ViewSequence<
                    State,
                    Action,
                    Context,
                    Element,
                    TupleMarker<(MA, MB)>,
                >>::seq_message_ensures(
                    self,
                    *old(seq_state),
                    *seq_state,
                    id_path@,
                    sent,
                    app,
                    *app_state,
                    result,
                ));
            }
            result
        } else if head == 1 {
            let result = self.1.seq_message(&mut seq_state.1, rest, message, app_state);
            proof {
                let app = choose|app: &mut State|
                    mut_ref_current(app) == *old(app_state) && mut_ref_future(app) == *app_state
                        && #[trigger] self.1.seq_message_ensures(
                            old(seq_state).1,
                            seq_state.1,
                            rest@,
                            sent,
                            app,
                            *app_state,
                            result,
                        );
                assert(<Self as ViewSequence<
                    State,
                    Action,
                    Context,
                    Element,
                    TupleMarker<(MA, MB)>,
                >>::seq_message_ensures(
                    self,
                    *old(seq_state),
                    *seq_state,
                    id_path@,
                    sent,
                    app,
                    *app_state,
                    result,
                ));
            }
            result
        } else {
            let result = MessageResult::Stale(message);
            proof {
                assert(<Self as ViewSequence<
                    State,
                    Action,
                    Context,
                    Element,
                    TupleMarker<(MA, MB)>,
                >>::seq_message_ensures(
                    self,
                    *old(seq_state),
                    *seq_state,
                    id_path@,
                    sent,
                    old(app_state),
                    *app_state,
                    result,
                ));
            }
            result
        }
    }
}

} // verus!
