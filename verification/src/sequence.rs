//! Sequences of views: the children of one parent, compared place by place
//! with those of the cycle before.

use std::marker::PhantomData;
use vstd::prelude::*;
use vstd::view::View as _;
use crate::id_path::{ViewId, ViewPathTracker};
use crate::message::{DynMessage, MessageResult};
use crate::splice::{
    repeat, took_all, took_all_one, AppendVec, ElementSplice, Step,
};
use crate::view::{built_at, rebuilt_at, torn_at, View};

verus! {

/// The `len` elements of `list` from `start` on.
pub open spec fn run<E>(list: Seq<E>, start: nat, len: nat) -> Seq<E> {
    list.subrange(start as int, (start + len) as int)
}

/// Whether `after` is `before` with the `removed` elements from `at` on
/// replaced by `added` others: what lies before them is as it was, and so is
/// what lies behind.
pub open spec fn spliced<E>(before: Seq<E>, after: Seq<E>, at: nat, removed: nat, added: nat) -> bool {
    &&& at + removed <= before.len()
    &&& after.len() == before.len() - removed + added
    &&& forall|i: int| 0 <= i < at ==> #[trigger] after[i] == before[i]
    &&& forall|i: int| at + added <= i < after.len() ==> #[trigger] after[i] == before[i - added + removed]
}

/// Whether `after` begins with the whole of `before`.
pub open spec fn extends<E>(before: Seq<E>, after: Seq<E>) -> bool {
    &&& before.len() <= after.len()
    &&& forall|i: int| 0 <= i < before.len() ==> #[trigger] after[i] == before[i]
}

/// What `after` holds beyond the whole of `before`.
pub open spec fn added<E>(before: Seq<E>, after: Seq<E>) -> Seq<E> {
    after.subrange(before.len() as int, after.len() as int)
}

/// Two edits in a row, the second right behind what the first put in, are one
/// edit. What the first put in is not touched by the second, and what the
/// second replaces lay behind what the first replaced.
pub proof fn spliced_twice<E>(
    first: Seq<E>,
    second: Seq<E>,
    third: Seq<E>,
    at: nat,
    removed1: nat,
    added1: nat,
    removed2: nat,
    added2: nat,
)
    requires
        spliced(first, second, at, removed1, added1),
        spliced(second, third, at + added1, removed2, added2),
    ensures
        spliced(first, third, at, removed1 + removed2, added1 + added2),
        run(third, at, added1) == run(second, at, added1),
        run(second, at + added1, removed2) == run(first, at + removed1, removed2),
{
    assert forall|i: int| 0 <= i < at implies #[trigger] third[i] == first[i] by {
        assert(third[i] == second[i]);
    }
    assert forall|i: int| at + added1 + added2 <= i < third.len() implies #[trigger] third[i]
        == first[i - (added1 + added2) + (removed1 + removed2)] by {
        assert(third[i] == second[i - added2 + removed2]);
    }
    assert(run(third, at, added1) =~= run(second, at, added1));
    assert(run(second, at + added1, removed2) =~= run(first, at + removed1, removed2));
}

/// What begins with a list that begins with another begins with that one.
pub proof fn extends_twice<E>(first: Seq<E>, second: Seq<E>, third: Seq<E>)
    requires
        extends(first, second),
        extends(second, third),
    ensures
        extends(first, third),
{
    assert forall|i: int| 0 <= i < first.len() implies #[trigger] third[i] == first[i] by {
        assert(third[i] == second[i]);
    }
}

/// The children of one parent. A sequence knows how many elements it keeps
/// live; they lie side by side in the parent's list, in the order of the
/// views. The comparison is by place: the view at a place is held against the
/// one that stood there the cycle before.
pub trait ViewSequence<State, Action, Context: ViewPathTracker, Element, Marker>: Sized {
    /// What the tree keeps beside the elements from build to teardown.
    type SeqState;

    /// What `seq_message` asks of a call: that the callback which the message
    /// reaches, if it reaches one, accepts the application's state as it is.
    spec fn seq_message_requires(
        &self,
        state: Self::SeqState,
        id_path: Seq<ViewId>,
        message: DynMessage,
        app: State,
    ) -> bool;

    /// Whether every view of the sequence shows what the one at its place in
    /// `prev` shows.
    spec fn seq_same(&self, prev: &Self) -> bool;

    /// The number of elements that the sequence keeps live.
    spec fn count(&self) -> nat;

    /// Whether `elements` and `state` are what the tree holds for this
    /// sequence under the parent at `path`.
    spec fn seq_retained(
        &self,
        state: Self::SeqState,
        elements: Seq<Element>,
        path: Seq<ViewId>,
    ) -> bool;

    /// The number of elements that a rebuild from `prev` removes.
    spec fn removed_count(&self, prev: &Self) -> nat;

    /// The number of elements that a rebuild from `prev` hands out for
    /// editing: those of the views that show something else than before.
    spec fn edited_count(&self, prev: &Self) -> nat;

    /// The steps for which a rebuild from `prev` asks the cursor, in their
    /// order, view by view. The cursor counts steps past elements that follow
    /// one another as one.
    spec fn rebuild_steps(&self, prev: &Self) -> Seq<Step>;

    /// What `seq_build` does: the state it returns, and the elements `built`
    /// that it adds under the parent at `path`.
    spec fn seq_build_ensures(
        &self,
        state: Self::SeqState,
        path: Seq<ViewId>,
        built: Seq<Element>,
    ) -> bool;

    /// What `seq_rebuild` does under the parent at `path`: from the elements
    /// `before` that `prev` kept to the elements `after` that this sequence
    /// keeps, and the elements `removed` on the way, in the order of their
    /// removal. The first of `before` had the place `origin` in the list
    /// before the pass.
    spec fn seq_rebuild_ensures(
        &self,
        prev: &Self,
        state_before: Self::SeqState,
        state_after: Self::SeqState,
        path: Seq<ViewId>,
        origin: nat,
        before: Seq<Element>,
        after: Seq<Element>,
        removed: Seq<(usize, Element)>,
    ) -> bool;

    /// What `seq_teardown` does under the parent at `path`: from the elements
    /// `before` that the sequence kept to the `removed` ones that it leaves.
    /// The first of `before` had the place `origin` in the list before the
    /// pass.
    spec fn seq_teardown_ensures(
        &self,
        state_before: Self::SeqState,
        state_after: Self::SeqState,
        path: Seq<ViewId>,
        origin: nat,
        before: Seq<Element>,
        removed: Seq<(usize, Element)>,
    ) -> bool;

    /// What `seq_message` does to the state and the application, and what it
    /// answers. `app` is the application's state as a callback receives it:
    /// what it is when the message arrives, and what it is left as.
    spec fn seq_message_ensures(
        &self,
        state_before: Self::SeqState,
        state_after: Self::SeqState,
        id_path: Seq<ViewId>,
        message: DynMessage,
        app: &mut State,
        app_after: State,
        result: MessageResult<Action>,
    ) -> bool;

    /// A sequence that shows the same as `prev` keeps as many elements and
    /// retains what `prev` retained.
    proof fn seq_same_retained(
        &self,
        prev: &Self,
        state: Self::SeqState,
        elements: Seq<Element>,
        path: Seq<ViewId>,
    )
        requires
            self.seq_same(prev),
            prev.seq_retained(state, elements, path),
        ensures
            self.count() == prev.count(),
            self.seq_retained(state, elements, path),
    ;

    /// Compares the views place by place.
    fn seq_same_as(&self, prev: &Self) -> (same: bool)
        ensures
            same == self.seq_same(prev),
    ;

    /// Builds the elements of the sequence and adds them to `elements`, in
    /// order.
    fn seq_build(&self, ctx: &mut Context, elements: &mut AppendVec<Element>) -> (state:
        Self::SeqState)
        ensures
            final(ctx).path() == old(ctx).path(),
            final(elements)@.len() == old(elements)@.len() + self.count(),
            final(elements)@.subrange(0, old(elements)@.len() as int) == old(elements)@,
            self.seq_retained(
                state,
                run(final(elements)@, old(elements)@.len(), self.count()),
                old(ctx).path(),
            ),
            self.seq_build_ensures(
                state,
                old(ctx).path(),
                run(final(elements)@, old(elements)@.len(), self.count()),
            ),
    ;

    /// Brings the elements that `prev` left at the cursor in line with this
    /// sequence, and leaves the cursor behind them. Elements before the cursor
    /// and behind the old ones are not touched; removed elements are added to
    /// the removed ones. Where the two sequences show the same, no element is
    /// touched, none is removed and no change is reported. The cursor is
    /// asked for one element to edit for each view that shows something else
    /// than before, and the elements it puts in are those that the sequence
    /// keeps beyond the old ones that stay.
    fn seq_rebuild<Splice: ElementSplice<Element>>(
        &self,
        prev: &Self,
        seq_state: &mut Self::SeqState,
        ctx: &mut Context,
        elements: &mut Splice,
    )
        requires
            old(elements).wf(),
            old(elements).scratch().len() == 0,
            old(elements).cursor() + prev.count() <= old(elements).active().len(),
            prev.seq_retained(
                *old(seq_state),
                run(old(elements).active(), old(elements).cursor(), prev.count()),
                old(ctx).path(),
            ),
        ensures
            final(ctx).path() == old(ctx).path(),
            final(elements).wf(),
            final(elements).scratch().len() == 0,
            final(elements).cursor() == old(elements).cursor() + self.count(),
            final(elements).origin() == old(elements).origin() + prev.count(),
            final(elements).steps() == took_all(old(elements).steps(), self.rebuild_steps(prev)),
            final(elements).edited() == old(elements).edited() + self.edited_count(prev),
            final(elements).inserted() + prev.count() == old(elements).inserted() + self.count()
                + self.removed_count(prev),
            spliced(
                old(elements).active(),
                final(elements).active(),
                old(elements).cursor(),
                prev.count(),
                self.count(),
            ),
            extends(old(elements).deleted(), final(elements).deleted()),
            self.seq_retained(
                *final(seq_state),
                run(final(elements).active(), old(elements).cursor(), self.count()),
                old(ctx).path(),
            ),
            self.seq_same(prev) ==> final(elements).active() == old(elements).active(),
            self.seq_same(prev) ==> final(elements).deleted() == old(elements).deleted(),
            self.seq_same(prev) ==> final(ctx).changed() == old(ctx).changed(),
            final(elements).deleted().len() == old(elements).deleted().len() + self.removed_count(
                prev,
            ),
            self.seq_rebuild_ensures(
                prev,
                *old(seq_state),
                *final(seq_state),
                old(ctx).path(),
                old(elements).origin(),
                run(old(elements).active(), old(elements).cursor(), prev.count()),
                run(final(elements).active(), old(elements).cursor(), self.count()),
                added(old(elements).deleted(), final(elements).deleted()),
            ),
    ;

    /// Tears down the elements of the sequence at the cursor and removes them
    /// from the list, each with the place it had before the pass. The cursor
    /// stays.
    fn seq_teardown<Splice: ElementSplice<Element>>(
        &self,
        seq_state: &mut Self::SeqState,
        ctx: &mut Context,
        elements: &mut Splice,
    )
        requires
            old(elements).wf(),
            old(elements).cursor() + self.count() <= old(elements).active().len(),
            self.seq_retained(
                *old(seq_state),
                run(old(elements).active(), old(elements).cursor(), self.count()),
                old(ctx).path(),
            ),
        ensures
            final(ctx).path() == old(ctx).path(),
            final(elements).wf(),
            final(elements).scratch() == old(elements).scratch(),
            final(elements).cursor() == old(elements).cursor(),
            final(elements).origin() == old(elements).origin() + self.count(),
            final(elements).steps() == old(elements).steps() + repeat(Step::Delete, self.count()),
            final(elements).edited() == old(elements).edited(),
            final(elements).inserted() == old(elements).inserted(),
            spliced(
                old(elements).active(),
                final(elements).active(),
                old(elements).cursor(),
                self.count(),
                0,
            ),
            extends(old(elements).deleted(), final(elements).deleted()),
            final(elements).deleted().len() == old(elements).deleted().len() + self.count(),
            self.seq_teardown_ensures(
                *old(seq_state),
                *final(seq_state),
                old(ctx).path(),
                old(elements).origin(),
                run(old(elements).active(), old(elements).cursor(), self.count()),
                added(old(elements).deleted(), final(elements).deleted()),
            ),
    ;

    /// Hands a message to the view that `id_path` leads to. A message that no
    /// view takes comes back whole.
    fn seq_message(
        &self,
        seq_state: &mut Self::SeqState,
        id_path: &[ViewId],
        message: DynMessage,
        app_state: &mut State,
    ) -> (result: MessageResult<Action>)
        requires
            self.seq_message_requires(*old(seq_state), id_path@, message, *old(app_state)),
        ensures
            result matches MessageResult::Stale(payload) ==> payload == message,
            exists|app: &mut State|
                mut_ref_current(app) == *old(app_state)
                    && mut_ref_future(app) == *final(app_state) && #[trigger] self.seq_message_ensures(
                    *old(seq_state),
                    *final(seq_state),
                    id_path@,
                    message,
                    app,
                    *final(app_state),
                    result,
                ),
    ;
}

/// Marks the sequence that a single view is.
pub struct OneMarker<M> {
    marker: PhantomData<M>,
}

impl<State, Action, Context, V, VM> ViewSequence<
    State,
    Action,
    Context,
    <V as View<State, Action, Context, VM>>::Element,
    OneMarker<VM>,
> for V where Context: ViewPathTracker, V: View<State, Action, Context, VM> {
    type SeqState = <V as View<State, Action, Context, VM>>::ViewState;

    open spec fn seq_message_requires(
        &self,
        state: Self::SeqState,
        id_path: Seq<ViewId>,
        message: DynMessage,
        app: State,
    ) -> bool {
        self.message_requires(state, id_path, message, app)
    }

    open spec fn seq_same(&self, prev: &Self) -> bool {
        self.same(prev)
    }

    open spec fn count(&self) -> nat {
        1
    }

    open spec fn seq_retained(
        &self,
        state: Self::SeqState,
        elements: Seq<<V as View<State, Action, Context, VM>>::Element>,
        path: Seq<ViewId>,
    ) -> bool {
        elements.len() == 1 && self.retained(state, elements[0], path)
    }

    open spec fn removed_count(&self, prev: &Self) -> nat {
        0
    }

    open spec fn edited_count(&self, prev: &Self) -> nat {
        if self.same(prev) {
            0
        } else {
            1
        }
    }

    open spec fn rebuild_steps(&self, prev: &Self) -> Seq<Step> {
        if self.same(prev) {
            seq![Step::Skip(1)]
        } else {
            seq![Step::Mutate]
        }
    }

    open spec fn seq_build_ensures(
        &self,
        state: Self::SeqState,
        path: Seq<ViewId>,
        built: Seq<<V as View<State, Action, Context, VM>>::Element>,
    ) -> bool {
        built.len() == 1 && built_at::<State, Action, Context, VM, V>(*self, state, path, built[0])
    }

    open spec fn seq_rebuild_ensures(
        &self,
        prev: &Self,
        state_before: Self::SeqState,
        state_after: Self::SeqState,
        path: Seq<ViewId>,
        origin: nat,
        before: Seq<<V as View<State, Action, Context, VM>>::Element>,
        after: Seq<<V as View<State, Action, Context, VM>>::Element>,
        removed: Seq<(usize, <V as View<State, Action, Context, VM>>::Element)>,
    ) -> bool {
        &&& before.len() == 1
        &&& after.len() == 1
        &&& removed.len() == 0
        &&& if self.same(prev) {
            after == before && state_after == state_before
        } else {
            rebuilt_at::<State, Action, Context, VM, V>(
                *self,
                *prev,
                state_before,
                state_after,
                path,
                before[0],
                after[0],
            )
        }
    }

    open spec fn seq_teardown_ensures(
        &self,
        state_before: Self::SeqState,
        state_after: Self::SeqState,
        path: Seq<ViewId>,
        origin: nat,
        before: Seq<<V as View<State, Action, Context, VM>>::Element>,
        removed: Seq<(usize, <V as View<State, Action, Context, VM>>::Element)>,
    ) -> bool {
        &&& before.len() == 1
        &&& removed.len() == 1
        &&& removed[0].0 == origin as usize
        &&& torn_at::<State, Action, Context, VM, V>(
            *self,
            state_before,
            state_after,
            path,
            before[0],
            removed[0].1,
        )
    }

    open spec fn seq_message_ensures(
        &self,
        state_before: Self::SeqState,
        state_after: Self::SeqState,
        id_path: Seq<ViewId>,
        message: DynMessage,
        app: &mut State,
        app_after: State,
        result: MessageResult<Action>,
    ) -> bool {
        self.message_ensures(
            state_before,
            state_after,
            id_path,
            message,
            app,
            app_after,
            result,
        )
    }

    proof fn seq_same_retained(
        &self,
        prev: &Self,
        state: Self::SeqState,
        elements: Seq<<V as View<State, Action, Context, VM>>::Element>,
        path: Seq<ViewId>,
    ) {
        self.same_retained(prev, state, elements[0], path);
    }

    fn seq_same_as(&self, prev: &Self) -> (same: bool) {
        self.same_as(prev)
    }

    fn seq_build(
        &self,
        ctx: &mut Context,
        elements: &mut AppendVec<<V as View<State, Action, Context, VM>>::Element>,
    ) -> (state: Self::SeqState) {
        let (element, state) = self.build(ctx);
        elements.push(element);
        state
    }

    fn seq_rebuild<Splice: ElementSplice<<V as View<State, Action, Context, VM>>::Element>>(
        &self,
        prev: &Self,
        seq_state: &mut Self::SeqState,
        ctx: &mut Context,
        elements: &mut Splice,
    ) {
        if self.same_as(prev) {
            proof {
                self.same_retained(
                    prev,
                    *seq_state,
                    elements.active()[elements.cursor() as int],
                    ctx.path(),
                );
            }
            proof {
                took_all_one(elements.steps(), Step::Skip(1));
            }
            elements.skip(1);
        } else {
            proof {
                took_all_one(elements.steps(), Step::Mutate);
            }
            let element = elements.mutate();
            self.rebuild(prev, seq_state, ctx, element);
        }
    }

    fn seq_teardown<Splice: ElementSplice<<V as View<State, Action, Context, VM>>::Element>>(
        &self,
        seq_state: &mut Self::SeqState,
        ctx: &mut Context,
        elements: &mut Splice,
    ) {
        assert(elements.steps().push(Step::Delete) =~= elements.steps() + repeat(Step::Delete, 1));
        let element = elements.delete();
        self.teardown(seq_state, ctx, element);
    }

    fn seq_message(
        &self,
        seq_state: &mut Self::SeqState,
        id_path: &[ViewId],
        message: DynMessage,
        app_state: &mut State,
    ) -> (result: MessageResult<Action>) {
        let ghost sent = message;
        let result = self.message(seq_state, id_path, message, app_state);
        proof {
            let app = choose|app: &mut State|
                mut_ref_current(app) == *old(app_state) && mut_ref_future(app) == *app_state
                    && #[trigger] self.message_ensures(
                        *old(seq_state),
                        *seq_state,
                        id_path@,
                        sent,
                        app,
                        *app_state,
                        result,
                    );
            assert(<V as ViewSequence<
                State,
                Action,
                Context,
                <V as View<State, Action, Context, VM>>::Element,
                OneMarker<VM>,
            >>::seq_message_ensures(
                self,
                *old(seq_state),
                *seq_state,
                id_path@,
                sent,
                app,
                *app_state,
                result,
            ));
        }
        result
    }
}

} // verus!
