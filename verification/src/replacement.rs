//! What a change of kind leaves, where the elements are those that record
//! their history.

use vstd::prelude::*;
use vstd::view::View as _;
use crate::any_view::{kind_changed, kind_changed_through};
use crate::element::ViewElement;
use crate::id_path::{next_generation, ViewId, ViewPathTracker};
use crate::sequence::{extends, ViewSequence};
use crate::trace::{built_by, discarded, Operation, SequenceView, TraceElement};
use crate::view::{built_at, torn_at, View};

verus! {

/// Whether `after` is what `before` becomes when its content is exchanged:
/// the old content is torn down where it stood, which leaves `torn`; the new
/// view builds `built` one generation on; the element keeps its history and
/// adds the replacement to it, takes the path and the children of `built`,
/// and, where `built` is a parent, keeps as removed all that `torn` owned.
pub open spec fn exchanged<State, Action, Context, Old, New>(
    old_view: Old,
    new_view: New,
    old_state: Old::ViewState,
    new_state: New::ViewState,
    path: Seq<ViewId>,
    generation: u64,
    before: TraceElement,
    after: TraceElement,
    torn_state: Old::ViewState,
    torn: TraceElement,
    built: TraceElement,
) -> bool where
    Context: ViewPathTracker,
    Old: View<State, Action, Context, Element = TraceElement>,
    New: View<State, Action, Context, Element = TraceElement>,
 {
    &&& torn_at::<State, Action, Context, _, Old>(
        old_view,
        old_state,
        torn_state,
        path.push(ViewId(generation)),
        before,
        torn,
    )
    &&& built_at::<State, Action, Context, _, New>(
        new_view,
        new_state,
        path.push(ViewId(next_generation(generation))),
        built,
    )
    &&& built.fresh()
    &&& new_view.retained(new_state, built, path.push(ViewId(next_generation(generation))))
    &&& after.operations@ == torn.operations@.push(Operation::Replace(built_by(built)))
    &&& after.view_path@ == built.view_path@
    &&& match built.children {
        Some(new) => {
            &&& after.children matches Some(merged)
            &&& merged.active@ == new.active@
            &&& merged.deleted@ == new.deleted@ + discarded(torn.children)
        },
        None => after.children is None,
    }
}

/// A change of kind tears the old content down once, builds the new one
/// once, and leaves in the place an element that stands for the new one.
pub proof fn kind_change_exchanges<State, Action, Context, Old, New>(
    old_view: Old,
    new_view: New,
    old_state: Old::ViewState,
    new_state: New::ViewState,
    path: Seq<ViewId>,
    generation: u64,
    before: TraceElement,
    after: TraceElement,
) where
    Context: ViewPathTracker,
    Old: View<State, Action, Context, Element = TraceElement>,
    New: View<State, Action, Context, Element = TraceElement>,

    requires
        kind_changed::<State, Action, Context, Old, New, TraceElement>(
            old_view,
            new_view,
            old_state,
            new_state,
            path,
            generation,
            before,
            after,
        ),
    ensures
        exists|torn_state: Old::ViewState, torn: TraceElement, built: TraceElement| #[trigger]
            exchanged::<State, Action, Context, Old, New>(
                old_view,
                new_view,
                old_state,
                new_state,
                path,
                generation,
                before,
                after,
                torn_state,
                torn,
                built,
            ),
{
    let (torn_state, torn, built) = choose|
        torn_state: Old::ViewState,
        torn: TraceElement,
        built: TraceElement,
    | #[trigger]
        kind_changed_through::<State, Action, Context, Old, New, TraceElement>(
            old_view,
            new_view,
            old_state,
            new_state,
            path,
            generation,
            before,
            after,
            torn_state,
            torn,
            built,
        );
    assert(exchanged::<State, Action, Context, Old, New>(
        old_view,
        new_view,
        old_state,
        new_state,
        path,
        generation,
        before,
        after,
        torn_state,
        torn,
        built,
    ));
}

/// Where a parent takes the place of a parent, the element in the place has
/// the new parent's children as its live ones and nothing else; its removed
/// elements are those the old parent had removed before and, behind them,
/// every element the old parent owned, torn down; its history ends with the
/// replacement by the new parent, and its path is the new parent's.
pub proof fn parent_replaces_parent<State, Action, Context, OldInner, OldMarker, NewInner, NewMarker>(
    old_view: SequenceView<OldInner, OldMarker>,
    new_view: SequenceView<NewInner, NewMarker>,
    old_state: (OldInner::SeqState, crate::splice::AppendVec<TraceElement>),
    new_state: (NewInner::SeqState, crate::splice::AppendVec<TraceElement>),
    path: Seq<ViewId>,
    generation: u64,
    before: TraceElement,
    after: TraceElement,
) where
    Context: ViewPathTracker,
    OldInner: ViewSequence<State, Action, Context, TraceElement, OldMarker>,
    NewInner: ViewSequence<State, Action, Context, TraceElement, NewMarker>,

    requires
        kind_changed::<
            State,
            Action,
            Context,
            SequenceView<OldInner, OldMarker>,
            SequenceView<NewInner, NewMarker>,
            TraceElement,
        >(old_view, new_view, old_state, new_state, path, generation, before, after),
    ensures
        before.children is Some,
        after.children is Some,
        after.children->0.active@.len() == new_view.children().count(),
        new_view.children().seq_retained(
            new_state.0,
            after.children->0.active@,
            path.push(ViewId(next_generation(generation))),
        ),
        extends(before.children->0.deleted@, after.children->0.deleted@),
        after.children->0.deleted@.len() == before.children->0.deleted@.len()
            + old_view.children().count(),
        after.operations@ == before.operations@.push(Operation::Replace(new_view.number())),
        after.view_path@ == path.push(ViewId(next_generation(generation))),
{
    kind_change_exchanges::<
        State,
        Action,
        Context,
        SequenceView<OldInner, OldMarker>,
        SequenceView<NewInner, NewMarker>,
    >(old_view, new_view, old_state, new_state, path, generation, before, after);
    let (torn_state, torn, built) = choose|
        torn_state: (OldInner::SeqState, crate::splice::AppendVec<TraceElement>),
        torn: TraceElement,
        built: TraceElement,
    | #[trigger]
        exchanged::<
            State,
            Action,
            Context,
            SequenceView<OldInner, OldMarker>,
            SequenceView<NewInner, NewMarker>,
        >(
            old_view,
            new_view,
            old_state,
            new_state,
            path,
            generation,
            before,
            after,
            torn_state,
            torn,
            built,
        );
    let owned = before.children->0;
    let left = torn.children->0;
    let new = built.children->0;
    assert(left.active@ =~= Seq::<TraceElement>::empty());
    assert(new.deleted@ =~= Seq::<(usize, TraceElement)>::empty());
    assert(after.children->0.deleted@ =~= left.deleted@);
}

} // verus!
