//! What holds of a list of places that may stand empty, each for one view:
//! the commonest shape of a list of children.

use vstd::prelude::*;
use vstd::view::View as _;
use crate::id_path::{next_generation, ViewId, ViewPathTracker};
use crate::message::{DynMessage, MessageResult};
use crate::seq_option::{OptionMarker, OptionSeqState};
use crate::seq_vec::{
    counts_of, edited_counts_of, list_steps, removed_counts_of, shorter, slot_rebuilt,
    slot_retained, sum_to, VecMarker,
};
use crate::splice::{took, took_all, took_all_joined, took_all_one, Step};
use crate::sequence::{added, run, OneMarker, ViewSequence};
use crate::trace::{OperationView, TraceAction, TraceElement};
use crate::view::{built_at, rebuilt_at, torn_at, View, ViewMarker};

verus! {

/// The number of the first `upto` places that hold a view: the place in the
/// list of elements of the element of the place `upto`.
pub open spec fn present<V>(slots: Seq<Option<V>>, upto: int) -> nat
    decreases upto,
{
    if upto <= 0 {
        0
    } else {
        present(slots, upto - 1) + if slots[upto - 1] is Some {
            1nat
        } else {
            0nat
        }
    }
}

/// The number of the first `upto` places that held a view in `prev` and hold
/// none in `next`.
pub open spec fn gone<V>(next: Seq<Option<V>>, prev: Seq<Option<V>>, upto: int) -> nat
    decreases upto,
{
    if upto <= 0 {
        0
    } else {
        gone(next, prev, upto - 1) + if next[upto - 1] is None && prev[upto - 1] is Some {
            1nat
        } else {
            0nat
        }
    }
}

/// Each place that holds a view keeps one element.
pub proof fn counts_are_present<State, Action, Context, VM, V>(
    slots: Seq<Option<V>>,
    upto: int,
) where
    Context: ViewPathTracker,
    V: View<State, Action, Context, VM>,

    requires
        0 <= upto <= slots.len(),
    ensures
        sum_to(
            counts_of::<
                State,
                Action,
                Context,
                <V as View<State, Action, Context, VM>>::Element,
                Option<V>,
                OptionMarker<OneMarker<VM>>,
            >(slots),
            upto,
        ) == present(slots, upto),
    decreases upto,
{
    if upto > 0 {
        counts_are_present::<State, Action, Context, VM, V>(slots, upto - 1);
    }
}

/// Each place that loses its view loses one element.
pub proof fn removed_are_gone<State, Action, Context, VM, V>(
    next: Seq<Option<V>>,
    prev: Seq<Option<V>>,
    upto: int,
) where Context: ViewPathTracker, V: View<State, Action, Context, VM>
    requires
        0 <= upto <= shorter(next.len(), prev.len()),
    ensures
        sum_to(
            removed_counts_of::<
                State,
                Action,
                Context,
                <V as View<State, Action, Context, VM>>::Element,
                Option<V>,
                OptionMarker<OneMarker<VM>>,
            >(next, prev),
            upto,
        ) == gone(next, prev, upto),
    decreases upto,
{
    if upto > 0 {
        removed_are_gone::<State, Action, Context, VM, V>(next, prev, upto - 1);
    }
}

/// What a rebuild of a list of optional views does at one place that both
/// lists have.
///
/// A view that shows the same as before keeps its element as it was. One that
/// shows something else has its element rebuilt. A place that was empty gets
/// a newly built element, one generation on. A place that becomes empty has
/// its element torn down and removed, with the place that the element had in
/// the list before the pass. The elements stand in the order of their
/// places, so the element of the place `i` is found by counting the places
/// before it that hold a view.
pub proof fn place_account<State, Action, Context, VM, V>(
    next: Vec<Option<V>>,
    prev: Vec<Option<V>>,
    state_before: Vec<OptionSeqState<<V as View<State, Action, Context, VM>>::ViewState>>,
    state_after: Vec<OptionSeqState<<V as View<State, Action, Context, VM>>::ViewState>>,
    path: Seq<ViewId>,
    origin: nat,
    before: Seq<<V as View<State, Action, Context, VM>>::Element>,
    after: Seq<<V as View<State, Action, Context, VM>>::Element>,
    removed: Seq<(usize, <V as View<State, Action, Context, VM>>::Element)>,
    i: int,
) where Context: ViewPathTracker, V: View<State, Action, Context, VM>
    requires
        <Vec<Option<V>> as ViewSequence<
            State,
            Action,
            Context,
            <V as View<State, Action, Context, VM>>::Element,
            VecMarker<OptionMarker<OneMarker<VM>>>,
        >>::seq_rebuild_ensures(
            &next,
            &prev,
            state_before,
            state_after,
            path,
            origin,
            before,
            after,
            removed,
        ),
        before.len() == present(prev@, prev@.len() as int),
        after.len() == present(next@, next@.len() as int),
        0 <= i < next@.len(),
        i < prev@.len(),
        removed.len() >= gone(next@, prev@, i + 1),
    ensures
        match (next@[i], prev@[i]) {
            (Some(view), Some(prev_view)) => if view.same(&prev_view) {
                after[present(next@, i) as int] == before[present(prev@, i) as int]
            } else {
                rebuilt_at::<State, Action, Context, VM, V>(
                    view,
                    prev_view,
                    state_before@[i].inner->0,
                    state_after@[i].inner->0,
                    path.push(ViewId(i as u64)).push(ViewId(state_before@[i].generation)),
                    before[present(prev@, i) as int],
                    after[present(next@, i) as int],
                )
            },
            (Some(view), None) => {
                &&& state_after@[i].generation == next_generation(state_before@[i].generation)
                &&& built_at::<State, Action, Context, VM, V>(
                    view,
                    state_after@[i].inner->0,
                    path.push(ViewId(i as u64)).push(ViewId(state_after@[i].generation)),
                    after[present(next@, i) as int],
                )
            },
            (None, Some(prev_view)) => {
                &&& removed[gone(next@, prev@, i) as int].0 == (origin + present(prev@, i)) as usize
                &&& exists|torn: <V as View<State, Action, Context, VM>>::ViewState| #[trigger]
                    torn_at::<State, Action, Context, VM, V>(
                        prev_view,
                        state_before@[i].inner->0,
                        torn,
                        path.push(ViewId(i as u64)).push(ViewId(state_before@[i].generation)),
                        before[present(prev@, i) as int],
                        removed[gone(next@, prev@, i) as int].1,
                    )
            },
            (None, None) => true,
        },
{
    counts_are_present::<State, Action, Context, VM, V>(next@, i);
    counts_are_present::<State, Action, Context, VM, V>(next@, i + 1);
    counts_are_present::<State, Action, Context, VM, V>(next@, next@.len() as int);
    counts_are_present::<State, Action, Context, VM, V>(prev@, i);
    counts_are_present::<State, Action, Context, VM, V>(prev@, i + 1);
    counts_are_present::<State, Action, Context, VM, V>(prev@, prev@.len() as int);
    removed_are_gone::<State, Action, Context, VM, V>(next@, prev@, i);
    removed_are_gone::<State, Action, Context, VM, V>(next@, prev@, i + 1);
    present_grows(next@, i + 1, next@.len() as int);
    present_grows(prev@, i + 1, prev@.len() as int);
    assert(slot_rebuilt::<
        State,
        Action,
        Context,
        <V as View<State, Action, Context, VM>>::Element,
        Option<V>,
        OptionMarker<OneMarker<VM>>,
    >(next@, prev@, state_before@, state_after@, path, origin, before, 0, after, 0, removed, 0, i));
    let old_place = present(prev@, i);
    let new_place = present(next@, i);
    let log_place = gone(next@, prev@, i);
    if prev@[i] is Some {
        assert(run(before, 0 + old_place, 1)[0] == before[old_place as int]);
    }
    if next@[i] is Some {
        assert(run(after, 0 + new_place, 1)[0] == after[new_place as int]);
    }
    if next@[i] is None && prev@[i] is Some {
        assert(run(removed, 0 + log_place, 1)[0] == removed[log_place as int]);
    }
}

/// Whether a place shows what it showed before: it is empty as it was, or
/// holds a view that shows the same as the one it held.
pub open spec fn as_before<State, Action, Context, VM, V>(
    next: Option<V>,
    prev: Option<V>,
) -> bool where
    Context: ViewPathTracker,
    V: View<State, Action, Context, VM>,
 {
    match (next, prev) {
        (Some(view), Some(prev_view)) => view.same(&prev_view),
        (None, None) => true,
        _ => false,
    }
}

/// Up to any place of a list in which the place `k` alone is newly filled:
/// no element is to be edited and none removed, and the elements stand where
/// they stood, one further on behind the new one.
pub proof fn one_place_filled_upto<State, Action, Context, VM, V>(
    next: Seq<Option<V>>,
    prev: Seq<Option<V>>,
    k: int,
    upto: int,
) where Context: ViewPathTracker, V: View<State, Action, Context, VM>
    requires
        next.len() == prev.len(),
        0 <= k < next.len(),
        prev[k] is None,
        next[k] is Some,
        forall|i: int|
            0 <= i < next.len() && i != k ==> #[trigger] as_before::<State, Action, Context, VM, V>(
                next[i],
                prev[i],
            ),
        0 <= upto <= next.len(),
    ensures
        sum_to(
            edited_counts_of::<
                State,
                Action,
                Context,
                <V as View<State, Action, Context, VM>>::Element,
                Option<V>,
                OptionMarker<OneMarker<VM>>,
            >(next, prev),
            upto,
        ) == 0,
        gone(next, prev, upto) == 0,
        present(next, upto) == present(prev, upto) + if upto > k {
            1nat
        } else {
            0nat
        },
    decreases upto,
{
    if upto > 0 {
        one_place_filled_upto::<State, Action, Context, VM, V>(next, prev, k, upto - 1);
        if upto - 1 != k {
            assert(as_before::<State, Action, Context, VM, V>(next[upto - 1], prev[upto - 1]));
        }
    }
}

/// The steps of a rebuild that fills one place. Where the place `k` alone is
/// newly filled and every other place shows what it showed, the rebuild asks
/// the cursor for no element to edit, removes none and keeps one element
/// more than before: by what `seq_rebuild` ensures of the cursor, it puts in
/// exactly one element and steps past all the others. The new element stands
/// where the elements before the place `k` end; [`place_account`] says of
/// each other element that it is as it was.
pub proof fn one_place_filled<State, Action, Context, VM, V>(
    next: Vec<Option<V>>,
    prev: Vec<Option<V>>,
    k: int,
) where Context: ViewPathTracker, V: View<State, Action, Context, VM>
    requires
        next@.len() == prev@.len(),
        0 <= k < next@.len(),
        prev@[k] is None,
        next@[k] is Some,
        forall|i: int|
            0 <= i < next@.len() && i != k ==> #[trigger] as_before::<State, Action, Context, VM, V>(
                next@[i],
                prev@[i],
            ),
    ensures
        <Vec<Option<V>> as ViewSequence<
            State,
            Action,
            Context,
            <V as View<State, Action, Context, VM>>::Element,
            VecMarker<OptionMarker<OneMarker<VM>>>,
        >>::edited_count(&next, &prev) == 0,
        <Vec<Option<V>> as ViewSequence<
            State,
            Action,
            Context,
            <V as View<State, Action, Context, VM>>::Element,
            VecMarker<OptionMarker<OneMarker<VM>>>,
        >>::removed_count(&next, &prev) == 0,
        <Vec<Option<V>> as ViewSequence<
            State,
            Action,
            Context,
            <V as View<State, Action, Context, VM>>::Element,
            VecMarker<OptionMarker<OneMarker<VM>>>,
        >>::count(&next) == <Vec<Option<V>> as ViewSequence<
            State,
            Action,
            Context,
            <V as View<State, Action, Context, VM>>::Element,
            VecMarker<OptionMarker<OneMarker<VM>>>,
        >>::count(&prev) + 1,
        present(next@, k) == present(prev@, k),
{
    let n = next@.len() as int;
    one_place_filled_upto::<State, Action, Context, VM, V>(next@, prev@, k, n);
    one_place_filled_upto::<State, Action, Context, VM, V>(next@, prev@, k, k);
    counts_are_present::<State, Action, Context, VM, V>(next@, n);
    counts_are_present::<State, Action, Context, VM, V>(prev@, n);
    removed_are_gone::<State, Action, Context, VM, V>(next@, prev@, n);
}

/// The step past `count` elements; no step where there are none.
pub open spec fn stepped_past(count: nat) -> Seq<Step> {
    if count == 0 {
        Seq::empty()
    } else {
        seq![Step::Skip(count)]
    }
}

/// The steps of a rebuild that fills the place `k`, up to any place: a step
/// past the elements before the new one, the insertion, and a step past the
/// elements behind it as far as the rebuild has come.
pub open spec fn filling_steps<V>(prev: Seq<Option<V>>, k: int, upto: int) -> Seq<Step> {
    if upto <= k {
        stepped_past(present(prev, upto))
    } else {
        stepped_past(present(prev, k)).push(Step::Insert) + stepped_past(
            (present(prev, upto) - present(prev, k)) as nat,
        )
    }
}

/// Up to any place of a list in which the place `k` alone is newly filled,
/// a cursor that had taken no step has taken [`filling_steps`].
pub proof fn one_place_filled_steps_upto<State, Action, Context, VM, V>(
    next: Seq<Option<V>>,
    prev: Seq<Option<V>>,
    k: int,
    upto: int,
) where Context: ViewPathTracker, V: View<State, Action, Context, VM>
    requires
        next.len() == prev.len(),
        0 <= k < next.len(),
        prev[k] is None,
        next[k] is Some,
        forall|i: int|
            0 <= i < next.len() && i != k ==> #[trigger] as_before::<State, Action, Context, VM, V>(
                next[i],
                prev[i],
            ),
        0 <= upto <= next.len(),
    ensures
        took_all(
            Seq::empty(),
            list_steps::<
        State,
        Action,
        Context,
        <V as View<State, Action, Context, VM>>::Element,
        Option<V>,
        OptionMarker<OneMarker<VM>>,
            >(next, prev, upto),
        ) == filling_steps(prev, k, upto),
    decreases upto,
{
    if upto > 0 {
        let i = upto - 1;
        one_place_filled_steps_upto::<State, Action, Context, VM, V>(next, prev, k, i);
        let so_far = list_steps::<
        State,
        Action,
        Context,
        <V as View<State, Action, Context, VM>>::Element,
        Option<V>,
        OptionMarker<OneMarker<VM>>,
        >(next, prev, i);
        let here = <Option<V> as ViewSequence<
            State,
            Action,
            Context,
            <V as View<State, Action, Context, VM>>::Element,
            OptionMarker<OneMarker<VM>>,
        >>::rebuild_steps(&next[i], &prev[i]);
        let taken = took_all(Seq::empty(), so_far);
        took_all_joined(Seq::empty(), so_far, here);
        if k <= i {
            present_grows(prev, k, i);
        }
        if i == k {
            assert(here =~= seq![Step::Insert]);
            took_all_one(taken, Step::Insert);
            assert(filling_steps(prev, k, upto) =~= taken.push(Step::Insert));
        } else {
            assert(as_before::<State, Action, Context, VM, V>(next[i], prev[i]));
            if next[i] is Some {
                assert(here =~= seq![Step::Skip(1)]);
                took_all_one(taken, Step::Skip(1));
                if i < k {
                    assert(filling_steps(prev, k, upto) =~= took(taken, Step::Skip(1)));
                } else {
                    let head = stepped_past(present(prev, k)).push(Step::Insert);
                    let behind = (present(prev, i) - present(prev, k)) as nat;
                    if behind == 0 {
                        assert(taken =~= head);
                        assert(filling_steps(prev, k, upto) =~= head.push(Step::Skip(1)));
                    } else {
                        assert(taken =~= head.push(Step::Skip(behind)));
                        assert(taken.drop_last() =~= head);
                        assert(filling_steps(prev, k, upto) =~= head.push(
                            Step::Skip(behind + 1),
                        ));
                    }
                }
            } else {
                assert(here =~= Seq::<Step>::empty());
                assert(took_all(taken, here) == taken);
            }
        }
    }
}

/// The order of the steps of a rebuild that fills one place. Where the place
/// `k` alone is newly filled and every other place shows what it showed, a
/// cursor that had taken no step is asked, in this order, to step past the
/// elements before the place, to put one element in, and to step past the
/// elements behind it; a step past no element is not taken.
pub proof fn one_place_filled_steps<State, Action, Context, VM, V>(
    next: Vec<Option<V>>,
    prev: Vec<Option<V>>,
    k: int,
) where Context: ViewPathTracker, V: View<State, Action, Context, VM>
    requires
        next@.len() == prev@.len(),
        0 <= k < next@.len(),
        prev@[k] is None,
        next@[k] is Some,
        forall|i: int|
            0 <= i < next@.len() && i != k ==> #[trigger] as_before::<State, Action, Context, VM, V>(
                next@[i],
                prev@[i],
            ),
    ensures
        took_all(Seq::empty(), <Vec<Option<V>> as ViewSequence<
            State,
            Action,
            Context,
            <V as View<State, Action, Context, VM>>::Element,
            VecMarker<OptionMarker<OneMarker<VM>>>,
        >>::rebuild_steps(&next, &prev)) == stepped_past(
            present(prev@, k),
        ).push(Step::Insert) + stepped_past(
            (present(prev@, prev@.len() as int) - present(prev@, k)) as nat,
        ),
{
    let n = next@.len() as int;
    one_place_filled_steps_upto::<State, Action, Context, VM, V>(next@, prev@, k, n);
    let all = list_steps::<
        State,
        Action,
        Context,
        <V as View<State, Action, Context, VM>>::Element,
        Option<V>,
        OptionMarker<OneMarker<VM>>,
    >(next@, prev@, n);
    assert(<Vec<Option<V>> as ViewSequence<
            State,
            Action,
            Context,
            <V as View<State, Action, Context, VM>>::Element,
            VecMarker<OptionMarker<OneMarker<VM>>>,
        >>::rebuild_steps(&next, &prev) =~= all);
}

/// Whether a place shows what it showed before or has lost its view.
pub open spec fn as_before_or_emptied<State, Action, Context, VM, V>(
    next: Option<V>,
    prev: Option<V>,
) -> bool where Context: ViewPathTracker, V: View<State, Action, Context, VM> {
    as_before::<State, Action, Context, VM, V>(next, prev) || (next is None && prev is Some)
}

/// Up to any place of a list in which places are emptied and nothing else
/// changes: no element is to be edited, and each place that held a view
/// either holds it still or has lost it.
pub proof fn places_emptied_upto<State, Action, Context, VM, V>(
    next: Seq<Option<V>>,
    prev: Seq<Option<V>>,
    upto: int,
) where Context: ViewPathTracker, V: View<State, Action, Context, VM>
    requires
        next.len() == prev.len(),
        forall|i: int|
            0 <= i < next.len() ==> #[trigger] as_before_or_emptied::<
                State,
                Action,
                Context,
                VM,
                V,
            >(next[i], prev[i]),
        0 <= upto <= next.len(),
    ensures
        sum_to(
            edited_counts_of::<
                State,
                Action,
                Context,
                <V as View<State, Action, Context, VM>>::Element,
                Option<V>,
                OptionMarker<OneMarker<VM>>,
            >(next, prev),
            upto,
        ) == 0,
        present(next, upto) + gone(next, prev, upto) == present(prev, upto),
    decreases upto,
{
    if upto > 0 {
        places_emptied_upto::<State, Action, Context, VM, V>(next, prev, upto - 1);
        assert(as_before_or_emptied::<State, Action, Context, VM, V>(
            next[upto - 1],
            prev[upto - 1],
        ));
    }
}

/// The steps of a rebuild that empties places. Where every place either
/// shows what it showed or has lost its view, the rebuild asks the cursor
/// for no element to edit and removes one element for each place that lost
/// its view; what it keeps and what it removes are together what was there:
/// by what `seq_rebuild` ensures of the cursor, it puts in no element.
/// [`place_account`] says of each element that stays that it is as it was,
/// and of each removed one that it carries the place it had before.
pub proof fn places_emptied<State, Action, Context, VM, V>(
    next: Vec<Option<V>>,
    prev: Vec<Option<V>>,
) where Context: ViewPathTracker, V: View<State, Action, Context, VM>
    requires
        next@.len() == prev@.len(),
        forall|i: int|
            0 <= i < next@.len() ==> #[trigger] as_before_or_emptied::<
                State,
                Action,
                Context,
                VM,
                V,
            >(next@[i], prev@[i]),
    ensures
        <Vec<Option<V>> as ViewSequence<
            State,
            Action,
            Context,
            <V as View<State, Action, Context, VM>>::Element,
            VecMarker<OptionMarker<OneMarker<VM>>>,
        >>::edited_count(&next, &prev) == 0,
        <Vec<Option<V>> as ViewSequence<
            State,
            Action,
            Context,
            <V as View<State, Action, Context, VM>>::Element,
            VecMarker<OptionMarker<OneMarker<VM>>>,
        >>::removed_count(&next, &prev) == gone(next@, prev@, next@.len() as int),
        <Vec<Option<V>> as ViewSequence<
            State,
            Action,
            Context,
            <V as View<State, Action, Context, VM>>::Element,
            VecMarker<OptionMarker<OneMarker<VM>>>,
        >>::count(&next) + <Vec<Option<V>> as ViewSequence<
            State,
            Action,
            Context,
            <V as View<State, Action, Context, VM>>::Element,
            VecMarker<OptionMarker<OneMarker<VM>>>,
        >>::removed_count(&next, &prev) == <Vec<Option<V>> as ViewSequence<
            State,
            Action,
            Context,
            <V as View<State, Action, Context, VM>>::Element,
            VecMarker<OptionMarker<OneMarker<VM>>>,
        >>::count(&prev),
{
    let n = next@.len() as int;
    places_emptied_upto::<State, Action, Context, VM, V>(next@, prev@, n);
    counts_are_present::<State, Action, Context, VM, V>(next@, n);
    counts_are_present::<State, Action, Context, VM, V>(prev@, n);
    removed_are_gone::<State, Action, Context, VM, V>(next@, prev@, n);
}

/// The number of places that hold a view grows with the number of places.
pub proof fn present_grows<V>(slots: Seq<Option<V>>, fewer: int, more: int)
    requires
        0 <= fewer <= more,
    ensures
        present(slots, fewer) <= present(slots, more),
    decreases more,
{
    if fewer < more {
        present_grows(slots, fewer, more - 1);
    }
}

/// Where a message goes in a list of optional views.
///
/// A path whose first segment is a place that holds a view, and whose second
/// is the generation kept for that place, leads to that view, which gets the
/// rest of the path. Every other path leads nowhere: the message comes back
/// whole, and neither the application nor the states change.
pub proof fn message_account<State, Action, Context, VM, V>(
    views: Vec<Option<V>>,
    state_before: Vec<OptionSeqState<<V as View<State, Action, Context, VM>>::ViewState>>,
    state_after: Vec<OptionSeqState<<V as View<State, Action, Context, VM>>::ViewState>>,
    id_path: Seq<ViewId>,
    message: DynMessage,
    app: &mut State,
    app_after: State,
    result: MessageResult<Action>,
) where Context: ViewPathTracker, V: View<State, Action, Context, VM>
    requires
        <Vec<Option<V>> as ViewSequence<
            State,
            Action,
            Context,
            <V as View<State, Action, Context, VM>>::Element,
            VecMarker<OptionMarker<OneMarker<VM>>>,
        >>::seq_message_ensures(
            &views,
            state_before,
            state_after,
            id_path,
            message,
            app,
            app_after,
            result,
        ),
    ensures
        if id_path.len() >= 2 && id_path[0].0 < views@.len() && id_path[0].0 < state_before@.len()
            && views@[id_path[0].0 as int] is Some && state_before@[id_path[0].0 as int].inner
            is Some && id_path[1] == ViewId(state_before@[id_path[0].0 as int].generation) {
            views@[id_path[0].0 as int]->0.message_ensures(
                state_before@[id_path[0].0 as int].inner->0,
                state_after@[id_path[0].0 as int].inner->0,
                id_path.subrange(2, id_path.len() as int),
                message,
                app,
                app_after,
                result,
            )
        } else {
            &&& result == MessageResult::<Action>::Stale(message)
            &&& app_after == mut_ref_current(app)
        },
{
    if id_path.len() > 0 {
        let rest = id_path.subrange(1, id_path.len() as int);
        if rest.len() > 0 {
            assert(rest[0] == id_path[1]);
            assert(rest.subrange(1, rest.len() as int) =~= id_path.subrange(
                2,
                id_path.len() as int,
            ));
        }
    }
}

/// A message that is sent along the path that a leaf recorded reaches that
/// leaf. `elements` and `states` are what the tree holds for the list under
/// `path`; the leaf at the place `i` recorded its path in its element, and
/// the part of that path below `path` is the way to it: the answer is the
/// leaf's own, with its number, and the application is left alone.
pub proof fn recorded_path_reaches_leaf<const N: u32, State, Context>(
    views: Vec<Option<OperationView<N>>>,
    states: Vec<OptionSeqState<()>>,
    elements: Seq<TraceElement>,
    path: Seq<ViewId>,
    i: int,
    state_after: Vec<OptionSeqState<()>>,
    message: DynMessage,
    app: &mut State,
    app_after: State,
    result: MessageResult<TraceAction>,
) where Context: ViewPathTracker
    requires
        <Vec<Option<OperationView<N>>> as ViewSequence<
            State,
            TraceAction,
            Context,
            TraceElement,
            VecMarker<OptionMarker<OneMarker<ViewMarker>>>,
        >>::seq_retained(&views, states, elements, path),
        0 <= i < views@.len(),
        views@[i] is Some,
        <Vec<Option<OperationView<N>>> as ViewSequence<
            State,
            TraceAction,
            Context,
            TraceElement,
            VecMarker<OptionMarker<OneMarker<ViewMarker>>>,
        >>::seq_message_ensures(
            &views,
            states,
            state_after,
            added(path, elements[present(views@, i) as int].view_path@),
            message,
            app,
            app_after,
            result,
        ),
    ensures
        elements[present(views@, i) as int].view_path@ == path.push(ViewId(i as u64)).push(
            ViewId(states@[i].generation),
        ),
        views@[i] matches Some(leaf) && result == MessageResult::Action(
            TraceAction { id: leaf.0 },
        ),
        app_after == mut_ref_current(app),
{
    counts_are_present::<State, TraceAction, Context, ViewMarker, OperationView<N>>(views@, i);
    counts_are_present::<State, TraceAction, Context, ViewMarker, OperationView<N>>(views@, i + 1);
    counts_are_present::<State, TraceAction, Context, ViewMarker, OperationView<N>>(
        views@,
        views@.len() as int,
    );
    present_grows(views@, i + 1, views@.len() as int);
    assert(slot_retained::<
        State,
        TraceAction,
        Context,
        TraceElement,
        Option<OperationView<N>>,
        OptionMarker<OneMarker<ViewMarker>>,
    >(views@, states@, elements, 0, path, i));
    let place = present(views@, i);
    assert(run(elements, 0 + place, 1)[0] == elements[place as int]);
    let recorded = elements[place as int].view_path@;
    let below = added(path, recorded);
    assert(below =~= seq![ViewId(i as u64), ViewId(states@[i].generation)]);
    assert(views@.len() == views.len());
    message_account::<State, TraceAction, Context, ViewMarker, OperationView<N>>(
        views,
        states,
        state_after,
        below,
        message,
        app,
        app_after,
        result,
    );
}

/// A message to a place that holds no view any more comes back whole. Where
/// the place `i` stands empty, a path that begins with `i` is answered
/// `Stale`, with the message as it was sent, and neither the application nor
/// the states change.
pub proof fn empty_place_is_stale<State, Action, Context, VM, V>(
    views: Vec<Option<V>>,
    states: Vec<OptionSeqState<<V as View<State, Action, Context, VM>>::ViewState>>,
    i: int,
    state_after: Vec<OptionSeqState<<V as View<State, Action, Context, VM>>::ViewState>>,
    id_path: Seq<ViewId>,
    message: DynMessage,
    app: &mut State,
    app_after: State,
    result: MessageResult<Action>,
) where Context: ViewPathTracker, V: View<State, Action, Context, VM>
    requires
        0 <= i < views@.len(),
        views@[i] is None,
        id_path.len() > 0,
        id_path[0] == ViewId(i as u64),
        <Vec<Option<V>> as ViewSequence<
            State,
            Action,
            Context,
            <V as View<State, Action, Context, VM>>::Element,
            VecMarker<OptionMarker<OneMarker<VM>>>,
        >>::seq_message_ensures(
            &views,
            states,
            state_after,
            id_path,
            message,
            app,
            app_after,
            result,
        ),
    ensures
        result == MessageResult::<Action>::Stale(message),
        app_after == mut_ref_current(app),
        state_after@ == states@,
{
    assert(views@.len() == views.len());
    assert(state_after@ =~= states@);
}

} // verus!
