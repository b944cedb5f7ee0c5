//! A list of sequences whose length may change from cycle to cycle.

use std::marker::PhantomData;
use vstd::prelude::*;
use vstd::slice::slice_subrange;
use crate::id_path::{ViewId, ViewPathTracker};
use crate::message::{DynMessage, MessageResult};
use crate::sequence::{added, extends, extends_twice, run, spliced, spliced_twice, ViewSequence};
use crate::splice::{
    repeat, took_all, took_all_joined, took_all_plain, AppendVec, ElementSplice, Step,
};

verus! {

/// Marks the sequence that a `Vec` of sequences is.
pub struct VecMarker<M> {
    marker: PhantomData<M>,
}

/// The sum of the first `upto` of `counts`.
pub open spec fn sum_to(counts: Seq<nat>, upto: int) -> nat
    decreases upto,
{
    if upto <= 0 {
        0
    } else {
        sum_to(counts, upto - 1) + counts[upto - 1]
    }
}

/// The sum of a shorter beginning is no larger.
pub proof fn sum_to_grows(counts: Seq<nat>, shorter: int, longer: int)
    requires
        0 <= shorter <= longer,
    ensures
        sum_to(counts, shorter) <= sum_to(counts, longer),
    decreases longer,
{
    if shorter < longer {
        sum_to_grows(counts, shorter, longer - 1);
    }
}

/// The smaller of two lengths.
pub open spec fn shorter(first: nat, second: nat) -> nat {
    if first <= second {
        first
    } else {
        second
    }
}

/// For each of `views`, the number of elements it keeps live.
pub open spec fn counts_of<State, Action, Context, Element, Inner, M>(views: Seq<Inner>) -> Seq<
    nat,
> where Context: ViewPathTracker, Inner: ViewSequence<State, Action, Context, Element, M> {
    Seq::new(views.len(), |i: int| views[i].count())
}

/// For each place that `views` and `prevs` both have, the number of elements
/// that the rebuild of the view there removes.
pub open spec fn removed_counts_of<State, Action, Context, Element, Inner, M>(
    views: Seq<Inner>,
    prevs: Seq<Inner>,
) -> Seq<nat> where
    Context: ViewPathTracker,
    Inner: ViewSequence<State, Action, Context, Element, M>,
 {
    Seq::new(shorter(views.len(), prevs.len()), |i: int| views[i].removed_count(&prevs[i]))
}

/// For each place that `views` and `prevs` both have, the number of elements
/// that the rebuild of the view there hands out for editing.
pub open spec fn edited_counts_of<State, Action, Context, Element, Inner, M>(
    views: Seq<Inner>,
    prevs: Seq<Inner>,
) -> Seq<nat> where
    Context: ViewPathTracker,
    Inner: ViewSequence<State, Action, Context, Element, M>,
 {
    Seq::new(shorter(views.len(), prevs.len()), |i: int| views[i].edited_count(&prevs[i]))
}

/// The steps for which the rebuilds of the first `upto` places ask the
/// cursor, place by place.
pub open spec fn list_steps<State, Action, Context, Element, Inner, M>(
    views: Seq<Inner>,
    prevs: Seq<Inner>,
    upto: int,
) -> Seq<Step> where
    Context: ViewPathTracker,
    Inner: ViewSequence<State, Action, Context, Element, M>,

    decreases upto,
{
    if upto <= 0 {
        Seq::empty()
    } else {
        list_steps::<State, Action, Context, Element, Inner, M>(
            views,
            prevs,
            upto - 1,
        ) + views[upto - 1].rebuild_steps(
            &prevs[upto - 1],
        )
    }
}

/// Whether the elements of `list` that lie where the view at place `i` keeps
/// its own, counting from `base`, are what the tree holds for that view. The
/// view at place `i` is addressed by the segment `i`.
pub open spec fn slot_retained<State, Action, Context, Element, Inner, M>(
    views: Seq<Inner>,
    states: Seq<Inner::SeqState>,
    list: Seq<Element>,
    base: nat,
    path: Seq<ViewId>,
    i: int,
) -> bool where
    Context: ViewPathTracker,
    Inner: ViewSequence<State, Action, Context, Element, M>,
 {
    views[i].seq_retained(
        states[i],
        run(
            list,
            base + sum_to(counts_of::<State, Action, Context, Element, Inner, M>(views), i),
            views[i].count(),
        ),
        path.push(ViewId(i as u64)),
    )
}

/// Whether the elements of `list` that lie where the view at place `i` keeps
/// its own, counting from `base`, are what that view builds.
pub open spec fn slot_built<State, Action, Context, Element, Inner, M>(
    views: Seq<Inner>,
    states: Seq<Inner::SeqState>,
    list: Seq<Element>,
    base: nat,
    path: Seq<ViewId>,
    i: int,
) -> bool where
    Context: ViewPathTracker,
    Inner: ViewSequence<State, Action, Context, Element, M>,
 {
    views[i].seq_build_ensures(
        states[i],
        path.push(ViewId(i as u64)),
        run(
            list,
            base + sum_to(counts_of::<State, Action, Context, Element, Inner, M>(views), i),
            views[i].count(),
        ),
    )
}

/// Whether the view at place `i` has brought its elements from what they
/// were in `before_list` to what they are in `after_list`, and its removed
/// elements lie in `removed_list`, each list counted from its base. The
/// first element of the whole list of views had the place `origin` before
/// the pass.
pub open spec fn slot_rebuilt<State, Action, Context, Element, Inner, M>(
    views: Seq<Inner>,
    prevs: Seq<Inner>,
    states_before: Seq<Inner::SeqState>,
    states_after: Seq<Inner::SeqState>,
    path: Seq<ViewId>,
    origin: nat,
    before_list: Seq<Element>,
    before_base: nat,
    after_list: Seq<Element>,
    after_base: nat,
    removed_list: Seq<(usize, Element)>,
    removed_base: nat,
    i: int,
) -> bool where
    Context: ViewPathTracker,
    Inner: ViewSequence<State, Action, Context, Element, M>,
 {
    views[i].seq_rebuild_ensures(
        &prevs[i],
        states_before[i],
        states_after[i],
        path.push(ViewId(i as u64)),
        origin + sum_to(counts_of::<State, Action, Context, Element, Inner, M>(prevs), i),
        run(
            before_list,
            before_base + sum_to(counts_of::<State, Action, Context, Element, Inner, M>(prevs), i),
            prevs[i].count(),
        ),
        run(
            after_list,
            after_base + sum_to(counts_of::<State, Action, Context, Element, Inner, M>(views), i),
            views[i].count(),
        ),
        run(
            removed_list,
            removed_base + sum_to(
                removed_counts_of::<State, Action, Context, Element, Inner, M>(views, prevs),
                i,
            ),
            views[i].removed_count(&prevs[i]),
        ),
    )
}

/// Whether the view at place `i` has torn down the elements that were its
/// own in `before_list`, and they lie in `removed_list`, each list counted
/// from its base. The first element of the whole list of views had the place
/// `origin` before the pass.
pub open spec fn slot_torn<State, Action, Context, Element, Inner, M>(
    views: Seq<Inner>,
    states_before: Seq<Inner::SeqState>,
    states_after: Seq<Inner::SeqState>,
    path: Seq<ViewId>,
    origin: nat,
    before_list: Seq<Element>,
    before_base: nat,
    removed_list: Seq<(usize, Element)>,
    removed_base: int,
    i: int,
) -> bool where
    Context: ViewPathTracker,
    Inner: ViewSequence<State, Action, Context, Element, M>,
 {
    views[i].seq_teardown_ensures(
        states_before[i],
        states_after[i],
        path.push(ViewId(i as u64)),
        origin + sum_to(counts_of::<State, Action, Context, Element, Inner, M>(views), i),
        run(
            before_list,
            before_base + sum_to(counts_of::<State, Action, Context, Element, Inner, M>(views), i),
            views[i].count(),
        ),
        run(
            removed_list,
            (removed_base + sum_to(
                counts_of::<State, Action, Context, Element, Inner, M>(views),
                i,
            )) as nat,
            views[i].count(),
        ),
    )
}

/// Whether [`slot_torn`] holds of every place from `from` up to `to`.
pub open spec fn slots_torn<State, Action, Context, Element, Inner, M>(
    views: Seq<Inner>,
    states_before: Seq<Inner::SeqState>,
    states_after: Seq<Inner::SeqState>,
    path: Seq<ViewId>,
    origin: nat,
    before_list: Seq<Element>,
    before_base: nat,
    removed_list: Seq<(usize, Element)>,
    removed_base: int,
    from: int,
    to: int,
) -> bool where
    Context: ViewPathTracker,
    Inner: ViewSequence<State, Action, Context, Element, M>,
 {
    forall|i: int|
        from <= i < to ==> #[trigger] slot_torn::<State, Action, Context, Element, Inner, M>(
            views,
            states_before,
            states_after,
            path,
            origin,
            before_list,
            before_base,
            removed_list,
            removed_base,
            i,
        )
}

/// What holds of one place of a list holds of the place of another list
/// that holds the same elements over the places from `from` up to `to`,
/// beside equal states.
pub proof fn slot_moved<State, Action, Context, Element, Inner, M>(
    views: Seq<Inner>,
    path: Seq<ViewId>,
    from: int,
    to: int,
    states: Seq<Inner::SeqState>,
    list: Seq<Element>,
    base: nat,
    other_states: Seq<Inner::SeqState>,
    other_list: Seq<Element>,
    other_base: nat,
    j: int,
) where
    Context: ViewPathTracker,
    Inner: ViewSequence<State, Action, Context, Element, M>,

    requires
        0 <= from <= j < to <= views.len(),
        other_states[j] == states[j],
        base + sum_to(
            counts_of::<State, Action, Context, Element, Inner, M>(views),
            to,
        ) <= list.len(),
        other_base + sum_to(
            counts_of::<State, Action, Context, Element, Inner, M>(views),
            to,
        ) <= other_list.len(),
        run(
            other_list,
            other_base + sum_to(
                counts_of::<State, Action, Context, Element, Inner, M>(views),
                from,
            ),
            (sum_to(
                counts_of::<State, Action, Context, Element, Inner, M>(views),
                to,
            ) - sum_to(counts_of::<State, Action, Context, Element, Inner, M>(views), from)) as nat,
        ) =~= run(
            list,
            base + sum_to(counts_of::<State, Action, Context, Element, Inner, M>(views), from),
            (sum_to(
                counts_of::<State, Action, Context, Element, Inner, M>(views),
                to,
            ) - sum_to(counts_of::<State, Action, Context, Element, Inner, M>(views), from)) as nat,
        ),
    ensures
        slot_retained::<State, Action, Context, Element, Inner, M>(
            views,
            states,
            list,
            base,
            path,
            j,
        ) ==> slot_retained::<State, Action, Context, Element, Inner, M>(
            views,
            other_states,
            other_list,
            other_base,
            path,
            j,
        ),
        slot_built::<State, Action, Context, Element, Inner, M>(
            views,
            states,
            list,
            base,
            path,
            j,
        ) ==> slot_built::<State, Action, Context, Element, Inner, M>(
            views,
            other_states,
            other_list,
            other_base,
            path,
            j,
        ),
{
    let counts = counts_of::<State, Action, Context, Element, Inner, M>(views);
    let low = sum_to(counts, from);
    let here = sum_to(counts, j);
    sum_to_grows(counts, from, j);
    sum_to_grows(counts, j + 1, to);
    assert(counts[j] == views[j].count());
    assert(sum_to(counts, j + 1) == here + counts[j]);
    let moved_run = run(other_list, other_base + low, (sum_to(counts, to) - low) as nat);
    let held_run = run(list, base + low, (sum_to(counts, to) - low) as nat);
    let moved = run(other_list, other_base + here, views[j].count());
    let held = run(list, base + here, views[j].count());
    assert forall|k: int| 0 <= k < views[j].count() implies moved[k] == held[k] by {
        assert(moved_run[here - low + k] == held_run[here - low + k]);
    }
    assert(moved =~= held);
}

/// [`slot_moved`] for every place from `from` up to `to`.
pub proof fn places_moved<State, Action, Context, Element, Inner, M>(
    views: Seq<Inner>,
    path: Seq<ViewId>,
    from: int,
    to: int,
    states: Seq<Inner::SeqState>,
    list: Seq<Element>,
    base: nat,
    other_states: Seq<Inner::SeqState>,
    other_list: Seq<Element>,
    other_base: nat,
) where
    Context: ViewPathTracker,
    Inner: ViewSequence<State, Action, Context, Element, M>,

    requires
        0 <= from <= to <= views.len(),
        forall|j: int| from <= j < to ==> other_states[j] == states[j],
        base + sum_to(
            counts_of::<State, Action, Context, Element, Inner, M>(views),
            to,
        ) <= list.len(),
        other_base + sum_to(
            counts_of::<State, Action, Context, Element, Inner, M>(views),
            to,
        ) <= other_list.len(),
        run(
            other_list,
            other_base + sum_to(
                counts_of::<State, Action, Context, Element, Inner, M>(views),
                from,
            ),
            (sum_to(
                counts_of::<State, Action, Context, Element, Inner, M>(views),
                to,
            ) - sum_to(counts_of::<State, Action, Context, Element, Inner, M>(views), from)) as nat,
        ) =~= run(
            list,
            base + sum_to(counts_of::<State, Action, Context, Element, Inner, M>(views), from),
            (sum_to(
                counts_of::<State, Action, Context, Element, Inner, M>(views),
                to,
            ) - sum_to(counts_of::<State, Action, Context, Element, Inner, M>(views), from)) as nat,
        ),
    ensures
        forall|j: int|
            from <= j < to && slot_retained::<State, Action, Context, Element, Inner, M>(
                views,
                states,
                list,
                base,
                path,
                j,
            )
                ==> #[trigger] slot_retained::<State, Action, Context, Element, Inner, M>(
                views,
                other_states,
                other_list,
                other_base,
                path,
                j,
            ),
        forall|j: int|
            from <= j < to && slot_built::<State, Action, Context, Element, Inner, M>(
                views,
                states,
                list,
                base,
                path,
                j,
            )
                ==> #[trigger] slot_built::<State, Action, Context, Element, Inner, M>(
                views,
                other_states,
                other_list,
                other_base,
                path,
                j,
            ),
{
    assert forall|j: int|
        from <= j < to && slot_retained::<State, Action, Context, Element, Inner, M>(
            views,
            states,
            list,
            base,
            path,
            j,
        ) implies #[trigger] slot_retained::<State, Action, Context, Element, Inner, M>(
        views,
        other_states,
        other_list,
        other_base,
        path,
        j,
    ) by {
        slot_moved::<State, Action, Context, Element, Inner, M>(
            views,
            path,
            from,
            to,
            states,
            list,
            base,
            other_states,
            other_list,
            other_base,
            j,
        );
    }
    assert forall|j: int|
        from <= j < to && slot_built::<State, Action, Context, Element, Inner, M>(
            views,
            states,
            list,
            base,
            path,
            j,
        ) implies #[trigger] slot_built::<State, Action, Context, Element, Inner, M>(
        views,
        other_states,
        other_list,
        other_base,
        path,
        j,
    ) by {
        slot_moved::<State, Action, Context, Element, Inner, M>(
            views,
            path,
            from,
            to,
            states,
            list,
            base,
            other_states,
            other_list,
            other_base,
            j,
        );
    }
}

/// What was rebuilt at the places from `from` up to `to` of three lists was
/// rebuilt at those places of three others that hold the same elements
/// there, beside equal states.
pub proof fn rebuilt_moved<State, Action, Context, Element, Inner, M>(
    views: Seq<Inner>,
    prevs: Seq<Inner>,
    path: Seq<ViewId>,
    origin: nat,
    from: int,
    to: int,
    states_before: Seq<Inner::SeqState>,
    states_after: Seq<Inner::SeqState>,
    before_list: Seq<Element>,
    before_base: nat,
    after_list: Seq<Element>,
    after_base: nat,
    removed_list: Seq<(usize, Element)>,
    removed_base: nat,
    other_states_before: Seq<Inner::SeqState>,
    other_states_after: Seq<Inner::SeqState>,
    other_before_list: Seq<Element>,
    other_before_base: nat,
    other_after_list: Seq<Element>,
    other_after_base: nat,
    other_removed_list: Seq<(usize, Element)>,
    other_removed_base: nat,
) where
    Context: ViewPathTracker,
    Inner: ViewSequence<State, Action, Context, Element, M>,

    requires
        0 <= from <= to <= shorter(views.len(), prevs.len()),
        forall|j: int| from <= j < to ==> other_states_before[j] == states_before[j],
        forall|j: int| from <= j < to ==> other_states_after[j] == states_after[j],
        before_base + sum_to(
            counts_of::<State, Action, Context, Element, Inner, M>(prevs),
            to,
        ) <= before_list.len(),
        other_before_base + sum_to(
            counts_of::<State, Action, Context, Element, Inner, M>(prevs),
            to,
        ) <= other_before_list.len(),
        after_base + sum_to(
            counts_of::<State, Action, Context, Element, Inner, M>(views),
            to,
        ) <= after_list.len(),
        other_after_base + sum_to(
            counts_of::<State, Action, Context, Element, Inner, M>(views),
            to,
        ) <= other_after_list.len(),
        removed_base + sum_to(
            removed_counts_of::<State, Action, Context, Element, Inner, M>(views, prevs),
            to,
        ) <= removed_list.len(),
        other_removed_base + sum_to(
            removed_counts_of::<State, Action, Context, Element, Inner, M>(views, prevs),
            to,
        ) <= other_removed_list.len(),
        run(
            other_before_list,
            other_before_base + sum_to(
                counts_of::<State, Action, Context, Element, Inner, M>(prevs),
                from,
            ),
            (sum_to(
                counts_of::<State, Action, Context, Element, Inner, M>(prevs),
                to,
            ) - sum_to(counts_of::<State, Action, Context, Element, Inner, M>(prevs), from)) as nat,
        ) =~= run(
            before_list,
            before_base + sum_to(
                counts_of::<State, Action, Context, Element, Inner, M>(prevs),
                from,
            ),
            (sum_to(
                counts_of::<State, Action, Context, Element, Inner, M>(prevs),
                to,
            ) - sum_to(counts_of::<State, Action, Context, Element, Inner, M>(prevs), from)) as nat,
        ),
        run(
            other_after_list,
            other_after_base + sum_to(
                counts_of::<State, Action, Context, Element, Inner, M>(views),
                from,
            ),
            (sum_to(
                counts_of::<State, Action, Context, Element, Inner, M>(views),
                to,
            ) - sum_to(counts_of::<State, Action, Context, Element, Inner, M>(views), from)) as nat,
        ) =~= run(
            after_list,
            after_base + sum_to(
                counts_of::<State, Action, Context, Element, Inner, M>(views),
                from,
            ),
            (sum_to(
                counts_of::<State, Action, Context, Element, Inner, M>(views),
                to,
            ) - sum_to(counts_of::<State, Action, Context, Element, Inner, M>(views), from)) as nat,
        ),
        run(
            other_removed_list,
            other_removed_base + sum_to(
                removed_counts_of::<State, Action, Context, Element, Inner, M>(views, prevs),
                from,
            ),
            (sum_to(
                removed_counts_of::<State, Action, Context, Element, Inner, M>(views, prevs),
                to,
            ) - sum_to(
                removed_counts_of::<State, Action, Context, Element, Inner, M>(views, prevs),
                from,
            )) as nat,
        ) =~= run(
            removed_list,
            removed_base + sum_to(
                removed_counts_of::<State, Action, Context, Element, Inner, M>(views, prevs),
                from,
            ),
            (sum_to(
                removed_counts_of::<State, Action, Context, Element, Inner, M>(views, prevs),
                to,
            ) - sum_to(
                removed_counts_of::<State, Action, Context, Element, Inner, M>(views, prevs),
                from,
            )) as nat,
        ),
    ensures
        forall|j: int|
            from <= j < to && slot_rebuilt::<State, Action, Context, Element, Inner, M>(
                views,
                prevs,
                states_before,
                states_after,
                path,
                origin,
                before_list,
                before_base,
                after_list,
                after_base,
                removed_list,
                removed_base,
                j,
            ) ==> #[trigger] slot_rebuilt::<State, Action, Context, Element, Inner, M>(
                views,
                prevs,
                other_states_before,
                other_states_after,
                path,
                origin,
                other_before_list,
                other_before_base,
                other_after_list,
                other_after_base,
                other_removed_list,
                other_removed_base,
                j,
            ),
{
    let counts = counts_of::<State, Action, Context, Element, Inner, M>(views);
    let prev_counts = counts_of::<State, Action, Context, Element, Inner, M>(prevs);
    let gone = removed_counts_of::<State, Action, Context, Element, Inner, M>(views, prevs);
    assert forall|j: int|
        from <= j < to && slot_rebuilt::<State, Action, Context, Element, Inner, M>(
            views,
            prevs,
            states_before,
            states_after,
            path,
            origin,
            before_list,
            before_base,
            after_list,
            after_base,
            removed_list,
            removed_base,
            j,
        ) implies #[trigger] slot_rebuilt::<State, Action, Context, Element, Inner, M>(
        views,
        prevs,
        other_states_before,
        other_states_after,
        path,
        origin,
        other_before_list,
        other_before_base,
        other_after_list,
        other_after_base,
        other_removed_list,
        other_removed_base,
        j,
    ) by {
        sum_to_grows(counts, from, j);
        sum_to_grows(counts, j + 1, to);
        sum_to_grows(prev_counts, from, j);
        sum_to_grows(prev_counts, j + 1, to);
        sum_to_grows(gone, from, j);
        sum_to_grows(gone, j + 1, to);
        assert(counts[j] == views[j].count());
        assert(prev_counts[j] == prevs[j].count());
        assert(gone[j] == views[j].removed_count(&prevs[j]));
        assert(sum_to(counts, j + 1) == sum_to(counts, j) + counts[j]);
        assert(sum_to(prev_counts, j + 1) == sum_to(prev_counts, j) + prev_counts[j]);
        assert(sum_to(gone, j + 1) == sum_to(gone, j) + gone[j]);
        same_part(
            before_list,
            before_base as int,
            other_before_list,
            other_before_base as int,
            sum_to(prev_counts, from),
            sum_to(prev_counts, to),
            sum_to(prev_counts, j),
            prevs[j].count(),
        );
        same_part(
            after_list,
            after_base as int,
            other_after_list,
            other_after_base as int,
            sum_to(counts, from),
            sum_to(counts, to),
            sum_to(counts, j),
            views[j].count(),
        );
        same_part(
            removed_list,
            removed_base as int,
            other_removed_list,
            other_removed_base as int,
            sum_to(gone, from),
            sum_to(gone, to),
            sum_to(gone, j),
            views[j].removed_count(&prevs[j]),
        );
    }
}

/// Two lists that hold the same elements over a stretch hold the same over
/// every part of it.
pub proof fn same_part<E>(
    list: Seq<E>,
    base: int,
    other_list: Seq<E>,
    other_base: int,
    low: nat,
    high: nat,
    start: nat,
    len: nat,
)
    requires
        low <= start,
        start + len <= high,
        0 <= base + low,
        0 <= other_base + low,
        base + high <= list.len(),
        other_base + high <= other_list.len(),
        run(other_list, (other_base + low) as nat, (high - low) as nat) =~= run(
            list,
            (base + low) as nat,
            (high - low) as nat,
        ),
    ensures
        run(other_list, (other_base + start) as nat, len) == run(list, (base + start) as nat, len),
{
    let moved_run = run(other_list, (other_base + low) as nat, (high - low) as nat);
    let held_run = run(list, (base + low) as nat, (high - low) as nat);
    let moved = run(other_list, (other_base + start) as nat, len);
    let held = run(list, (base + start) as nat, len);
    assert forall|k: int| 0 <= k < len implies moved[k] == held[k] by {
        assert(moved_run[start - low + k] == held_run[start - low + k]);
    }
    assert(moved =~= held);
}

/// What was torn down at the places from `from` up to `to` of two lists was
/// torn down at those places of two others that hold the same elements
/// there, beside equal states.
pub proof fn torn_moved<State, Action, Context, Element, Inner, M>(
    views: Seq<Inner>,
    path: Seq<ViewId>,
    origin: nat,
    from: int,
    to: int,
    states_before: Seq<Inner::SeqState>,
    states_after: Seq<Inner::SeqState>,
    before_list: Seq<Element>,
    before_base: nat,
    removed_list: Seq<(usize, Element)>,
    removed_base: int,
    other_states_before: Seq<Inner::SeqState>,
    other_states_after: Seq<Inner::SeqState>,
    other_before_list: Seq<Element>,
    other_before_base: nat,
    other_removed_list: Seq<(usize, Element)>,
    other_removed_base: int,
) where
    Context: ViewPathTracker,
    Inner: ViewSequence<State, Action, Context, Element, M>,

    requires
        0 <= from <= to <= views.len(),
        forall|j: int| from <= j < to ==> other_states_before[j] == states_before[j],
        forall|j: int| from <= j < to ==> other_states_after[j] == states_after[j],
        before_base + sum_to(
            counts_of::<State, Action, Context, Element, Inner, M>(views),
            to,
        ) <= before_list.len(),
        other_before_base + sum_to(
            counts_of::<State, Action, Context, Element, Inner, M>(views),
            to,
        ) <= other_before_list.len(),
        0 <= removed_base + sum_to(
            counts_of::<State, Action, Context, Element, Inner, M>(views),
            from,
        ),
        0 <= other_removed_base + sum_to(
            counts_of::<State, Action, Context, Element, Inner, M>(views),
            from,
        ),
        removed_base + sum_to(
            counts_of::<State, Action, Context, Element, Inner, M>(views),
            to,
        ) <= removed_list.len(),
        other_removed_base + sum_to(
            counts_of::<State, Action, Context, Element, Inner, M>(views),
            to,
        ) <= other_removed_list.len(),
        run(
            other_before_list,
            other_before_base + sum_to(
                counts_of::<State, Action, Context, Element, Inner, M>(views),
                from,
            ),
            (sum_to(
                counts_of::<State, Action, Context, Element, Inner, M>(views),
                to,
            ) - sum_to(counts_of::<State, Action, Context, Element, Inner, M>(views), from)) as nat,
        ) =~= run(
            before_list,
            before_base + sum_to(
                counts_of::<State, Action, Context, Element, Inner, M>(views),
                from,
            ),
            (sum_to(
                counts_of::<State, Action, Context, Element, Inner, M>(views),
                to,
            ) - sum_to(counts_of::<State, Action, Context, Element, Inner, M>(views), from)) as nat,
        ),
        run(
            other_removed_list,
            (other_removed_base + sum_to(
                counts_of::<State, Action, Context, Element, Inner, M>(views),
                from,
            )) as nat,
            (sum_to(
                counts_of::<State, Action, Context, Element, Inner, M>(views),
                to,
            ) - sum_to(counts_of::<State, Action, Context, Element, Inner, M>(views), from)) as nat,
        ) =~= run(
            removed_list,
            (removed_base + sum_to(
                counts_of::<State, Action, Context, Element, Inner, M>(views),
                from,
            )) as nat,
            (sum_to(
                counts_of::<State, Action, Context, Element, Inner, M>(views),
                to,
            ) - sum_to(counts_of::<State, Action, Context, Element, Inner, M>(views), from)) as nat,
        ),
    ensures
        forall|j: int|
            from <= j < to && slot_torn::<State, Action, Context, Element, Inner, M>(
                views,
                states_before,
                states_after,
                path,
                origin,
                before_list,
                before_base,
                removed_list,
                removed_base,
                j,
            ) ==> #[trigger] slot_torn::<State, Action, Context, Element, Inner, M>(
                views,
                other_states_before,
                other_states_after,
                path,
                origin,
                other_before_list,
                other_before_base,
                other_removed_list,
                other_removed_base,
                j,
            ),
{
    let counts = counts_of::<State, Action, Context, Element, Inner, M>(views);
    assert forall|j: int|
        from <= j < to && slot_torn::<State, Action, Context, Element, Inner, M>(
            views,
            states_before,
            states_after,
            path,
            origin,
            before_list,
            before_base,
            removed_list,
            removed_base,
            j,
        ) implies #[trigger] slot_torn::<State, Action, Context, Element, Inner, M>(
        views,
        other_states_before,
        other_states_after,
        path,
        origin,
        other_before_list,
        other_before_base,
        other_removed_list,
        other_removed_base,
        j,
    ) by {
        sum_to_grows(counts, from, j);
        sum_to_grows(counts, j + 1, to);
        assert(counts[j] == views[j].count());
        assert(sum_to(counts, j + 1) == sum_to(counts, j) + counts[j]);
        same_part(
            before_list,
            before_base as int,
            other_before_list,
            other_before_base as int,
            sum_to(counts, from),
            sum_to(counts, to),
            sum_to(counts, j),
            views[j].count(),
        );
        same_part(
            removed_list,
            removed_base,
            other_removed_list,
            other_removed_base,
            sum_to(counts, from),
            sum_to(counts, to),
            sum_to(counts, j),
            views[j].count(),
        );
    }
}

impl<State, Action, Context, Element, Inner, M> ViewSequence<
    State,
    Action,
    Context,
    Element,
    VecMarker<M>,
> for Vec<Inner> where
    Context: ViewPathTracker,
    Inner: ViewSequence<State, Action, Context, Element, M>,
 {
    type SeqState = Vec<Inner::SeqState>;

    open spec fn seq_message_requires(
        &self,
        state: Self::SeqState,
        id_path: Seq<ViewId>,
        message: DynMessage,
        app: State,
    ) -> bool {
        id_path.len() > 0 && id_path[0].0 < self@.len() && id_path[0].0 < state@.len()
            ==> self@[id_path[0].0 as int].seq_message_requires(
            state@[id_path[0].0 as int],
            id_path.subrange(1, id_path.len() as int),
            message,
            app,
        )
    }

    open spec fn seq_same(&self, prev: &Self) -> bool {
        &&& self@.len() == prev@.len()
        &&& forall|i: int| 0 <= i < self@.len() ==> (#[trigger] self@[i]).seq_same(&prev@[i])
    }

    open spec fn count(&self) -> nat {
        sum_to(
            counts_of::<State, Action, Context, Element, Inner, M>(self@),
            self@.len() as int,
        )
    }

    open spec fn seq_retained(
        &self,
        state: Self::SeqState,
        elements: Seq<Element>,
        path: Seq<ViewId>,
    ) -> bool {
        &&& state@.len() == self@.len()
        &&& elements.len() == sum_to(
            counts_of::<State, Action, Context, Element, Inner, M>(self@),
            self@.len() as int,
        )
        &&& forall|i: int|
            0 <= i < self@.len() ==> #[trigger] slot_retained::<
                State,
                Action,
                Context,
                Element,
                Inner,
                M,
            >(self@, state@, elements, 0, path, i)
    }

    open spec fn removed_count(&self, prev: &Self) -> nat {
        let common = shorter(self@.len(), prev@.len()) as int;
        (sum_to(
            removed_counts_of::<State, Action, Context, Element, Inner, M>(self@, prev@),
            common,
        ) + sum_to(
            counts_of::<State, Action, Context, Element, Inner, M>(prev@),
            prev@.len() as int,
        ) - sum_to(
            counts_of::<State, Action, Context, Element, Inner, M>(prev@),
            common,
        )) as nat
    }

    open spec fn edited_count(&self, prev: &Self) -> nat {
        sum_to(
            edited_counts_of::<State, Action, Context, Element, Inner, M>(self@, prev@),
            shorter(self@.len(), prev@.len()) as int,
        )
    }

    open spec fn rebuild_steps(&self, prev: &Self) -> Seq<Step> {
        let common = shorter(self@.len(), prev@.len()) as int;
        list_steps::<State, Action, Context, Element, Inner, M>(self@, prev@, common) + repeat(
            Step::Insert,
            (sum_to(
                counts_of::<State, Action, Context, Element, Inner, M>(self@),
                self@.len() as int,
            ) - sum_to(
                counts_of::<State, Action, Context, Element, Inner, M>(self@),
                common,
            )) as nat,
        ) + repeat(
            Step::Delete,
            (sum_to(
                counts_of::<State, Action, Context, Element, Inner, M>(prev@),
                prev@.len() as int,
            ) - sum_to(
                counts_of::<State, Action, Context, Element, Inner, M>(prev@),
                common,
            )) as nat,
        )
    }

    open spec fn seq_build_ensures(
        &self,
        state: Self::SeqState,
        path: Seq<ViewId>,
        built: Seq<Element>,
    ) -> bool {
        &&& state@.len() == self@.len()
        &&& forall|i: int|
            0 <= i < self@.len() ==> #[trigger] slot_built::<State, Action, Context, Element, Inner, M>(
                self@,
                state@,
                built,
                0,
                path,
                i,
            )
    }

    open spec fn seq_rebuild_ensures(
        &self,
        prev: &Self,
        state_before: Self::SeqState,
        state_after: Self::SeqState,
        path: Seq<ViewId>,
        origin: nat,
        before: Seq<Element>,
        after: Seq<Element>,
        removed: Seq<(usize, Element)>,
    ) -> bool {
        let common = shorter(self@.len(), prev@.len()) as int;
        &&& state_before@.len() == prev@.len()
        &&& state_after@.len() == self@.len()
        &&& forall|i: int|
            0 <= i < common ==> #[trigger] slot_rebuilt::<State, Action, Context, Element, Inner, M>(
                self@,
                prev@,
                state_before@,
                state_after@,
                path,
                origin,
                before,
                0,
                after,
                0,
                removed,
                0,
                i,
            )
        &&& forall|i: int|
            common <= i < self@.len() ==> #[trigger] slot_built::<State, Action, Context, Element, Inner, M>(
                self@,
                state_after@,
                after,
                0,
                path,
                i,
            )
        &&& exists|torn: Seq<Inner::SeqState>| #[trigger]
            slots_torn::<State, Action, Context, Element, Inner, M>(
                prev@,
                state_before@,
                torn,
                path,
                origin,
                before,
                0,
                removed,
                sum_to(
                    removed_counts_of::<State, Action, Context, Element, Inner, M>(self@, prev@),
                    common,
                ) - sum_to(counts_of::<State, Action, Context, Element, Inner, M>(prev@), common),
                common,
                prev@.len() as int,
            )
    }

    open spec fn seq_teardown_ensures(
        &self,
        state_before: Self::SeqState,
        state_after: Self::SeqState,
        path: Seq<ViewId>,
        origin: nat,
        before: Seq<Element>,
        removed: Seq<(usize, Element)>,
    ) -> bool {
        &&& state_before@.len() == self@.len()
        &&& state_after@.len() == self@.len()
        &&& slots_torn::<State, Action, Context, Element, Inner, M>(
            self@,
            state_before@,
            state_after@,
            path,
            origin,
            before,
            0,
            removed,
            0,
            0,
            self@.len() as int,
        )
    }

    open spec fn seq_message_ensures(
        &self,
        state_before: Self::SeqState,
        state_after: Self::SeqState,
        id_path: Seq<ViewId>,
        message: DynMessage,
        app: &mut State,
        app_after: State,
        result: MessageResult<Action>,
    ) -> bool {
        if id_path.len() > 0 && id_path[0].0 < self@.len() && id_path[0].0 < state_before@.len() {
            let place = id_path[0].0 as int;
            &&& state_after@.len() == state_before@.len()
            &&& forall|i: int|
                0 <= i < state_before@.len() && i != place ==> state_after@[i]
                    == state_before@[i]
            &&& self@[place].seq_message_ensures(
                state_before@[place],
                state_after@[place],
                id_path.subrange(1, id_path.len() as int),
                message,
                app,
                app_after,
                result,
            )
        } else {
            &&& result == MessageResult::<Action>::Stale(message)
            &&& app_after == *app
            &&& state_after == state_before
        }
    }

    proof fn seq_same_retained(
        &self,
        prev: &Self,
        state: Self::SeqState,
        elements: Seq<Element>,
        path: Seq<ViewId>,
    ) {
        let counts = counts_of::<State, Action, Context, Element, Inner, M>(self@);
        let prev_counts = counts_of::<State, Action, Context, Element, Inner, M>(prev@);
        assert forall|i: int| 0 <= i < self@.len() implies counts[i] == prev_counts[i]
            && self@[i].seq_retained(
            state@[i],
            run(elements, sum_to(prev_counts, i), prev@[i].count()),
            path.push(ViewId(i as u64)),
        ) by {
            assert(slot_retained::<State, Action, Context, Element, Inner, M>(
                prev@,
                state@,
                elements,
                0,
                path,
                i,
            ));
            assert(self@[i].seq_same(&prev@[i]));
            self@[i].seq_same_retained(
                &prev@[i],
                state@[i],
                run(elements, sum_to(prev_counts, i), prev@[i].count()),
                path.push(ViewId(i as u64)),
            );
        }
        assert(counts =~= prev_counts);
        assert forall|i: int| 0 <= i < self@.len() implies #[trigger] slot_retained::<
            State,
            Action,
            Context,
            Element,
            Inner,
            M,
        >(self@, state@, elements, 0, path, i) by {
            assert(counts[i] == prev_counts[i]);
            assert(counts[i] == self@[i].count());
            assert(prev_counts[i] == prev@[i].count());
        }
    }

    fn seq_same_as(&self, prev: &Self) -> (same: bool) {
        if self.len() != prev.len() {
            return false;
        }
        let mut i: usize = 0;
        while i < self.len()
            invariant
                i <= self@.len(),
                self@.len() == prev@.len(),
                forall|j: int| 0 <= j < i ==> (#[trigger] self@[j]).seq_same(&prev@[j]),
            decreases self@.len() - i,
        {
            if !self[i].seq_same_as(&prev[i]) {
                return false;
            }
            i = i + 1;
        }
        true
    }

    fn seq_build(&self, ctx: &mut Context, elements: &mut AppendVec<Element>) -> (state:
        Self::SeqState) {
        let ghost counts = counts_of::<State, Action, Context, Element, Inner, M>(self@);
        let ghost start = elements@.len();
        let ghost before = elements@;
        let ghost path = ctx.path();
        let mut states: Vec<Inner::SeqState> = Vec::new();
        let mut i: usize = 0;
        assert(elements@.subrange(0, start as int) =~= before);
        while i < self.len()
            invariant
                i <= self@.len(),
                counts == counts_of::<State, Action, Context, Element, Inner, M>(self@),
                ctx.path() == path,
                states@.len() == i,
                elements@.len() == start + sum_to(counts, i as int),
                elements@.subrange(0, start as int) == before,
                forall|j: int|
                    0 <= j < i ==> #[trigger] slot_retained::<State, Action, Context, Element, Inner, M>(
                        self@,
                        states@,
                        elements@,
                        start,
                        path,
                        j,
                    ),
                forall|j: int|
                    0 <= j < i ==> #[trigger] slot_built::<State, Action, Context, Element, Inner, M>(
                        self@,
                        states@,
                        elements@,
                        start,
                        path,
                        j,
                    ),
            decreases self@.len() - i,
        {
            let ghost prior = elements@;
            let ghost prior_states = states@;
            ctx.push_id(ViewId::new(i as u64));
            let state = self[i].seq_build(ctx, elements);
            ctx.pop_id();
            states.push(state);
            proof {
                assert(ctx.path() =~= path);
                assert(counts[i as int] == self@[i as int].count());
                assert(elements@.subrange(0, start as int) =~= prior.subrange(0, start as int));
                assert(run(elements@, start + sum_to(counts, i as int), self@[i as int].count())
                    =~= run(elements@, prior.len(), self@[i as int].count()));
                places_moved::<State, Action, Context, Element, Inner, M>(
                    self@,
                    path,
                    0,
                    i as int,
                    prior_states,
                    prior,
                    start,
                    states@,
                    elements@,
                    start,
                );
            }
            i = i + 1;
        }
        proof {
            let built = run(elements@, start, sum_to(counts, self@.len() as int));
            places_moved::<State, Action, Context, Element, Inner, M>(
                self@,
                path,
                0,
                self@.len() as int,
                states@,
                elements@,
                start,
                states@,
                built,
                0,
            );
        }
        states
    }

    fn seq_rebuild<Splice: ElementSplice<Element>>(
        &self,
        prev: &Self,
        seq_state: &mut Self::SeqState,
        ctx: &mut Context,
        elements: &mut Splice,
    ) {
        let ghost counts = counts_of::<State, Action, Context, Element, Inner, M>(self@);
        let ghost prev_counts = counts_of::<State, Action, Context, Element, Inner, M>(prev@);
        let ghost gone = removed_counts_of::<State, Action, Context, Element, Inner, M>(self@, prev@);
        let ghost changes = edited_counts_of::<State, Action, Context, Element, Inner, M>(self@, prev@);
        let ghost at = elements.cursor();
        let ghost origin = elements.origin();
        let ghost edited = elements.edited();
        let ghost taken = elements.steps();
        let ghost put_in = elements.inserted();
        let ghost before = elements.active();
        let ghost removed = elements.deleted();
        let ghost path = ctx.path();
        let ghost reported = ctx.changed();
        let ghost states = seq_state@;
        let ghost held = run(before, at, sum_to(prev_counts, prev@.len() as int));
        let common = if self.len() < prev.len() {
            self.len()
        } else {
            prev.len()
        };
        proof {
            places_moved::<State, Action, Context, Element, Inner, M>(
                prev@,
                path,
                0,
                prev@.len() as int,
                seq_state@,
                held,
                0,
                seq_state@,
                before,
                at,
            );
        }
        let mut i: usize = 0;
        while i < common
            invariant
                i <= common,
                common == shorter(self@.len(), prev@.len()),
                counts == counts_of::<State, Action, Context, Element, Inner, M>(self@),
                prev_counts == counts_of::<State, Action, Context, Element, Inner, M>(prev@),
                gone == removed_counts_of::<State, Action, Context, Element, Inner, M>(self@, prev@),
                seq_state@.len() == prev@.len(),
                states.len() == prev@.len(),
                ctx.path() == path,
                elements.wf(),
                elements.scratch().len() == 0,
                elements.cursor() == at + sum_to(counts, i as int),
                elements.origin() == origin + sum_to(prev_counts, i as int),
                changes == edited_counts_of::<State, Action, Context, Element, Inner, M>(self@, prev@),
                elements.edited() == edited + sum_to(changes, i as int),
                elements.steps() == took_all(taken, list_steps::<State, Action, Context, Element, Inner, M>(
                    self@,
                    prev@,
                    i as int,
                )),
                elements.inserted() + sum_to(prev_counts, i as int) == put_in + sum_to(counts, i as int) + sum_to(
                    gone,
                    i as int,
                ),
                at + sum_to(prev_counts, prev@.len() as int) <= before.len(),
                spliced(
                    before,
                    elements.active(),
                    at,
                    sum_to(prev_counts, i as int),
                    sum_to(counts, i as int),
                ),
                extends(removed, elements.deleted()),
                elements.deleted().len() == removed.len() + sum_to(gone, i as int),
                forall|j: int|
                    0 <= j < i ==> #[trigger] slot_retained::<State, Action, Context, Element, Inner, M>(
                        self@,
                        seq_state@,
                        elements.active(),
                        at,
                        path,
                        j,
                    ),
                forall|j: int|
                    0 <= j < i ==> #[trigger] slot_rebuilt::<State, Action, Context, Element, Inner, M>(
                        self@,
                        prev@,
                        states,
                        seq_state@,
                        path,
                        origin,
                        before,
                        at,
                        elements.active(),
                        at,
                        elements.deleted(),
                        removed.len(),
                        j,
                    ),
                forall|j: int|
                    i <= j < prev@.len() ==> #[trigger] slot_retained::<State, Action, Context, Element, Inner, M>(
                        prev@,
                        seq_state@,
                        before,
                        at,
                        path,
                        j,
                    ),
                forall|j: int| i <= j < prev@.len() ==> seq_state@[j] == states[j],
                (forall|j: int| 0 <= j < i ==> (#[trigger] self@[j]).seq_same(&prev@[j])) ==> {
                    &&& elements.active() == before
                    &&& elements.deleted() == removed
                    &&& ctx.changed() == reported
                },
            decreases common - i,
        {
            let ghost middle = elements.active();
            let ghost middle_removed = elements.deleted();
            let ghost middle_states = seq_state@;
            proof {
                sum_to_grows(prev_counts, i as int + 1, prev@.len() as int);
                assert(prev_counts[i as int] == prev@[i as int].count());
                assert(counts[i as int] == self@[i as int].count());
                assert(gone[i as int] == self@[i as int].removed_count(&prev@[i as int]));
                assert(changes[i as int] == self@[i as int].edited_count(&prev@[i as int]));
                assert(slot_retained::<State, Action, Context, Element, Inner, M>(
                    prev@,
                    seq_state@,
                    before,
                    at,
                    path,
                    i as int,
                ));
                assert(run(middle, at + sum_to(counts, i as int), prev@[i as int].count()) =~= run(
                    before,
                    at + sum_to(prev_counts, i as int),
                    prev@[i as int].count(),
                ));
            }
            ctx.push_id(ViewId::new(i as u64));
            self[i].seq_rebuild(&prev[i], &mut seq_state[i], ctx, elements);
            ctx.pop_id();
            proof {
                assert(ctx.path() =~= path);
                took_all_joined(
                    taken,
                    list_steps::<State, Action, Context, Element, Inner, M>(self@, prev@, i as int),
                    self@[i as int].rebuild_steps(&prev@[i as int]),
                );
                let after = elements.active();
                let after_removed = elements.deleted();
                spliced_twice(
                    before,
                    middle,
                    after,
                    at,
                    sum_to(prev_counts, i as int),
                    sum_to(counts, i as int),
                    prev@[i as int].count(),
                    self@[i as int].count(),
                );
                extends_twice(removed, middle_removed, after_removed);
                assert(run(
                    after_removed,
                    removed.len() + sum_to(gone, i as int),
                    self@[i as int].removed_count(&prev@[i as int]),
                ) =~= added(middle_removed, after_removed));
                assert(slot_rebuilt::<State, Action, Context, Element, Inner, M>(
                    self@,
                    prev@,
                    states,
                    seq_state@,
                    path,
                    origin,
                    before,
                    at,
                    after,
                    at,
                    after_removed,
                    removed.len(),
                    i as int,
                ));
                sum_to_grows(prev_counts, i as int, prev@.len() as int);
                places_moved::<State, Action, Context, Element, Inner, M>(
                    self@,
                    path,
                    0,
                    i as int,
                    middle_states,
                    middle,
                    at,
                    seq_state@,
                    after,
                    at,
                );
                sum_to_grows(prev_counts, i as int, prev@.len() as int);
                rebuilt_moved::<State, Action, Context, Element, Inner, M>(
                    self@,
                    prev@,
                    path,
                    origin,
                    0,
                    i as int,
                    states,
                    middle_states,
                    before,
                    at,
                    middle,
                    at,
                    middle_removed,
                    removed.len(),
                    states,
                    seq_state@,
                    before,
                    at,
                    after,
                    at,
                    after_removed,
                    removed.len(),
                );
                places_moved::<State, Action, Context, Element, Inner, M>(
                    prev@,
                    path,
                    i as int + 1,
                    prev@.len() as int,
                    middle_states,
                    before,
                    at,
                    seq_state@,
                    before,
                    at,
                );
                if forall|j: int| 0 <= j < i + 1 ==> (#[trigger] self@[j]).seq_same(&prev@[j]) {
                    assert(self@[i as int].seq_same(&prev@[i as int]));
                    assert(middle == before);
                }
            }
            i = i + 1;
        }
        if self.len() > prev.len() {
            let ghost settled = elements.deleted();
            while i < self.len()
                invariant
                    prev@.len() <= i <= self@.len(),
                    prev@.len() == shorter(self@.len(), prev@.len()),
                    counts == counts_of::<State, Action, Context, Element, Inner, M>(self@),
                    prev_counts == counts_of::<State, Action, Context, Element, Inner, M>(prev@),
                    gone == removed_counts_of::<State, Action, Context, Element, Inner, M>(self@, prev@),
                    seq_state@.len() == i,
                    states.len() == prev@.len(),
                    ctx.path() == path,
                    elements.wf(),
                    elements.scratch().len() == 0,
                    elements.cursor() == at + sum_to(counts, i as int),
                    elements.origin() == origin + sum_to(prev_counts, prev@.len() as int),
                    elements.edited() == edited + sum_to(changes, prev@.len() as int),
                    elements.steps() == took_all(taken, list_steps::<State, Action, Context, Element, Inner, M>(
                        self@,
                        prev@,
                        prev@.len() as int,
                    ))
                        + repeat(
                        Step::Insert,
                        (sum_to(counts, i as int) - sum_to(counts, prev@.len() as int)) as nat,
                    ),
                    elements.inserted() + sum_to(prev_counts, prev@.len() as int) == put_in + sum_to(
                        counts,
                        i as int,
                    ) + sum_to(gone, prev@.len() as int),
                    at + sum_to(prev_counts, prev@.len() as int) <= before.len(),
                    spliced(
                        before,
                        elements.active(),
                        at,
                        sum_to(prev_counts, prev@.len() as int),
                        sum_to(counts, i as int),
                    ),
                    elements.deleted() == settled,
                    extends(removed, settled),
                    settled.len() == removed.len() + sum_to(gone, prev@.len() as int),
                    forall|j: int|
                    0 <= j < i ==> #[trigger] slot_retained::<State, Action, Context, Element, Inner, M>(
                        self@,
                        seq_state@,
                        elements.active(),
                        at,
                        path,
                        j,
                    ),
                    forall|j: int|
                    0 <= j < prev@.len() ==> #[trigger] slot_rebuilt::<State, Action, Context, Element, Inner, M>(
                        self@,
                        prev@,
                        states,
                        seq_state@,
                        path,
                        origin,
                        before,
                        at,
                        elements.active(),
                        at,
                        settled,
                        removed.len(),
                        j,
                    ),
                    forall|j: int|
                    prev@.len() <= j < i ==> #[trigger] slot_built::<State, Action, Context, Element, Inner, M>(
                        self@,
                        seq_state@,
                        elements.active(),
                        at,
                        path,
                        j,
                    ),
                decreases self@.len() - i,
            {
                let ghost middle = elements.active();
                let ghost middle_states = seq_state@;
                ctx.push_id(ViewId::new(i as u64));
                let scratch = elements.with_scratch();
                let state = self[i].seq_build(ctx, scratch);
                ctx.pop_id();
                let ghost built = elements.scratch();
                elements.drain_scratch();
                seq_state.push(state);
                proof {
                    assert(ctx.path() =~= path);
                    sum_to_grows(counts, prev@.len() as int, i as int);
                    assert(repeat(
                        Step::Insert,
                        (sum_to(counts, i as int) - sum_to(counts, prev@.len() as int)) as nat,
                    ) + repeat(Step::Insert, self@[i as int].count()) =~= repeat(
                        Step::Insert,
                        (sum_to(counts, i as int + 1) - sum_to(counts, prev@.len() as int)) as nat,
                    ));
                    assert(counts[i as int] == self@[i as int].count());
                    let after = elements.active();
                    assert(built =~= run(built, 0, self@[i as int].count()));
                    assert(spliced(
                        middle,
                        after,
                        at + sum_to(counts, i as int),
                        0,
                        self@[i as int].count(),
                    ));
                    spliced_twice(
                        before,
                        middle,
                        after,
                        at,
                        sum_to(prev_counts, prev@.len() as int),
                        sum_to(counts, i as int),
                        0,
                        self@[i as int].count(),
                    );
                    assert(run(after, at + sum_to(counts, i as int), self@[i as int].count())
                        =~= built);
                    places_moved::<State, Action, Context, Element, Inner, M>(
                        self@,
                        path,
                        0,
                        i as int,
                        middle_states,
                        middle,
                        at,
                        seq_state@,
                        after,
                        at,
                    );
                    sum_to_grows(counts, prev@.len() as int, i as int);
                    rebuilt_moved::<State, Action, Context, Element, Inner, M>(
                        self@,
                        prev@,
                        path,
                        origin,
                        0,
                        prev@.len() as int,
                        states,
                        middle_states,
                        before,
                        at,
                        middle,
                        at,
                        settled,
                        removed.len(),
                        states,
                        seq_state@,
                        before,
                        at,
                        after,
                        at,
                        settled,
                        removed.len(),
                    );
                    assert forall|j: int| prev@.len() <= j < i + 1 implies #[trigger] slot_built::<State, Action, Context, Element, Inner, M>(
                        self@,
                        seq_state@,
                        after,
                        at,
                        path,
                        j,
                    ) by {
                        if j < i {
                            assert(slot_built::<State, Action, Context, Element, Inner, M>(
                                self@,
                                middle_states,
                                middle,
                                at,
                                path,
                                j,
                            ));
                        }
                    }
                }
                i = i + 1;
            }
            proof {
                let after = elements.active();
                let kept_run = run(after, at, sum_to(counts, self@.len() as int));
                let gone_run = added(removed, settled);
                let common_steps = list_steps::<State, Action, Context, Element, Inner, M>(
                    self@,
                    prev@,
                    prev@.len() as int,
                );
                let put = repeat(
                    Step::Insert,
                    (sum_to(counts, self@.len() as int) - sum_to(counts, prev@.len() as int)) as nat,
                );
                took_all_joined(taken, common_steps, put);
                took_all_plain(took_all(taken, common_steps), put);
                assert(common_steps + put + repeat(Step::Delete, 0) =~= common_steps + put);
                places_moved::<State, Action, Context, Element, Inner, M>(
                    self@,
                    path,
                    0,
                    self@.len() as int,
                    seq_state@,
                    after,
                    at,
                    seq_state@,
                    kept_run,
                    0,
                );
                sum_to_grows(counts, prev@.len() as int, self@.len() as int);
                rebuilt_moved::<State, Action, Context, Element, Inner, M>(
                    self@,
                    prev@,
                    path,
                    origin,
                    0,
                    prev@.len() as int,
                    states,
                    seq_state@,
                    before,
                    at,
                    after,
                    at,
                    settled,
                    removed.len(),
                    states,
                    seq_state@,
                    held,
                    0,
                    kept_run,
                    0,
                    gone_run,
                    0,
                );
                assert(slots_torn::<State, Action, Context, Element, Inner, M>(
                    prev@,
                    states,
                    seq_state@,
                    path,
                    origin,
                    held,
                    0,
                    gone_run,
                    sum_to(gone, prev@.len() as int) - sum_to(prev_counts, prev@.len() as int),
                    prev@.len() as int,
                    prev@.len() as int,
                ));
            }
        } else {
            let ghost settled = elements.active();
            let ghost settled_removed = elements.deleted();
            let ghost settled_reported = ctx.changed();
            let kept = self.len();
            let ghost total = sum_to(counts, kept as int);
            let ghost torn_base = removed.len() + sum_to(gone, kept as int) - sum_to(
                prev_counts,
                kept as int,
            );
            while i < prev.len()
                invariant
                    kept == self@.len(),
                    kept <= i <= prev@.len(),
                    kept == shorter(self@.len(), prev@.len()),
                    counts == counts_of::<State, Action, Context, Element, Inner, M>(self@),
                    prev_counts == counts_of::<State, Action, Context, Element, Inner, M>(prev@),
                    gone == removed_counts_of::<State, Action, Context, Element, Inner, M>(self@, prev@),
                    total == sum_to(counts, kept as int),
                    torn_base == removed.len() + sum_to(gone, kept as int) - sum_to(
                        prev_counts,
                        kept as int,
                    ),
                    seq_state@.len() == prev@.len(),
                    states.len() == prev@.len(),
                    ctx.path() == path,
                    elements.wf(),
                    elements.scratch().len() == 0,
                    elements.cursor() == at + total,
                    elements.origin() == origin + sum_to(prev_counts, i as int),
                    elements.edited() == edited + sum_to(changes, kept as int),
                    elements.steps() == took_all(taken, list_steps::<State, Action, Context, Element, Inner, M>(
                        self@,
                        prev@,
                        kept as int,
                    )) + repeat(
                        Step::Delete,
                        (sum_to(prev_counts, i as int) - sum_to(prev_counts, kept as int)) as nat,
                    ),
                    elements.inserted() + sum_to(prev_counts, kept as int) == put_in + total + sum_to(
                        gone,
                        kept as int,
                    ),
                    at + sum_to(prev_counts, prev@.len() as int) <= before.len(),
                    spliced(before, elements.active(), at, sum_to(prev_counts, i as int), total),
                    extends(removed, elements.deleted()),
                    elements.deleted().len() == torn_base + sum_to(prev_counts, i as int),
                    self@.len() == prev@.len() ==> {
                        &&& elements.active() == settled
                        &&& elements.deleted() == settled_removed
                        &&& ctx.changed() == settled_reported
                    },
                    forall|j: int|
                    0 <= j < kept ==> #[trigger] slot_retained::<State, Action, Context, Element, Inner, M>(
                        self@,
                        seq_state@,
                        elements.active(),
                        at,
                        path,
                        j,
                    ),
                    forall|j: int|
                    0 <= j < kept ==> #[trigger] slot_rebuilt::<State, Action, Context, Element, Inner, M>(
                        self@,
                        prev@,
                        states,
                        seq_state@,
                        path,
                        origin,
                        before,
                        at,
                        elements.active(),
                        at,
                        elements.deleted(),
                        removed.len(),
                        j,
                    ),
                    forall|j: int|
                    i <= j < prev@.len() ==> #[trigger] slot_retained::<State, Action, Context, Element, Inner, M>(
                        prev@,
                        seq_state@,
                        before,
                        at,
                        path,
                        j,
                    ),
                    forall|j: int| i <= j < prev@.len() ==> seq_state@[j] == states[j],
                    forall|j: int|
                    kept <= j < i ==> #[trigger] slot_torn::<State, Action, Context, Element, Inner, M>(
                        prev@,
                        states,
                        seq_state@,
                        path,
                        origin,
                        before,
                        at,
                        elements.deleted(),
                        torn_base,
                        j,
                    ),
                decreases prev@.len() - i,
            {
                let ghost middle = elements.active();
                let ghost middle_removed = elements.deleted();
                let ghost middle_states = seq_state@;
                proof {
                    sum_to_grows(prev_counts, i as int + 1, prev@.len() as int);
                    sum_to_grows(prev_counts, kept as int, i as int);
                    assert(prev_counts[i as int] == prev@[i as int].count());
                    assert(slot_retained::<State, Action, Context, Element, Inner, M>(
                        prev@,
                        seq_state@,
                        before,
                        at,
                        path,
                        i as int,
                    ));
                    assert(run(middle, at + total, prev@[i as int].count()) =~= run(
                        before,
                        at + sum_to(prev_counts, i as int),
                        prev@[i as int].count(),
                    ));
                }
                ctx.push_id(ViewId::new(i as u64));
                prev[i].seq_teardown(&mut seq_state[i], ctx, elements);
                ctx.pop_id();
                proof {
                    assert(ctx.path() =~= path);
                    assert(repeat(
                        Step::Delete,
                        (sum_to(prev_counts, i as int) - sum_to(prev_counts, kept as int)) as nat,
                    ) + repeat(Step::Delete, prev@[i as int].count()) =~= repeat(
                        Step::Delete,
                        (sum_to(prev_counts, i as int + 1) - sum_to(prev_counts, kept as int)) as nat,
                    ));
                    let after = elements.active();
                    let after_removed = elements.deleted();
                    spliced_twice(
                        before,
                        middle,
                        after,
                        at,
                        sum_to(prev_counts, i as int),
                        total,
                        prev@[i as int].count(),
                        0,
                    );
                    extends_twice(removed, middle_removed, after_removed);
                    assert(run(
                        after_removed,
                        (torn_base + sum_to(prev_counts, i as int)) as nat,
                        prev@[i as int].count(),
                    ) =~= added(middle_removed, after_removed));
                    assert(slot_torn::<State, Action, Context, Element, Inner, M>(
                        prev@,
                        states,
                        seq_state@,
                        path,
                        origin,
                        before,
                        at,
                        after_removed,
                        torn_base,
                        i as int,
                    ));
                    sum_to_grows(prev_counts, kept as int, prev@.len() as int);
                    places_moved::<State, Action, Context, Element, Inner, M>(
                        self@,
                        path,
                        0,
                        kept as int,
                        middle_states,
                        middle,
                        at,
                        seq_state@,
                        after,
                        at,
                    );
                    sum_to_grows(prev_counts, kept as int, prev@.len() as int);
                    rebuilt_moved::<State, Action, Context, Element, Inner, M>(
                        self@,
                        prev@,
                        path,
                        origin,
                        0,
                        kept as int,
                        states,
                        middle_states,
                        before,
                        at,
                        middle,
                        at,
                        middle_removed,
                        removed.len(),
                        states,
                        seq_state@,
                        before,
                        at,
                        after,
                        at,
                        after_removed,
                        removed.len(),
                    );
                    places_moved::<State, Action, Context, Element, Inner, M>(
                        prev@,
                        path,
                        i as int + 1,
                        prev@.len() as int,
                        middle_states,
                        before,
                        at,
                        seq_state@,
                        before,
                        at,
                    );
                    sum_to_grows(prev_counts, i as int, prev@.len() as int);
                    torn_moved::<State, Action, Context, Element, Inner, M>(
                        prev@,
                        path,
                        origin,
                        kept as int,
                        i as int,
                        states,
                        middle_states,
                        before,
                        at,
                        middle_removed,
                        torn_base,
                        states,
                        seq_state@,
                        before,
                        at,
                        after_removed,
                        torn_base,
                    );
                }
                i = i + 1;
            }
            let ghost full_states = seq_state@;
            seq_state.truncate(kept);
            proof {
                let after = elements.active();
                let after_removed = elements.deleted();
                let kept_run = run(after, at, total);
                let common_steps = list_steps::<State, Action, Context, Element, Inner, M>(
                    self@,
                    prev@,
                    kept as int,
                );
                let dropped = repeat(
                    Step::Delete,
                    (sum_to(prev_counts, prev@.len() as int) - sum_to(prev_counts, kept as int)) as nat,
                );
                took_all_joined(taken, common_steps, dropped);
                took_all_plain(took_all(taken, common_steps), dropped);
                assert(common_steps + repeat(Step::Insert, 0) + dropped =~= common_steps + dropped);
                let gone_run = added(removed, after_removed);
                sum_to_grows(prev_counts, kept as int, prev@.len() as int);
                places_moved::<State, Action, Context, Element, Inner, M>(
                    self@,
                    path,
                    0,
                    self@.len() as int,
                    full_states,
                    after,
                    at,
                    seq_state@,
                    kept_run,
                    0,
                );
                sum_to_grows(prev_counts, kept as int, prev@.len() as int);
                rebuilt_moved::<State, Action, Context, Element, Inner, M>(
                    self@,
                    prev@,
                    path,
                    origin,
                    0,
                    kept as int,
                    states,
                    full_states,
                    before,
                    at,
                    after,
                    at,
                    after_removed,
                    removed.len(),
                    states,
                    seq_state@,
                    held,
                    0,
                    kept_run,
                    0,
                    gone_run,
                    0,
                );
                torn_moved::<State, Action, Context, Element, Inner, M>(
                    prev@,
                    path,
                    origin,
                    kept as int,
                    prev@.len() as int,
                    states,
                    full_states,
                    before,
                    at,
                    after_removed,
                    torn_base,
                    states,
                    full_states,
                    held,
                    0,
                    gone_run,
                    sum_to(gone, kept as int) - sum_to(prev_counts, kept as int),
                );
                assert(slots_torn::<State, Action, Context, Element, Inner, M>(
                    prev@,
                    states,
                    full_states,
                    path,
                    origin,
                    held,
                    0,
                    gone_run,
                    sum_to(gone, kept as int) - sum_to(prev_counts, kept as int),
                    kept as int,
                    prev@.len() as int,
                ));
            }
        }
    }

    fn seq_teardown<Splice: ElementSplice<Element>>(
        &self,
        seq_state: &mut Self::SeqState,
        ctx: &mut Context,
        elements: &mut Splice,
    ) {
        let ghost counts = counts_of::<State, Action, Context, Element, Inner, M>(self@);
        let ghost at = elements.cursor();
        let ghost origin = elements.origin();
        let ghost edited = elements.edited();
        let ghost taken = elements.steps();
        let ghost put_in = elements.inserted();
        let ghost before = elements.active();
        let ghost removed = elements.deleted();
        let ghost path = ctx.path();
        let ghost states = seq_state@;
        let ghost held = run(before, at, sum_to(counts, self@.len() as int));
        proof {
            places_moved::<State, Action, Context, Element, Inner, M>(
                self@,
                path,
                0,
                self@.len() as int,
                seq_state@,
                held,
                0,
                seq_state@,
                before,
                at,
            );
        }
        let mut i: usize = 0;
        while i < self.len()
            invariant
                i <= self@.len(),
                counts == counts_of::<State, Action, Context, Element, Inner, M>(self@),
                seq_state@.len() == self@.len(),
                states.len() == self@.len(),
                ctx.path() == path,
                elements.wf(),
                elements.scratch() == old(elements).scratch(),
                elements.cursor() == at,
                elements.origin() == origin + sum_to(counts, i as int),
                elements.edited() == edited,
                elements.steps() == taken + repeat(Step::Delete, sum_to(counts, i as int)),
                elements.inserted() == put_in,
                at + sum_to(counts, self@.len() as int) <= before.len(),
                spliced(before, elements.active(), at, sum_to(counts, i as int), 0),
                extends(removed, elements.deleted()),
                elements.deleted().len() == removed.len() + sum_to(counts, i as int),
                forall|j: int|
                    i <= j < self@.len() ==> #[trigger] slot_retained::<State, Action, Context, Element, Inner, M>(
                        self@,
                        seq_state@,
                        before,
                        at,
                        path,
                        j,
                    ),
                forall|j: int| i <= j < self@.len() ==> seq_state@[j] == states[j],
                forall|j: int|
                    0 <= j < i ==> #[trigger] slot_torn::<State, Action, Context, Element, Inner, M>(
                        self@,
                        states,
                        seq_state@,
                        path,
                        origin,
                        before,
                        at,
                        elements.deleted(),
                        removed.len() as int,
                        j,
                    ),
            decreases self@.len() - i,
        {
            let ghost middle = elements.active();
            let ghost middle_removed = elements.deleted();
            let ghost middle_states = seq_state@;
            proof {
                sum_to_grows(counts, i as int + 1, self@.len() as int);
                assert(counts[i as int] == self@[i as int].count());
                assert(slot_retained::<State, Action, Context, Element, Inner, M>(
                    self@,
                    seq_state@,
                    before,
                    at,
                    path,
                    i as int,
                ));
                assert(run(middle, at, self@[i as int].count()) =~= run(
                    before,
                    at + sum_to(counts, i as int),
                    self@[i as int].count(),
                ));
            }
            ctx.push_id(ViewId::new(i as u64));
            self[i].seq_teardown(&mut seq_state[i], ctx, elements);
            ctx.pop_id();
            proof {
                assert(ctx.path() =~= path);
                assert(repeat(Step::Delete, sum_to(counts, i as int)) + repeat(
                    Step::Delete,
                    self@[i as int].count(),
                ) =~= repeat(Step::Delete, sum_to(counts, i as int + 1)));
                let after_removed = elements.deleted();
                spliced_twice(
                    before,
                    middle,
                    elements.active(),
                    at,
                    sum_to(counts, i as int),
                    0,
                    self@[i as int].count(),
                    0,
                );
                extends_twice(removed, middle_removed, after_removed);
                assert(run(
                    after_removed,
                    (removed.len() + sum_to(counts, i as int)) as nat,
                    self@[i as int].count(),
                ) =~= added(middle_removed, after_removed));
                assert(slot_torn::<State, Action, Context, Element, Inner, M>(
                    self@,
                    states,
                    seq_state@,
                    path,
                    origin,
                    before,
                    at,
                    after_removed,
                    removed.len() as int,
                    i as int,
                ));
                places_moved::<State, Action, Context, Element, Inner, M>(
                    self@,
                    path,
                    i as int + 1,
                    self@.len() as int,
                    middle_states,
                    before,
                    at,
                    seq_state@,
                    before,
                    at,
                );
                sum_to_grows(counts, i as int, self@.len() as int);
                torn_moved::<State, Action, Context, Element, Inner, M>(
                    self@,
                    path,
                    origin,
                    0,
                    i as int,
                    states,
                    middle_states,
                    before,
                    at,
                    middle_removed,
                    removed.len() as int,
                    states,
                    seq_state@,
                    before,
                    at,
                    after_removed,
                    removed.len() as int,
                );
            }
            i = i + 1;
        }
        proof {
            let after_removed = elements.deleted();
            let gone_run = added(removed, after_removed);
            torn_moved::<State, Action, Context, Element, Inner, M>(
                self@,
                path,
                origin,
                0,
                self@.len() as int,
                states,
                seq_state@,
                before,
                at,
                after_removed,
                removed.len() as int,
                states,
                seq_state@,
                held,
                0,
                gone_run,
                0,
            );
        }
    }

    fn seq_message(
        &self,
        seq_state: &mut Self::SeqState,
        id_path: &[ViewId],
        message: DynMessage,
        app_state: &mut State,
    ) -> (result: MessageResult<Action>) {
        let ghost sent = message;
        if id_path.len() == 0 {
            let result = MessageResult::Stale(message);
            proof {
                assert(<Self as ViewSequence<State, Action, Context, Element, VecMarker<M>>>::seq_message_ensures(
                    self,
                    *old(seq_state),
                    *seq_state,
                    id_path@,
                    sent,
                    old(app_state),
                    *app_state,
                    result,
                ));
            }
            return result;
        }
        let head = id_path[0].routing_id();
        if head >= self.len() as u64 || head >= seq_state.len() as u64 {
            let result = MessageResult::Stale(message);
            proof {
                assert(<Self as ViewSequence<State, Action, Context, Element, VecMarker<M>>>::seq_message_ensures(
                    self,
                    *old(seq_state),
                    *seq_state,
                    id_path@,
                    sent,
                    old(app_state),
                    *app_state,
                    result,
                ));
            }
            return result;
        }
        let place = head as usize;
        let rest = slice_subrange(id_path, 1, id_path.len());
        let result = self[place].seq_message(&mut seq_state[place], rest, message, app_state);
        proof {
            let app = choose|app: &mut State|
                mut_ref_current(app) == *old(app_state) && mut_ref_future(app) == *app_state
                    && #[trigger] self@[place as int].seq_message_ensures(
                        old(seq_state)@[place as int],
                        seq_state@[place as int],
                        rest@,
                        sent,
                        app,
                        *app_state,
                        result,
                    );
            assert(<Self as ViewSequence<State, Action, Context, Element, VecMarker<M>>>::seq_message_ensures(
                self,
                *old(seq_state),
                *seq_state,
                id_path@,
                sent,
                app,
                *app_state,
                result,
            ));
        }
        result
    }
}

} // verus!
