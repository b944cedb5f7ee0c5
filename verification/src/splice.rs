//! The cursor through which a sequence of views edits the list of elements
//! that its parent keeps.

use vstd::prelude::*;
use vstd::view::View as _;

verus! {

/// A list that the holder of a mutable reference can only add to.
pub struct AppendVec<T> {
    inner: Vec<T>,
}

impl<T> vstd::view::View for AppendVec<T> {
    type V = Seq<T>;

    closed spec fn view(&self) -> Seq<T> {
        self.inner@
    }
}

impl<T> AppendVec<T> {
    /// An empty list.
    pub fn new() -> (list: AppendVec<T>)
        ensures
            list@ == Seq::<T>::empty(),
    {
        AppendVec { inner: Vec::new() }
    }

    /// Adds `item` at the end.
    pub fn push(&mut self, item: T)
        ensures
            final(self)@ == old(self)@.push(item),
    {
        self.inner.push(item);
    }

    /// The number of items.
    pub fn len(&self) -> (len: usize)
        ensures
            len == self@.len(),
    {
        self.inner.len()
    }

    /// Whether the list holds no item.
    pub fn is_empty(&self) -> (empty: bool)
        ensures
            empty == (self@.len() == 0),
    {
        self.inner.len() == 0
    }

    /// The items, in the order they were added.
    pub fn into_inner(self) -> (items: Vec<T>)
        ensures
            items@ == self@,
    {
        self.inner
    }

    /// Takes the items out, in the order they were added, and leaves the list
    /// empty.
    pub fn drain(&mut self) -> (items: Vec<T>)
        ensures
            items@ == old(self)@,
            final(self)@ == Seq::<T>::empty(),
    {
        let mut items: Vec<T> = Vec::new();
        std::mem::swap(&mut self.inner, &mut items);
        items
    }
}

/// One step of a cursor, as the contracts speak of it.
pub enum Step {
    /// An element was put into the list.
    Insert,
    /// An element was handed out for editing.
    Mutate,
    /// So many elements were stepped past.
    Skip(nat),
    /// An element was removed.
    Delete,
}

/// `steps` with `step` added. Steps past elements that follow one another
/// count as one step past all of them.
pub open spec fn took(steps: Seq<Step>, step: Step) -> Seq<Step> {
    if steps.len() > 0 {
        match (steps.last(), step) {
            (Step::Skip(before), Step::Skip(more)) => steps.drop_last().push(
                Step::Skip(before + more),
            ),
            _ => steps.push(step),
        }
    } else {
        steps.push(step)
    }
}

/// `steps` with each of `more` added in turn.
pub open spec fn took_all(steps: Seq<Step>, more: Seq<Step>) -> Seq<Step>
    decreases more.len(),
{
    if more.len() == 0 {
        steps
    } else {
        took(took_all(steps, more.drop_last()), more.last())
    }
}

/// `count` times the step `step`.
pub open spec fn repeat(step: Step, count: nat) -> Seq<Step> {
    Seq::new(count, |i: int| step)
}

/// Adding the steps of two lists in turn is adding those of the two put
/// together.
pub proof fn took_all_joined(steps: Seq<Step>, first: Seq<Step>, second: Seq<Step>)
    ensures
        took_all(steps, first + second) == took_all(took_all(steps, first), second),
    decreases second.len(),
{
    if second.len() == 0 {
        assert(first + second =~= first);
    } else {
        took_all_joined(steps, first, second.drop_last());
        assert((first + second).drop_last() =~= first + second.drop_last());
        assert((first + second).last() == second.last());
    }
}

/// Steps of which none is a step past elements are added as they are.
pub proof fn took_all_plain(steps: Seq<Step>, more: Seq<Step>)
    requires
        forall|i: int| 0 <= i < more.len() ==> !(more[i] is Skip),
    ensures
        took_all(steps, more) == steps + more,
    decreases more.len(),
{
    if more.len() == 0 {
        assert(steps + more =~= steps);
    } else {
        took_all_plain(steps, more.drop_last());
        assert(!(more[more.len() - 1] is Skip));
        assert(steps + more =~= (steps + more.drop_last()).push(more.last()));
    }
}

/// One step is added as it is taken.
pub proof fn took_all_one(steps: Seq<Step>, step: Step)
    ensures
        took_all(steps, seq![step]) == took(steps, step),
{
    assert(seq![step].drop_last() =~= Seq::<Step>::empty());
    assert(took_all(steps, Seq::<Step>::empty()) == steps);
}

/// A cursor into the list of live elements of a parent. A sequence of views
/// walks the list once, front to back, and at each of its children keeps the
/// element, edits it, removes it or puts new ones in.
pub trait ElementSplice<Element> {
    /// The live elements, in order.
    spec fn active(&self) -> Seq<Element>;

    /// The position of the cursor: the elements before it have been dealt
    /// with.
    spec fn cursor(&self) -> nat;

    /// The place, in the list as it was before the pass, at which the cursor
    /// stands: the number of elements of that list that it has stepped past,
    /// handed out or removed. Elements put in during the pass do not count.
    spec fn origin(&self) -> nat;

    /// The steps that the cursor has taken during the pass, in their order.
    spec fn steps(&self) -> Seq<Step>;

    /// The number of elements handed out for editing during the pass.
    spec fn edited(&self) -> nat;

    /// The number of elements put into the list during the pass.
    spec fn inserted(&self) -> nat;

    /// The elements removed so far, oldest first, each with the place it had
    /// in the list before the pass that removed it.
    spec fn deleted(&self) -> Seq<(usize, Element)>;

    /// The elements waiting in the scratch list.
    spec fn scratch(&self) -> Seq<Element>;

    /// Whether the cursor lies within the list.
    spec fn wf(&self) -> bool;

    /// Puts `element` into the list at the cursor and steps past it.
    fn insert(&mut self, element: Element)
        requires
            old(self).wf(),
        ensures
            final(self).wf(),
            final(self).active() == old(self).active().insert(old(self).cursor() as int, element),
            final(self).cursor() == old(self).cursor() + 1,
            final(self).origin() == old(self).origin(),
            final(self).steps() == old(self).steps().push(Step::Insert),
            final(self).edited() == old(self).edited(),
            final(self).inserted() == old(self).inserted() + 1,
            final(self).deleted() == old(self).deleted(),
            final(self).scratch() == old(self).scratch(),
    ;

    /// Hands out the element at the cursor for editing and steps past it.
    fn mutate(&mut self) -> (element: &mut Element)
        requires
            old(self).wf(),
            old(self).cursor() < old(self).active().len(),
        ensures
            *element == old(self).active()[old(self).cursor() as int],
            final(self).wf(),
            final(self).active() == old(self).active().update(
                old(self).cursor() as int,
                *final(element),
            ),
            final(self).cursor() == old(self).cursor() + 1,
            final(self).origin() == old(self).origin() + 1,
            final(self).steps() == old(self).steps().push(Step::Mutate),
            final(self).edited() == old(self).edited() + 1,
            final(self).inserted() == old(self).inserted(),
            final(self).deleted() == old(self).deleted(),
            final(self).scratch() == old(self).scratch(),
    ;

    /// Steps past `n` elements without looking at them.
    fn skip(&mut self, n: usize)
        requires
            old(self).wf(),
            old(self).cursor() + n <= old(self).active().len(),
        ensures
            final(self).wf(),
            final(self).active() == old(self).active(),
            final(self).cursor() == old(self).cursor() + n,
            final(self).origin() == old(self).origin() + n,
            final(self).steps() == took(old(self).steps(), Step::Skip(n as nat)),
            final(self).edited() == old(self).edited(),
            final(self).inserted() == old(self).inserted(),
            final(self).deleted() == old(self).deleted(),
            final(self).scratch() == old(self).scratch(),
    ;

    /// Takes the element at the cursor out of the list and keeps it at the end
    /// of the removed ones, with the place it had in the list before the
    /// pass. The element is handed out so that it can be torn down. The
    /// cursor stays.
    fn delete(&mut self) -> (element: &mut Element)
        requires
            old(self).wf(),
            old(self).cursor() < old(self).active().len(),
        ensures
            *element == old(self).active()[old(self).cursor() as int],
            final(self).wf(),
            final(self).active() == old(self).active().remove(old(self).cursor() as int),
            final(self).cursor() == old(self).cursor(),
            final(self).origin() == old(self).origin() + 1,
            final(self).steps() == old(self).steps().push(Step::Delete),
            final(self).edited() == old(self).edited(),
            final(self).inserted() == old(self).inserted(),
            final(self).deleted() == old(self).deleted().push(
                (old(self).origin() as usize, *final(element)),
            ),
            final(self).scratch() == old(self).scratch(),
    ;

    /// Hands out the scratch list, for elements that are built before their
    /// place in the list is known.
    fn with_scratch(&mut self) -> (scratch: &mut AppendVec<Element>)
        requires
            old(self).wf(),
        ensures
            scratch@ == old(self).scratch(),
            final(self).wf(),
            final(self).active() == old(self).active(),
            final(self).cursor() == old(self).cursor(),
            final(self).origin() == old(self).origin(),
            final(self).steps() == old(self).steps(),
            final(self).edited() == old(self).edited(),
            final(self).inserted() == old(self).inserted(),
            final(self).deleted() == old(self).deleted(),
            final(self).scratch() == final(scratch)@,
    ;

    /// Moves the elements of the scratch list into the list at the cursor, in
    /// the order they were added, and steps past them.
    fn drain_scratch(&mut self)
        requires
            old(self).wf(),
        ensures
            final(self).wf(),
            final(self).active() == old(self).active().subrange(0, old(self).cursor() as int)
                + old(self).scratch() + old(self).active().subrange(
                old(self).cursor() as int,
                old(self).active().len() as int,
            ),
            final(self).cursor() == old(self).cursor() + old(self).scratch().len(),
            final(self).origin() == old(self).origin(),
            final(self).steps() == old(self).steps() + repeat(Step::Insert, old(self).scratch().len()),
            final(self).edited() == old(self).edited(),
            final(self).inserted() == old(self).inserted() + old(self).scratch().len(),
            final(self).deleted() == old(self).deleted(),
            final(self).scratch() == Seq::<Element>::empty(),
    ;
}

/// The elements of a parent: those that are live, in order, and those that
/// were removed, each with the place it had in the list before the pass that
/// removed it.
pub struct SeqChildren<E> {
    /// The live elements.
    pub active: Vec<E>,
    /// The removed elements, oldest first.
    pub deleted: Vec<(usize, E)>,
}

/// What can be observed of a [`SeqChildren`].
pub struct SeqChildrenView<E> {
    /// The live elements.
    pub active: Seq<E>,
    /// The removed elements, oldest first.
    pub deleted: Seq<(usize, E)>,
}

impl<E> vstd::view::View for SeqChildren<E> {
    type V = SeqChildrenView<E>;

    open spec fn view(&self) -> SeqChildrenView<E> {
        SeqChildrenView { active: self.active@, deleted: self.deleted@ }
    }
}

impl<E> SeqChildren<E> {
    /// A parent without elements.
    pub fn new() -> (children: SeqChildren<E>)
        ensures
            children.active@ == Seq::<E>::empty(),
            children.deleted@ == Seq::<(usize, E)>::empty(),
    {
        SeqChildren { active: Vec::new(), deleted: Vec::new() }
    }
}

/// The cursor over a [`SeqChildren`]. It is made for one pass: it takes the
/// elements and the scratch list for the length of the pass and gives them
/// back at its end.
pub struct SeqTracker<E> {
    /// The list for elements that are built ahead of their place.
    pub scratch: AppendVec<E>,
    /// The position of the cursor.
    pub ix: usize,
    /// The place of the cursor in the list as it was before the pass.
    pub origin: usize,
    /// The steps taken during the pass.
    pub steps: Ghost<Seq<Step>>,
    /// The number of elements handed out for editing during the pass.
    pub edited: Ghost<nat>,
    /// The number of elements put into the list during the pass.
    pub inserted: Ghost<nat>,
    /// The elements being edited.
    pub inner: SeqChildren<E>,
}

impl<E> SeqTracker<E> {
    /// A cursor at the front of `inner`.
    pub fn new(inner: SeqChildren<E>, scratch: AppendVec<E>) -> (tracker: SeqTracker<E>)
        ensures
            tracker.inner == inner,
            tracker.scratch == scratch,
            tracker.ix == 0,
            tracker.origin == 0,
            tracker.steps@ == Seq::<Step>::empty(),
            tracker.edited@ == 0,
            tracker.inserted@ == 0,
            tracker.wf(),
    {
        SeqTracker {
            scratch,
            ix: 0,
            origin: 0,
            steps: Ghost(Seq::empty()),
            edited: Ghost(0),
            inserted: Ghost(0),
            inner,
        }
    }
}

impl<E> ElementSplice<E> for SeqTracker<E> {
    open spec fn active(&self) -> Seq<E> {
        self.inner.active@
    }

    open spec fn cursor(&self) -> nat {
        self.ix as nat
    }

    open spec fn origin(&self) -> nat {
        self.origin as nat
    }

    open spec fn steps(&self) -> Seq<Step> {
        self.steps@
    }

    open spec fn edited(&self) -> nat {
        self.edited@
    }

    open spec fn inserted(&self) -> nat {
        self.inserted@
    }

    open spec fn deleted(&self) -> Seq<(usize, E)> {
        self.inner.deleted@
    }

    open spec fn scratch(&self) -> Seq<E> {
        self.scratch@
    }

    open spec fn wf(&self) -> bool {
        &&& self.ix <= self.inner.active.len()
        &&& self.origin + (self.inner.active.len() - self.ix) <= usize::MAX
    }

    fn insert(&mut self, element: E) {
        let ix = self.ix;
        self.inner.active.insert(ix, element);
        assert(ix < self.inner.active.len());
        self.ix = ix + 1;
        self.inserted = Ghost(self.inserted@ + 1);
        self.steps = Ghost(self.steps@.push(Step::Insert));
    }

    fn mutate(&mut self) -> (element: &mut E) {
        let ix = self.ix;
        self.ix = ix + 1;
        self.origin = self.origin + 1;
        self.edited = Ghost(self.edited@ + 1);
        self.steps = Ghost(self.steps@.push(Step::Mutate));
        &mut self.inner.active[ix]
    }

    fn skip(&mut self, n: usize) {
        self.ix = self.ix + n;
        self.origin = self.origin + n;
        self.steps = Ghost(took(self.steps@, Step::Skip(n as nat)));
    }

    fn delete(&mut self) -> (element: &mut E) {
        let ix = self.ix;
        let origin = self.origin;
        let removed = self.inner.active.remove(ix);
        self.inner.deleted.push((origin, removed));
        self.origin = origin + 1;
        self.steps = Ghost(self.steps@.push(Step::Delete));
        let last = self.inner.deleted.len() - 1;
        &mut self.inner.deleted[last].1
    }

    fn with_scratch(&mut self) -> (scratch: &mut AppendVec<E>) {
        &mut self.scratch
    }

    fn drain_scratch(&mut self) {
        let mut items = self.scratch.drain();
        let ghost before = self.inner.active@;
        let ghost all = items@;
        let ix = self.ix;
        let count = items.len();
        while items.len() > 0
            invariant
                ix <= before.len(),
                items@ == all.subrange(0, items@.len() as int),
                items@.len() <= all.len(),
                self.inner.active@ == before.subrange(0, ix as int) + all.subrange(
                    items@.len() as int,
                    all.len() as int,
                ) + before.subrange(ix as int, before.len() as int),
                self.inner.deleted@ == old(self).inner.deleted@,
                self.scratch@ == Seq::<E>::empty(),
                self.ix == ix,
                self.origin == old(self).origin,
                old(self).origin + (before.len() - ix) <= usize::MAX,
                self.edited == old(self).edited,
                self.inserted == old(self).inserted,
                self.steps == old(self).steps,
            decreases items.len(),
        {
            let item = items.pop().unwrap();
            self.inner.active.insert(ix, item);
        }
        assert(ix + count <= self.inner.active.len());
        self.ix = ix + count;
        self.inserted = Ghost(self.inserted@ + count as nat);
        self.steps = Ghost(self.steps@ + repeat(Step::Insert, count as nat));
    }
}

/// One step of a cursor.
#[derive(Clone, Copy, Debug, PartialEq, Eq, Structural)]
pub enum SpliceOp {
    /// An element was put into the list.
    Insert,
    /// An element was handed out for editing.
    Mutate,
    /// So many elements were stepped past.
    Skip(usize),
    /// An element was removed.
    Delete,
}

/// `log` with `op` added. Steps past elements that follow one another count
/// as one step past all of them, as long as their number fits.
pub open spec fn recorded(log: Seq<SpliceOp>, op: SpliceOp) -> Seq<SpliceOp> {
    if log.len() > 0 {
        match (log.last(), op) {
            (SpliceOp::Skip(before), SpliceOp::Skip(more)) => if before + more <= usize::MAX {
                log.drop_last().push(SpliceOp::Skip((before + more) as usize))
            } else {
                log.push(op)
            },
            _ => log.push(op),
        }
    } else {
        log.push(op)
    }
}

/// `log` with `count` insertions added.
pub open spec fn recorded_inserts(log: Seq<SpliceOp>, count: nat) -> Seq<SpliceOp> {
    log + Seq::new(count, |i: int| SpliceOp::Insert)
}

/// A cursor that does what the cursor inside it does and keeps a list of the
/// steps it was asked for.
pub struct RecordingSplice<S> {
    /// The cursor that does the work.
    pub inner: S,
    /// The steps so far, oldest first.
    pub log: Vec<SpliceOp>,
}

impl<S> RecordingSplice<S> {
    /// A recording cursor around `inner`, with no step recorded.
    pub fn new(inner: S) -> (splice: RecordingSplice<S>)
        ensures
            splice.inner == inner,
            splice.log@ == Seq::<SpliceOp>::empty(),
    {
        RecordingSplice { inner, log: Vec::new() }
    }

    /// Adds `op` to the steps.
    pub fn record(&mut self, op: SpliceOp)
        ensures
            final(self).inner == old(self).inner,
            final(self).log@ == recorded(old(self).log@, op),
    {
        let len = self.log.len();
        if len > 0 {
            match (self.log[len - 1], op) {
                (SpliceOp::Skip(before), SpliceOp::Skip(more)) => {
                    if before <= usize::MAX - more {
                        let _ = self.log.pop();
                        self.log.push(SpliceOp::Skip(before + more));
                        return ;
                    }
                },
                _ => {},
            }
        }
        self.log.push(op);
    }
}

impl<E, S: ElementSplice<E>> ElementSplice<E> for RecordingSplice<S> {
    open spec fn active(&self) -> Seq<E> {
        self.inner.active()
    }

    open spec fn cursor(&self) -> nat {
        self.inner.cursor()
    }

    open spec fn origin(&self) -> nat {
        self.inner.origin()
    }

    open spec fn steps(&self) -> Seq<Step> {
        self.inner.steps()
    }

    open spec fn edited(&self) -> nat {
        self.inner.edited()
    }

    open spec fn inserted(&self) -> nat {
        self.inner.inserted()
    }

    open spec fn deleted(&self) -> Seq<(usize, E)> {
        self.inner.deleted()
    }

    open spec fn scratch(&self) -> Seq<E> {
        self.inner.scratch()
    }

    open spec fn wf(&self) -> bool {
        self.inner.wf()
    }

    fn insert(&mut self, element: E)
        ensures
            final(self).log@ == recorded(old(self).log@, SpliceOp::Insert),
    {
        self.record(SpliceOp::Insert);
        self.inner.insert(element);
    }

    fn mutate(&mut self) -> (element: &mut E)
        ensures
            final(self).log@ == recorded(old(self).log@, SpliceOp::Mutate),
    {
        self.record(SpliceOp::Mutate);
        self.inner.mutate()
    }

    fn skip(&mut self, n: usize)
        ensures
            final(self).log@ == recorded(old(self).log@, SpliceOp::Skip(n)),
    {
        self.record(SpliceOp::Skip(n));
        self.inner.skip(n);
    }

    fn delete(&mut self) -> (element: &mut E)
        ensures
            final(self).log@ == recorded(old(self).log@, SpliceOp::Delete),
    {
        self.record(SpliceOp::Delete);
        self.inner.delete()
    }

    fn with_scratch(&mut self) -> (scratch: &mut AppendVec<E>)
        ensures
            final(self).log@ == old(self).log@,
    {
        self.inner.with_scratch()
    }

    fn drain_scratch(&mut self)
        ensures
            final(self).log@ == recorded_inserts(old(self).log@, old(self).scratch().len()),
    {
        let count = self.inner.with_scratch().len();
        let mut done: usize = 0;
        while done < count
            invariant
                done <= count,
                self.inner.wf(),
                self.inner.active() == old(self).inner.active(),
                self.inner.cursor() == old(self).inner.cursor(),
                self.inner.origin() == old(self).inner.origin(),
                self.inner.steps() == old(self).inner.steps(),
                self.inner.edited() == old(self).inner.edited(),
                self.inner.inserted() == old(self).inner.inserted(),
                self.inner.deleted() == old(self).inner.deleted(),
                self.inner.scratch() == old(self).inner.scratch(),
                self.log@ == recorded_inserts(old(self).log@, done as nat),
            decreases count - done,
        {
            self.log.push(SpliceOp::Insert);
            done = done + 1;
            assert(self.log@ =~= recorded_inserts(old(self).log@, done as nat));
        }
        self.inner.drain_scratch();
    }
}

} // verus!
