//! Elements that keep a record of what was done to them, and the views that
//! build them. With these a tree can be run without a toolkit behind it, and
//! what the library did to it can be read off afterwards.

use std::marker::PhantomData;
use vstd::pervasive::unreached;
use vstd::prelude::*;
use vstd::view::View as _;
use crate::element::{AnyElement, SuperElement, ViewElement};
use crate::id_path::{copy_path, PathCx, ViewId, ViewPathTracker};
use crate::message::{DynMessage, MessageResult};
use crate::orphan::OrphanView;
use crate::sequence::{added, extends, run, ViewSequence};
use crate::splice::{AppendVec, ElementSplice, SeqChildren, SeqChildrenView, SeqTracker};
use crate::view::View;

verus! {

/// One thing done to an element, with the number of the view that did it.
#[derive(PartialEq, Eq, Debug, Clone, Copy, Structural)]
pub enum Operation {
    /// The element was built.
    Build(u32),
    /// The element was brought from the view `from` to the view `to`.
    Rebuild { from: u32, to: u32 },
    /// The element was torn down.
    Teardown(u32),
    /// What the element stood for was replaced by what the view built.
    Replace(u32),
}

/// An element that records its history.
pub struct TraceElement {
    /// What was done to the element, oldest first.
    pub operations: Vec<Operation>,
    /// The path of the node that built the element.
    pub view_path: Vec<ViewId>,
    /// The elements below this one, where it is a parent.
    pub children: Option<SeqChildren<TraceElement>>,
}

/// What can be observed of a [`TraceElement`].
pub struct TraceElementView {
    /// What was done to the element, oldest first.
    pub operations: Seq<Operation>,
    /// The path of the node that built the element.
    pub view_path: Seq<ViewId>,
    /// The elements below this one, where it is a parent.
    pub children: Option<SeqChildrenView<TraceElement>>,
}

impl vstd::view::View for TraceElement {
    type V = TraceElementView;

    open spec fn view(&self) -> TraceElementView {
        TraceElementView {
            operations: self.operations@,
            view_path: self.view_path@,
            children: match self.children {
                Some(children) => Some(children@),
                None => None,
            },
        }
    }
}

impl ViewElement for TraceElement {
    open spec fn alike(&self, other: &Self) -> bool {
        &&& self.view_path@ == other.view_path@
        &&& match (self.children, other.children) {
            (Some(mine), Some(theirs)) => mine.active@ == theirs.active@,
            (None, None) => true,
            _ => false,
        }
    }

    open spec fn fresh(&self) -> bool {
        self.operations@.len() == 1 && self.operations@[0] is Build
    }
}

/// The number of the view that built `element`, where its history begins
/// with its build.
pub open spec fn built_by(element: TraceElement) -> u32 {
    match element.operations@[0] {
        Operation::Build(id) => id,
        _ => 0,
    }
}

/// Each of `elements` with its position.
pub open spec fn numbered(elements: Seq<TraceElement>) -> Seq<(usize, TraceElement)> {
    Seq::new(elements.len(), |i: int| (i as usize, elements[i]))
}

/// What a parent gives up when it is replaced: the elements it had removed
/// before, then those that were live, each with its position.
pub open spec fn discarded(children: Option<SeqChildren<TraceElement>>) -> Seq<
    (usize, TraceElement),
> {
    match children {
        Some(old) => old.deleted@ + numbered(old.active@),
        None => Seq::empty(),
    }
}

impl SuperElement<TraceElement> for TraceElement {
    open spec fn holds(&self) -> bool {
        true
    }

    open spec fn held(&self) -> TraceElement {
        *self
    }

    proof fn alike_held(&self, other: &Self) {
    }

    fn upcast(child: TraceElement) -> (this: TraceElement) {
        child
    }

    fn downcast_mut(this: &mut TraceElement) -> (child: &mut TraceElement) {
        this
    }
}

impl AnyElement<TraceElement> for TraceElement {
    /// The element keeps its history and adds the replacement to it. Path and
    /// children are those of `child`; where `child` is a parent, it takes
    /// over, as removed, every element that the old content owned.
    open spec fn replaced(before: TraceElement, child: TraceElement, after: TraceElement) -> bool {
        &&& after.operations@ == before.operations@.push(Operation::Replace(built_by(child)))
        &&& after.view_path@ == child.view_path@
        &&& match child.children {
            Some(new) => {
                &&& after.children matches Some(merged)
                &&& merged.active@ == new.active@
                &&& merged.deleted@ == new.deleted@ + discarded(before.children)
            },
            None => after.children is None,
        }
    }

    fn replace_inner(this: &mut TraceElement, child: TraceElement) {
        let id = match child.operations[0] {
            Operation::Build(id) => id,
            _ => 0,
        };
        this.operations.push(Operation::Replace(id));
        this.view_path = child.view_path;
        let mut old_children: Option<SeqChildren<TraceElement>> = None;
        std::mem::swap(&mut this.children, &mut old_children);
        match child.children {
            Some(new) => {
                let mut merged = new;
                match old_children {
                    Some(old) => {
                        let mut old_deleted = old.deleted;
                        let mut old_active = old.active;
                        merged.deleted.append(&mut old_deleted);
                        let ghost base = merged.deleted@;
                        let ghost all = old_active@;
                        let mut index: usize = 0;
                        assert(all.len() == old_active.len());
                        while old_active.len() > 0
                            invariant
                                index + old_active@.len() == all.len(),
                                old_active@ == all.subrange(index as int, all.len() as int),
                                merged.deleted@ == base + numbered(all.subrange(0, index as int)),
                                merged.active@ == new.active@,
                                all.len() <= usize::MAX,
                            decreases old_active.len(),
                        {
                            let item = old_active.remove(0);
                            merged.deleted.push((index, item));
                            assert(merged.deleted@ =~= base + numbered(
                                all.subrange(0, index + 1),
                            ));
                            index = index + 1;
                        }
                        assert(all.subrange(0, index as int) =~= all);
                        assert(merged.deleted@ =~= new.deleted@ + (old.deleted@ + numbered(all)));
                    },
                    None => {
                        assert(merged.deleted@ =~= new.deleted@ + discarded(None));
                    },
                }
                this.children = Some(merged);
            },
            None => {},
        }
    }
}

/// What a leaf answers to a message: its own number.
#[derive(PartialEq, Eq, Debug, Clone, Copy, Structural)]
pub struct TraceAction {
    /// The number of the view that answered.
    pub id: u32,
}

/// A leaf that shows the number it holds.
pub struct OperationView<const N: u32>(pub u32);

impl<const N: u32, State, Context: ViewPathTracker> View<
    State,
    TraceAction,
    Context,
> for OperationView<N> {
    type Element = TraceElement;

    type ViewState = ();

    open spec fn message_requires(
        &self,
        state: (),
        id_path: Seq<ViewId>,
        message: DynMessage,
        app: State,
    ) -> bool {
        true
    }

    open spec fn same(&self, prev: &Self) -> bool {
        self.0 == prev.0
    }

    open spec fn retained(&self, state: (), element: TraceElement, path: Seq<ViewId>) -> bool {
        element.view_path@ == path && element.children is None
    }

    open spec fn build_ensures(
        &self,
        before: Context,
        after: Context,
        element: TraceElement,
        state: (),
    ) -> bool {
        &&& element.operations@ == seq![Operation::Build(self.0)]
        &&& element.view_path@ == before.path()
        &&& element.children is None
        &&& after.path() == before.path()
        &&& after.changed() == before.changed()
    }

    open spec fn rebuild_ensures(
        &self,
        prev: &Self,
        state_before: (),
        state_after: (),
        before: Context,
        after: Context,
        element_before: TraceElement,
        element_after: TraceElement,
    ) -> bool {
        &&& element_after.operations@ == if self.0 == prev.0 {
            element_before.operations@
        } else {
            element_before.operations@.push(Operation::Rebuild { from: prev.0, to: self.0 })
        }
        &&& element_after.view_path@ == element_before.view_path@
        &&& element_after.children is None
        &&& after.path() == before.path()
        &&& after.changed() == (before.changed() || self.0 != prev.0)
    }

    open spec fn teardown_ensures(
        &self,
        state_before: (),
        state_after: (),
        before: Context,
        after: Context,
        element_before: TraceElement,
        element_after: TraceElement,
    ) -> bool {
        &&& element_after.operations@ == element_before.operations@.push(
            Operation::Teardown(self.0),
        )
        &&& element_after.view_path@ == element_before.view_path@
        &&& element_after.children is None
        &&& after.path() == before.path()
        &&& after.changed() == before.changed()
    }

    open spec fn message_ensures(
        &self,
        state_before: (),
        state_after: (),
        id_path: Seq<ViewId>,
        message: DynMessage,
        app: &mut State,
        app_after: State,
        result: MessageResult<TraceAction>,
    ) -> bool {
        &&& result == MessageResult::Action(TraceAction { id: self.0 })
        &&& app_after == *app
    }

    proof fn same_retained(
        &self,
        prev: &Self,
        state: (),
        element: TraceElement,
        path: Seq<ViewId>,
    ) {
    }

    proof fn retained_alike(
        &self,
        state: (),
        element: TraceElement,
        other: TraceElement,
        path: Seq<ViewId>,
    ) {
    }

    fn same_as(&self, prev: &Self) -> (same: bool) {
        self.0 == prev.0
    }

    fn build(&self, ctx: &mut Context) -> (built: (TraceElement, ())) {
        let mut operations: Vec<Operation> = Vec::new();
        operations.push(Operation::Build(self.0));
        let view_path = copy_path(ctx.view_path());
        (TraceElement { operations, view_path, children: None }, ())
    }

    fn rebuild(
        &self,
        prev: &Self,
        view_state: &mut (),
        ctx: &mut Context,
        element: &mut TraceElement,
    ) {
        if self.0 != prev.0 {
            element.operations.push(Operation::Rebuild { from: prev.0, to: self.0 });
            ctx.mark_changed();
        }
    }

    fn teardown(&self, view_state: &mut (), ctx: &mut Context, element: &mut TraceElement) {
        element.operations.push(Operation::Teardown(self.0));
    }

    fn message(
        &self,
        view_state: &mut (),
        id_path: &[ViewId],
        message: DynMessage,
        app_state: &mut State,
    ) -> (result: MessageResult<TraceAction>) {
        let result = MessageResult::Action(TraceAction { id: self.0 });
        proof {
            assert(<Self as View<State, TraceAction, Context>>::message_ensures(
                self,
                (),
                (),
                id_path@,
                message,
                old(app_state),
                *app_state,
                result,
            ));
        }
        result
    }
}

/// Under a [`PathCx`] a bare number is a view: the leaf that shows it.
impl<State> OrphanView<u32, State, TraceAction> for PathCx {
    type V = OperationView<0>;

    open spec fn view_of(value: &u32) -> OperationView<0> {
        OperationView(*value)
    }

    fn as_view(value: &u32) -> (view: OperationView<0>) {
        OperationView(*value)
    }
}

/// The path that a leaf records when it is built is the path on which it is
/// rebuilt, and the element that the rebuild leaves is owed its teardown on
/// that path too.
pub proof fn leaf_path_is_kept<const N: u32, State, Context: ViewPathTracker>(
    built: OperationView<N>,
    next: OperationView<N>,
    before_build: Context,
    after_build: Context,
    element: TraceElement,
    visited: Seq<ViewId>,
    before_rebuild: Context,
    after_rebuild: Context,
    rebuilt: TraceElement,
)
    requires
        View::<State, TraceAction, Context>::build_ensures(
            &built,
            before_build,
            after_build,
            element,
            (),
        ),
        View::<State, TraceAction, Context>::retained(&built, (), element, visited),
        View::<State, TraceAction, Context>::rebuild_ensures(
            &next,
            &built,
            (),
            (),
            before_rebuild,
            after_rebuild,
            element,
            rebuilt,
        ),
    ensures
        visited == before_build.path(),
        rebuilt.view_path@ == before_build.path(),
        View::<State, TraceAction, Context>::retained(&next, (), rebuilt, before_build.path()),
{
}

/// A parent: the view of an element whose children are the elements of a
/// sequence.
pub struct SequenceView<Inner, Marker> {
    id: u32,
    seq: Inner,
    phantom: PhantomData<Marker>,
}

impl<Inner, Marker> SequenceView<Inner, Marker> {
    /// The number of the view.
    pub closed spec fn number(&self) -> u32 {
        self.id
    }

    /// The sequence of the children.
    pub closed spec fn children(&self) -> Inner {
        self.seq
    }
}

/// The parent with the number `id` whose children are those of `seq`.
pub fn sequence<State, Action, Context, Inner, Marker>(id: u32, seq: Inner) -> (view: SequenceView<
    Inner,
    Marker,
>) where
    Context: ViewPathTracker,
    Inner: ViewSequence<State, Action, Context, TraceElement, Marker>,

    ensures
        view.number() == id,
        view.children() == seq,
{
    SequenceView { id, seq, phantom: PhantomData }
}

impl<State, Action, Context, Inner, Marker> View<State, Action, Context> for SequenceView<
    Inner,
    Marker,
> where Context: ViewPathTracker, Inner: ViewSequence<State, Action, Context, TraceElement, Marker> {
    type Element = TraceElement;

    type ViewState = (Inner::SeqState, AppendVec<TraceElement>);

    open spec fn message_requires(
        &self,
        state: Self::ViewState,
        id_path: Seq<ViewId>,
        message: DynMessage,
        app: State,
    ) -> bool {
        self.children().seq_message_requires(state.0, id_path, message, app)
    }

    open spec fn same(&self, prev: &Self) -> bool {
        self.number() == prev.number() && self.children().seq_same(&prev.children())
    }

    open spec fn retained(
        &self,
        state: Self::ViewState,
        element: TraceElement,
        path: Seq<ViewId>,
    ) -> bool {
        &&& element.view_path@ == path
        &&& state.1@.len() == 0
        &&& element.children matches Some(children)
        &&& children.active@.len() == self.children().count()
        &&& self.children().seq_retained(state.0, children.active@, path)
    }

    open spec fn build_ensures(
        &self,
        before: Context,
        after: Context,
        element: TraceElement,
        state: Self::ViewState,
    ) -> bool {
        &&& element.operations@ == seq![Operation::Build(self.number())]
        &&& element.view_path@ == before.path()
        &&& element.children matches Some(children)
        &&& children.active@.len() == self.children().count()
        &&& children.deleted@.len() == 0
        &&& self.children().seq_build_ensures(state.0, before.path(), children.active@)
        &&& after.path() == before.path()
    }

    open spec fn rebuild_ensures(
        &self,
        prev: &Self,
        state_before: Self::ViewState,
        state_after: Self::ViewState,
        before: Context,
        after: Context,
        element_before: TraceElement,
        element_after: TraceElement,
    ) -> bool {
        &&& element_after.operations@ == element_before.operations@
        &&& element_after.view_path@ == element_before.view_path@
        &&& element_before.children matches Some(children_before)
        &&& element_after.children matches Some(children_after)
        &&& children_after.active@.len() == self.children().count()
        &&& extends(children_before.deleted@, children_after.deleted@)
        &&& children_after.deleted@.len() == children_before.deleted@.len()
            + self.children().removed_count(&prev.children())
        &&& self.children().seq_rebuild_ensures(
            &prev.children(),
            state_before.0,
            state_after.0,
            before.path(),
            0,
            children_before.active@,
            children_after.active@,
            added(children_before.deleted@, children_after.deleted@),
        )
        &&& after.path() == before.path()
    }

    open spec fn teardown_ensures(
        &self,
        state_before: Self::ViewState,
        state_after: Self::ViewState,
        before: Context,
        after: Context,
        element_before: TraceElement,
        element_after: TraceElement,
    ) -> bool {
        &&& element_after.operations@ == element_before.operations@
        &&& element_after.view_path@ == element_before.view_path@
        &&& element_before.children matches Some(children_before)
        &&& element_after.children matches Some(children_after)
        &&& children_after.active@.len() == 0
        &&& extends(children_before.deleted@, children_after.deleted@)
        &&& children_after.deleted@.len() == children_before.deleted@.len()
            + self.children().count()
        &&& self.children().seq_teardown_ensures(
            state_before.0,
            state_after.0,
            before.path(),
            0,
            children_before.active@,
            added(children_before.deleted@, children_after.deleted@),
        )
        &&& after.path() == before.path()
    }

    open spec fn message_ensures(
        &self,
        state_before: Self::ViewState,
        state_after: Self::ViewState,
        id_path: Seq<ViewId>,
        message: DynMessage,
        app: &mut State,
        app_after: State,
        result: MessageResult<Action>,
    ) -> bool {
        &&& state_after.1 == state_before.1
        &&& self.children().seq_message_ensures(
            state_before.0,
            state_after.0,
            id_path,
            message,
            app,
            app_after,
            result,
        )
    }

    proof fn same_retained(
        &self,
        prev: &Self,
        state: Self::ViewState,
        element: TraceElement,
        path: Seq<ViewId>,
    ) {
        self.seq.seq_same_retained(&prev.seq, state.0, element.children->0.active@, path);
    }

    proof fn retained_alike(
        &self,
        state: Self::ViewState,
        element: TraceElement,
        other: TraceElement,
        path: Seq<ViewId>,
    ) {
    }

    fn same_as(&self, prev: &Self) -> (same: bool) {
        self.id == prev.id && self.seq.seq_same_as(&prev.seq)
    }

    fn build(&self, ctx: &mut Context) -> (built: (TraceElement, Self::ViewState)) {
        let mut elements: AppendVec<TraceElement> = AppendVec::new();
        let state = self.seq.seq_build(ctx, &mut elements);
        let mut operations: Vec<Operation> = Vec::new();
        operations.push(Operation::Build(self.id));
        let view_path = copy_path(ctx.view_path());
        let ghost built = elements@;
        assert(run(built, 0, self.seq.count()) =~= built);
        let children = SeqChildren { active: elements.into_inner(), deleted: Vec::new() };
        (TraceElement { operations, view_path, children: Some(children) }, (state, AppendVec::new()))
    }

    fn rebuild(
        &self,
        prev: &Self,
        view_state: &mut Self::ViewState,
        ctx: &mut Context,
        element: &mut TraceElement,
    ) {
        let mut taken: Option<SeqChildren<TraceElement>> = None;
        std::mem::swap(&mut element.children, &mut taken);
        let mut scratch: AppendVec<TraceElement> = AppendVec::new();
        std::mem::swap(&mut view_state.1, &mut scratch);
        match taken {
            Some(children) => {
                assert(run(children.active@, 0, prev.seq.count()) =~= children.active@);
                let mut elements = SeqTracker::new(children, scratch);
                self.seq.seq_rebuild(&prev.seq, &mut view_state.0, ctx, &mut elements);
                assert(run(elements.active(), 0, self.seq.count()) =~= elements.active());
                element.children = Some(elements.inner);
                view_state.1 = elements.scratch;
            },
            None => {
                unreached::<()>();
            },
        }
    }

    fn teardown(
        &self,
        view_state: &mut Self::ViewState,
        ctx: &mut Context,
        element: &mut TraceElement,
    ) {
        let mut taken: Option<SeqChildren<TraceElement>> = None;
        std::mem::swap(&mut element.children, &mut taken);
        let mut scratch: AppendVec<TraceElement> = AppendVec::new();
        std::mem::swap(&mut view_state.1, &mut scratch);
        match taken {
            Some(children) => {
                assert(run(children.active@, 0, self.seq.count()) =~= children.active@);
                let mut elements = SeqTracker::new(children, scratch);
                self.seq.seq_teardown(&mut view_state.0, ctx, &mut elements);
                element.children = Some(elements.inner);
                view_state.1 = elements.scratch;
            },
            None => {
                unreached::<()>();
            },
        }
    }

    fn message(
        &self,
        view_state: &mut Self::ViewState,
        id_path: &[ViewId],
        message: DynMessage,
        app_state: &mut State,
    ) -> (result: MessageResult<Action>) {
        let ghost sent = message;
        let result = self.seq.seq_message(&mut view_state.0, id_path, message, app_state);
        proof {
            let app = choose|app: &mut State|
                mut_ref_current(app) == *old(app_state) && mut_ref_future(app) == *app_state
                    && #[trigger] self.seq.seq_message_ensures(
                        old(view_state).0,
                        view_state.0,
                        id_path@,
                        sent,
                        app,
                        *app_state,
                        result,
                    );
            assert(<Self as View<State, Action, Context>>::message_ensures(
                self,
                *old(view_state),
                *view_state,
                id_path@,
                sent,
                app,
                *app_state,
                result,
            ));
        }
        result
    }
}

/// The path that a parent records when it is built is the path on which it
/// is rebuilt and torn down, and its children are retained under that path.
pub proof fn parent_path_is_kept<State, Action, Context, Inner, Marker>(
    view: SequenceView<Inner, Marker>,
    before_build: Context,
    after_build: Context,
    element: TraceElement,
    state: (Inner::SeqState, AppendVec<TraceElement>),
    visited: Seq<ViewId>,
) where Context: ViewPathTracker, Inner: ViewSequence<State, Action, Context, TraceElement, Marker>
    requires
        View::<State, Action, Context>::build_ensures(
            &view,
            before_build,
            after_build,
            element,
            state,
        ),
        View::<State, Action, Context>::retained(&view, state, element, visited),
    ensures
        visited == before_build.path(),
        element.children is Some,
        view.children().seq_retained(state.0, element.children->0.active@, before_build.path()),
{
}

} // verus!
