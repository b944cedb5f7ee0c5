use xilem_core::{
    sequence, AppendVec, DynMessage, ElementSplice, MessageResult, Operation, OperationView,
    PathCx, RecordingSplice, SeqChildren, SeqTracker, SpliceOp, TraceAction, TraceElement, View,
    ViewId, ViewPathTracker, ViewSequence,
};

type Leaf = OperationView<0>;
type Slots = Vec<Option<Leaf>>;

fn slots(numbers: &[Option<u32>]) -> Slots {
    numbers.iter().map(|number| number.map(OperationView)).collect()
}

fn path(segments: &[u64]) -> Vec<ViewId> {
    segments.iter().map(|segment| ViewId::new(*segment)).collect()
}

fn payload() -> DynMessage {
    DynMessage::Custom(1, vec![42])
}

fn first_numbers(elements: &[TraceElement]) -> Vec<Operation> {
    elements.iter().map(|element| element.operations[0]).collect()
}

#[test]
fn filling_a_place_inserts_once_and_steps_past_the_rest() {
    let prev = slots(&[Some(0), Some(1), None, Some(3), Some(4), Some(5)]);
    let next = slots(&[Some(0), Some(1), Some(2), Some(3), Some(4), Some(5)]);
    let mut cx = PathCx::new();
    let mut built = AppendVec::new();
    let mut state = ViewSequence::<(), TraceAction, PathCx, TraceElement, _>::seq_build(
        &prev,
        &mut cx,
        &mut built,
    );
    assert_eq!(built.len(), 5);
    let children = SeqChildren { active: built.into_inner(), deleted: Vec::new() };
    let mut splice = RecordingSplice::new(SeqTracker::new(children, AppendVec::new()));
    ViewSequence::<(), TraceAction, PathCx, TraceElement, _>::seq_rebuild(
        &next,
        &prev,
        &mut state,
        &mut cx,
        &mut splice,
    );
    assert_eq!(splice.log, vec![SpliceOp::Skip(2), SpliceOp::Insert, SpliceOp::Skip(3)]);
    let children = splice.inner.inner;
    assert_eq!(splice.inner.ix, 6);
    assert_eq!(
        first_numbers(&children.active),
        vec![
            Operation::Build(0),
            Operation::Build(1),
            Operation::Build(2),
            Operation::Build(3),
            Operation::Build(4),
            Operation::Build(5),
        ]
    );
    for element in &children.active {
        assert_eq!(element.operations.len(), 1);
    }
    assert_eq!(children.active[1].view_path, path(&[1, 0]));
    assert_eq!(children.active[2].view_path, path(&[2, 1]));
    assert_eq!(children.active[3].view_path, path(&[3, 0]));
    assert!(children.deleted.is_empty());
    assert!(cx.view_path().is_empty());
    assert!(!cx.view_tree_changed);
}

#[test]
fn removing_the_second_and_the_fourth_of_four() {
    let prev = sequence::<(), TraceAction, PathCx, _, _>(
        0,
        slots(&[Some(10), Some(11), Some(12), Some(13)]),
    );
    let next = sequence::<(), TraceAction, PathCx, _, _>(
        0,
        slots(&[Some(10), None, Some(12), None]),
    );
    let mut cx = PathCx::new();
    let (mut element, mut state) = View::<(), TraceAction, PathCx>::build(&prev, &mut cx);
    View::<(), TraceAction, PathCx>::rebuild(&next, &prev, &mut state, &mut cx, &mut element);
    let children = element.children.as_ref().unwrap();
    assert_eq!(children.active.len(), 2);
    assert_eq!(children.active[0].operations, vec![Operation::Build(10)]);
    assert_eq!(children.active[0].view_path, path(&[0, 0]));
    assert_eq!(children.active[1].operations, vec![Operation::Build(12)]);
    assert_eq!(children.active[1].view_path, path(&[2, 0]));
    assert_eq!(children.deleted.len(), 2);
    assert_eq!(children.deleted[0].0, 1);
    assert_eq!(
        children.deleted[0].1.operations,
        vec![Operation::Build(11), Operation::Teardown(11)]
    );
    assert_eq!(children.deleted[0].1.view_path, path(&[1, 0]));
    assert_eq!(children.deleted[1].0, 3);
    assert_eq!(
        children.deleted[1].1.operations,
        vec![Operation::Build(13), Operation::Teardown(13)]
    );
    assert_eq!(children.deleted[1].1.view_path, path(&[3, 0]));
    assert_eq!(element.operations, vec![Operation::Build(0)]);

    let again = sequence::<(), TraceAction, PathCx, _, _>(
        0,
        slots(&[Some(10), None, Some(12), None]),
    );
    View::<(), TraceAction, PathCx>::rebuild(&again, &next, &mut state, &mut cx, &mut element);
    let children = element.children.as_ref().unwrap();
    assert_eq!(first_numbers(&children.active), vec![Operation::Build(10), Operation::Build(12)]);
    assert_eq!(children.active[0].operations.len(), 1);
    assert_eq!(children.active[1].operations.len(), 1);
    assert_eq!(children.deleted.len(), 2);
}

#[test]
fn a_message_finds_its_leaf_and_no_other() {
    let root = sequence::<(), TraceAction, PathCx, _, _>(
        0,
        slots(&[Some(10), Some(11), Some(12)]),
    );
    let mut cx = PathCx::new();
    let (mut element, mut state) = View::<(), TraceAction, PathCx>::build(&root, &mut cx);
    let leaf_path = element.children.as_ref().unwrap().active[2].view_path.clone();
    assert_eq!(leaf_path, path(&[2, 0]));
    let result =
        View::<(), TraceAction, PathCx>::message(&root, &mut state, &leaf_path, payload(), &mut ());
    assert!(matches!(result, MessageResult::Action(TraceAction { id: 12 })));

    let without = sequence::<(), TraceAction, PathCx, _, _>(0, slots(&[Some(10), Some(11), None]));
    View::<(), TraceAction, PathCx>::rebuild(&without, &root, &mut state, &mut cx, &mut element);
    let result = View::<(), TraceAction, PathCx>::message(
        &without,
        &mut state,
        &leaf_path,
        payload(),
        &mut (),
    );
    assert!(matches!(
        result,
        MessageResult::Stale(DynMessage::Custom(1, bytes)) if bytes == vec![42]
    ));

    let back = sequence::<(), TraceAction, PathCx, _, _>(
        0,
        slots(&[Some(10), Some(11), Some(14)]),
    );
    View::<(), TraceAction, PathCx>::rebuild(&back, &without, &mut state, &mut cx, &mut element);
    let result =
        View::<(), TraceAction, PathCx>::message(&back, &mut state, &leaf_path, payload(), &mut ());
    assert!(matches!(result, MessageResult::Stale(_)));
    let new_path = element.children.as_ref().unwrap().active[2].view_path.clone();
    assert_eq!(new_path, path(&[2, 1]));
    let result =
        View::<(), TraceAction, PathCx>::message(&back, &mut state, &new_path, payload(), &mut ());
    assert!(matches!(result, MessageResult::Action(TraceAction { id: 14 })));
}

#[test]
fn a_message_with_a_path_that_leads_nowhere_comes_back() {
    let root = sequence::<(), TraceAction, PathCx, _, _>(0, slots(&[Some(10)]));
    let mut cx = PathCx::new();
    let (_element, mut state) = View::<(), TraceAction, PathCx>::build(&root, &mut cx);
    for wrong in [path(&[]), path(&[1, 0]), path(&[0]), path(&[0, 7])] {
        let result =
            View::<(), TraceAction, PathCx>::message(&root, &mut state, &wrong, payload(), &mut ());
        assert!(matches!(result, MessageResult::Stale(DynMessage::Custom(1, _))));
    }
}

#[test]
fn a_list_that_grows_and_shrinks() {
    let short: Vec<Leaf> = vec![OperationView(1), OperationView(2)];
    let long: Vec<Leaf> = vec![OperationView(1), OperationView(5), OperationView(3)];
    let prev = sequence::<(), TraceAction, PathCx, _, _>(0, short);
    let next = sequence::<(), TraceAction, PathCx, _, _>(0, long);
    let mut cx = PathCx::new();
    let (mut element, mut state) = View::<(), TraceAction, PathCx>::build(&prev, &mut cx);
    View::<(), TraceAction, PathCx>::rebuild(&next, &prev, &mut state, &mut cx, &mut element);
    {
        let children = element.children.as_ref().unwrap();
        assert_eq!(children.active.len(), 3);
        assert_eq!(children.active[0].operations, vec![Operation::Build(1)]);
        assert_eq!(
            children.active[1].operations,
            vec![Operation::Build(2), Operation::Rebuild { from: 2, to: 5 }]
        );
        assert_eq!(children.active[2].operations, vec![Operation::Build(3)]);
        assert_eq!(children.active[2].view_path, path(&[2]));
        assert!(children.deleted.is_empty());
    }
    assert!(cx.view_tree_changed);
    let last = sequence::<(), TraceAction, PathCx, _, _>(0, vec![OperationView::<0>(1)]);
    View::<(), TraceAction, PathCx>::rebuild(&last, &next, &mut state, &mut cx, &mut element);
    let children = element.children.as_ref().unwrap();
    assert_eq!(children.active.len(), 1);
    assert_eq!(children.deleted.len(), 2);
    assert_eq!(children.deleted[0].0, 1);
    assert_eq!(children.deleted[1].0, 2);
    assert_eq!(children.deleted[0].1.operations.last(), Some(&Operation::Teardown(5)));
    assert_eq!(children.deleted[1].1.operations.last(), Some(&Operation::Teardown(3)));
    assert_eq!(state.0.len(), 1);
}

#[test]
fn a_pair_routes_by_place() {
    let pair: (Leaf, Option<Leaf>) = (OperationView(1), Some(OperationView(2)));
    let root = sequence::<(), TraceAction, PathCx, _, _>(9, pair);
    let mut cx = PathCx::new();
    cx.push_id(ViewId::new(4));
    let (mut element, mut state) = View::<(), TraceAction, PathCx>::build(&root, &mut cx);
    assert_eq!(element.view_path, path(&[4]));
    {
        let children = element.children.as_ref().unwrap();
        assert_eq!(children.active[0].view_path, path(&[4, 0]));
        assert_eq!(children.active[1].view_path, path(&[4, 1, 0]));
    }
    let result = View::<(), TraceAction, PathCx>::message(
        &root,
        &mut state,
        &path(&[1, 0]),
        payload(),
        &mut (),
    );
    assert!(matches!(result, MessageResult::Action(TraceAction { id: 2 })));
    let result =
        View::<(), TraceAction, PathCx>::message(&root, &mut state, &path(&[0]), payload(), &mut ());
    assert!(matches!(result, MessageResult::Action(TraceAction { id: 1 })));
    let result =
        View::<(), TraceAction, PathCx>::message(&root, &mut state, &path(&[2]), payload(), &mut ());
    assert!(matches!(result, MessageResult::Stale(_)));
    View::<(), TraceAction, PathCx>::teardown(&root, &mut state, &mut cx, &mut element);
    let children = element.children.as_ref().unwrap();
    assert!(children.active.is_empty());
    assert_eq!(children.deleted.len(), 2);
    assert_eq!(children.deleted[0].0, 0);
    assert_eq!(children.deleted[1].0, 1);
    assert_eq!(
        children.deleted[1].1.operations,
        vec![Operation::Build(2), Operation::Teardown(2)]
    );
    assert_eq!(cx.view_path(), &[ViewId::new(4)]);
}

#[test]
fn the_cursor_edits_in_place() {
    let leaf = |number: u32| TraceElement {
        operations: vec![Operation::Build(number)],
        view_path: Vec::new(),
        children: None,
    };
    let children = SeqChildren { active: vec![leaf(0), leaf(1), leaf(2)], deleted: Vec::new() };
    let mut tracker = SeqTracker::new(children, AppendVec::new());
    tracker.skip(1);
    tracker.mutate().operations.push(Operation::Rebuild { from: 1, to: 9 });
    tracker.insert(leaf(7));
    tracker.with_scratch().push(leaf(8));
    tracker.with_scratch().push(leaf(9));
    tracker.drain_scratch();
    tracker.delete().operations.push(Operation::Teardown(2));
    assert_eq!(tracker.ix, 5);
    assert_eq!(tracker.origin, 3);
    assert!(tracker.scratch.is_empty());
    let children = tracker.inner;
    assert_eq!(
        first_numbers(&children.active),
        vec![
            Operation::Build(0),
            Operation::Build(1),
            Operation::Build(7),
            Operation::Build(8),
            Operation::Build(9),
        ]
    );
    assert_eq!(children.active[1].operations.len(), 2);
    assert_eq!(children.deleted.len(), 1);
    assert_eq!(children.deleted[0].0, 2);
    assert_eq!(
        children.deleted[0].1.operations,
        vec![Operation::Build(2), Operation::Teardown(2)]
    );
}

#[test]
fn a_removed_element_keeps_its_old_place_behind_a_new_one() {
    let prev = sequence::<(), TraceAction, PathCx, _, _>(
        0,
        slots(&[None, Some(11), Some(12), Some(13)]),
    );
    let next = sequence::<(), TraceAction, PathCx, _, _>(
        0,
        slots(&[Some(10), Some(11), None, Some(13)]),
    );
    let mut cx = PathCx::new();
    let (mut element, mut state) = View::<(), TraceAction, PathCx>::build(&prev, &mut cx);
    View::<(), TraceAction, PathCx>::rebuild(&next, &prev, &mut state, &mut cx, &mut element);
    let children = element.children.as_ref().unwrap();
    assert_eq!(
        first_numbers(&children.active),
        vec![Operation::Build(10), Operation::Build(11), Operation::Build(13)]
    );
    assert_eq!(children.deleted.len(), 1);
    assert_eq!(children.deleted[0].0, 1);
    assert_eq!(
        children.deleted[0].1.operations,
        vec![Operation::Build(12), Operation::Teardown(12)]
    );
}
