use xilem_core::{
    sequence, AnyElement, AnyMarker, DynMessage, MessageResult, OneOf2, Operation, OperationView,
    PathCx, SequenceView, SuperElement, TraceAction, TraceElement, TupleMarker, VecMarker, View,
    ViewId, ViewMarker, ViewPathTracker, OneMarker, SeqChildren,
};

type Leaf = OperationView<0>;
type One = OneMarker<ViewMarker>;
type Pair = SequenceView<(Leaf, Leaf), TupleMarker<(One, One)>>;
type List = SequenceView<Vec<Leaf>, VecMarker<One>>;
type Erased = AnyMarker<TraceElement>;

fn path(segments: &[u64]) -> Vec<ViewId> {
    segments.iter().map(|segment| ViewId::new(*segment)).collect()
}

fn pair(id: u32, first: u32, second: u32) -> Pair {
    sequence::<(), TraceAction, PathCx, _, _>(id, (OperationView(first), OperationView(second)))
}

fn list(id: u32, numbers: &[u32]) -> List {
    sequence::<(), TraceAction, PathCx, _, _>(
        id,
        numbers.iter().map(|number| OperationView(*number)).collect(),
    )
}

#[test]
fn the_same_kind_is_rebuilt_in_place() {
    let prev: OneOf2<Leaf, Leaf> = OneOf2::A(OperationView(1));
    let next: OneOf2<Leaf, Leaf> = OneOf2::A(OperationView(2));
    let mut cx = PathCx::new();
    let (mut element, mut state) = View::<(), TraceAction, PathCx, Erased>::build(&prev, &mut cx);
    assert_eq!(element.view_path, path(&[0]));
    View::<(), TraceAction, PathCx, Erased>::rebuild(
        &next,
        &prev,
        &mut state,
        &mut cx,
        &mut element,
    );
    assert_eq!(
        element.operations,
        vec![Operation::Build(1), Operation::Rebuild { from: 1, to: 2 }]
    );
    assert_eq!(state.generation, 0);
    assert!(cx.view_path().is_empty());
}

#[test]
fn another_kind_replaces_the_leaf() {
    let prev: OneOf2<Leaf, Leaf> = OneOf2::A(OperationView(1));
    let next: OneOf2<Leaf, Leaf> = OneOf2::B(OperationView(2));
    let mut cx = PathCx::new();
    let (mut element, mut state) = View::<(), TraceAction, PathCx, Erased>::build(&prev, &mut cx);
    View::<(), TraceAction, PathCx, Erased>::rebuild(
        &next,
        &prev,
        &mut state,
        &mut cx,
        &mut element,
    );
    assert_eq!(
        element.operations,
        vec![Operation::Build(1), Operation::Teardown(1), Operation::Replace(2)]
    );
    assert_eq!(element.view_path, path(&[1]));
    assert!(element.children.is_none());
    assert_eq!(state.generation, 1);
    assert!(matches!(state.inner, OneOf2::B(())));
    assert!(cx.view_tree_changed);
    assert!(cx.view_path().is_empty());

    let stale = View::<(), TraceAction, PathCx, Erased>::message(
        &next,
        &mut state,
        &path(&[0]),
        DynMessage::Custom(0, Vec::new()),
        &mut (),
    );
    assert!(matches!(stale, MessageResult::Stale(_)));
    let taken = View::<(), TraceAction, PathCx, Erased>::message(
        &next,
        &mut state,
        &path(&[1]),
        DynMessage::Custom(0, Vec::new()),
        &mut (),
    );
    assert!(matches!(taken, MessageResult::Action(TraceAction { id: 2 })));
}

#[test]
fn a_parent_that_replaces_a_parent_takes_over_its_elements() {
    let prev: OneOf2<Pair, List> = OneOf2::A(pair(1, 10, 11));
    let next: OneOf2<Pair, List> = OneOf2::B(list(2, &[20, 21, 22]));
    let mut cx = PathCx::new();
    cx.push_id(ViewId::new(5));
    let (mut element, mut state) = View::<(), TraceAction, PathCx, Erased>::build(&prev, &mut cx);
    assert_eq!(element.view_path, path(&[5, 0]));
    View::<(), TraceAction, PathCx, Erased>::rebuild(
        &next,
        &prev,
        &mut state,
        &mut cx,
        &mut element,
    );
    assert_eq!(element.operations, vec![Operation::Build(1), Operation::Replace(2)]);
    assert_eq!(element.view_path, path(&[5, 1]));
    let children = element.children.as_ref().unwrap();
    assert_eq!(children.active.len(), 3);
    assert_eq!(children.active[0].operations, vec![Operation::Build(20)]);
    assert_eq!(children.active[1].operations, vec![Operation::Build(21)]);
    assert_eq!(children.active[2].operations, vec![Operation::Build(22)]);
    assert_eq!(children.active[2].view_path, path(&[5, 1, 2]));
    assert_eq!(children.deleted.len(), 2);
    assert_eq!(
        children.deleted[0].1.operations,
        vec![Operation::Build(10), Operation::Teardown(10)]
    );
    assert_eq!(
        children.deleted[1].1.operations,
        vec![Operation::Build(11), Operation::Teardown(11)]
    );
    assert_eq!(children.deleted[0].1.view_path, path(&[5, 0, 0]));
    assert_eq!(children.deleted[0].0, 0);
    assert_eq!(children.deleted[1].0, 1);
    assert_eq!(cx.view_path(), &[ViewId::new(5)]);

    View::<(), TraceAction, PathCx, Erased>::teardown(&next, &mut state, &mut cx, &mut element);
    let children = element.children.as_ref().unwrap();
    assert!(children.active.is_empty());
    assert_eq!(children.deleted.len(), 5);
}

#[test]
fn replacing_takes_live_elements_with_their_places() {
    let leaf = |number: u32| TraceElement {
        operations: vec![Operation::Build(number)],
        view_path: Vec::new(),
        children: None,
    };
    let mut old = TraceElement {
        operations: vec![Operation::Build(1)],
        view_path: path(&[0]),
        children: Some(SeqChildren {
            active: vec![leaf(10), leaf(11)],
            deleted: vec![(3, leaf(12))],
        }),
    };
    let new = TraceElement {
        operations: vec![Operation::Build(2)],
        view_path: path(&[1]),
        children: Some(SeqChildren { active: vec![leaf(20)], deleted: vec![(0, leaf(21))] }),
    };
    <TraceElement as AnyElement<TraceElement>>::replace_inner(&mut old, new);
    assert_eq!(old.operations, vec![Operation::Build(1), Operation::Replace(2)]);
    assert_eq!(old.view_path, path(&[1]));
    let children = old.children.as_ref().unwrap();
    assert_eq!(children.active.len(), 1);
    assert_eq!(children.active[0].operations, vec![Operation::Build(20)]);
    let removed: Vec<(usize, Operation)> =
        children.deleted.iter().map(|(place, element)| (*place, element.operations[0])).collect();
    assert_eq!(
        removed,
        vec![
            (0, Operation::Build(21)),
            (3, Operation::Build(12)),
            (0, Operation::Build(10)),
            (1, Operation::Build(11)),
        ]
    );

    let mut parent = old;
    <TraceElement as AnyElement<TraceElement>>::replace_inner(&mut parent, leaf(3));
    assert!(parent.children.is_none());
    assert_eq!(parent.operations.last(), Some(&Operation::Replace(3)));

    let upcast = <TraceElement as SuperElement<TraceElement>>::upcast(leaf(4));
    assert_eq!(upcast.operations, vec![Operation::Build(4)]);
    let mut held = upcast;
    <TraceElement as SuperElement<TraceElement>>::downcast_mut(&mut held)
        .operations
        .push(Operation::Teardown(4));
    assert_eq!(held.operations.len(), 2);
}
