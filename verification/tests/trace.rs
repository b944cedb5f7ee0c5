use xilem_core::{
    DynMessage, MessageResult, Operation, OperationView, PathCx, TraceAction, TraceElement, View,
    ViewId, ViewPathTracker,
};

type Leaf = OperationView<0>;

fn build_leaf(view: &Leaf, cx: &mut PathCx) -> TraceElement {
    let (element, ()) = View::<(), TraceAction, PathCx>::build(view, cx);
    element
}

#[test]
fn a_leaf_records_its_build_and_its_path() {
    let mut cx = PathCx::new();
    cx.push_id(ViewId::new(3));
    let element = build_leaf(&OperationView(7), &mut cx);
    assert_eq!(element.operations, vec![Operation::Build(7)]);
    assert_eq!(element.view_path, vec![ViewId::new(3)]);
    assert!(element.children.is_none());
    assert_eq!(cx.view_path(), &[ViewId::new(3)]);
}

#[test]
fn rebuilding_a_leaf_with_the_same_number_is_not_recorded() {
    let mut cx = PathCx::new();
    let prev: Leaf = OperationView(7);
    let mut element = build_leaf(&prev, &mut cx);
    let next: Leaf = OperationView(7);
    View::<(), TraceAction, PathCx>::rebuild(&next, &prev, &mut (), &mut cx, &mut element);
    assert_eq!(element.operations, vec![Operation::Build(7)]);
    assert!(!cx.view_tree_changed);
}

#[test]
fn rebuilding_a_leaf_with_another_number_is_recorded_and_reported() {
    let mut cx = PathCx::new();
    let prev: Leaf = OperationView(7);
    let mut element = build_leaf(&prev, &mut cx);
    let next: Leaf = OperationView(8);
    View::<(), TraceAction, PathCx>::rebuild(&next, &prev, &mut (), &mut cx, &mut element);
    assert_eq!(
        element.operations,
        vec![Operation::Build(7), Operation::Rebuild { from: 7, to: 8 }]
    );
    assert_eq!(element.view_path, Vec::<ViewId>::new());
    assert!(cx.view_tree_changed);
}

#[test]
fn tearing_a_leaf_down_is_recorded() {
    let mut cx = PathCx::new();
    let view: Leaf = OperationView(7);
    let mut element = build_leaf(&view, &mut cx);
    View::<(), TraceAction, PathCx>::teardown(&view, &mut (), &mut cx, &mut element);
    assert_eq!(element.operations, vec![Operation::Build(7), Operation::Teardown(7)]);
    assert!(!cx.view_tree_changed);
}

#[test]
fn a_leaf_answers_with_its_number() {
    let view: Leaf = OperationView(7);
    let result = View::<(), TraceAction, PathCx>::message(
        &view,
        &mut (),
        &[],
        DynMessage::Custom(0, Vec::new()),
        &mut (),
    );
    assert!(matches!(result, MessageResult::Action(TraceAction { id: 7 })));
}
