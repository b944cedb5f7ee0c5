use xilem_core::{
    DynMessage, MessageResult, Operation, OperationView, OrphanImpl, OrphanView, PathCx,
    TraceAction, View, ViewId, ViewPathTracker,
};

#[test]
fn a_foreign_value_is_a_view_through_its_context() {
    let mut cx = PathCx::new();
    cx.push_id(ViewId::new(1));
    let (mut element, mut state) =
        View::<(), TraceAction, PathCx, OrphanImpl>::build(&7_u32, &mut cx);
    assert_eq!(element.operations, vec![Operation::Build(7)]);
    assert_eq!(element.view_path, vec![ViewId::new(1)]);

    View::<(), TraceAction, PathCx, OrphanImpl>::rebuild(
        &7_u32,
        &7_u32,
        &mut state,
        &mut cx,
        &mut element,
    );
    assert_eq!(element.operations, vec![Operation::Build(7)]);
    assert!(!cx.view_tree_changed);

    View::<(), TraceAction, PathCx, OrphanImpl>::rebuild(
        &8_u32,
        &7_u32,
        &mut state,
        &mut cx,
        &mut element,
    );
    assert_eq!(
        element.operations,
        vec![Operation::Build(7), Operation::Rebuild { from: 7, to: 8 }]
    );
    assert!(cx.view_tree_changed);
    assert!(View::<(), TraceAction, PathCx, OrphanImpl>::same_as(&8_u32, &8_u32));
    assert!(!View::<(), TraceAction, PathCx, OrphanImpl>::same_as(&8_u32, &9_u32));

    let result = View::<(), TraceAction, PathCx, OrphanImpl>::message(
        &8_u32,
        &mut state,
        &[],
        DynMessage::Custom(0, Vec::new()),
        &mut (),
    );
    assert!(matches!(result, MessageResult::Action(TraceAction { id: 8 })));

    View::<(), TraceAction, PathCx, OrphanImpl>::teardown(
        &8_u32,
        &mut state,
        &mut cx,
        &mut element,
    );
    assert_eq!(element.operations.last(), Some(&Operation::Teardown(8)));
    assert_eq!(cx.view_path(), &[ViewId::new(1)]);
    let view = <PathCx as OrphanView<u32, (), TraceAction>>::as_view(&3);
    assert!(matches!(view, OperationView(3)));
}
