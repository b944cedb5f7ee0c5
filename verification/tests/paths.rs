use xilem_core::{ViewId, ViewPathTracker};
use xilem_core::id_path::PathCx;

#[test]
fn push_and_pop_are_balanced() {
    let mut cx = PathCx::new();
    cx.push_id(ViewId::new(2));
    cx.push_id(ViewId::new(0));
    assert_eq!(cx.view_path(), &[ViewId::new(2), ViewId::new(0)]);
    cx.pop_id();
    assert_eq!(cx.view_path(), &[ViewId::new(2)]);
    cx.pop_id();
    cx.pop_id();
    assert!(cx.view_path().is_empty());
}
