use xilem_core::id_path::{advance_generation, copy_path, same_path};
use xilem_core::{
    action_message, widget_message, AppendVec, DynMessage, ElementSplice, RecordingSplice,
    SeqChildren, SeqTracker, SpliceOp, ViewCtx, ViewId, ViewPathTracker, WidgetAction, WidgetKey,
};

fn path(segments: &[u64]) -> Vec<ViewId> {
    segments.iter().map(|segment| ViewId::new(*segment)).collect()
}

#[test]
fn generations_follow_one_another_and_wrap() {
    assert_eq!(advance_generation(0), 1);
    assert_eq!(advance_generation(41), 42);
    assert_eq!(advance_generation(u64::MAX), 0);
}

#[test]
fn paths_are_compared_segment_by_segment() {
    assert!(same_path(&path(&[]), &path(&[])));
    assert!(same_path(&path(&[2, 0]), &path(&[2, 0])));
    assert!(!same_path(&path(&[2, 0]), &path(&[2, 1])));
    assert!(!same_path(&path(&[2, 0]), &path(&[2])));
    assert!(!same_path(&path(&[]), &path(&[0])));
    assert_eq!(copy_path(&path(&[3, 1, 4])), path(&[3, 1, 4]));
    assert_eq!(ViewId::new(9).routing_id(), 9);
}

#[test]
fn an_append_vec_keeps_the_order_and_drains_empty() {
    let mut list = AppendVec::new();
    assert!(list.is_empty());
    list.push(3);
    list.push(1);
    list.push(2);
    assert_eq!(list.len(), 3);
    assert_eq!(list.drain(), vec![3, 1, 2]);
    assert!(list.is_empty());
    list.push(7);
    assert_eq!(list.into_inner(), vec![7]);
}

#[test]
fn steps_past_elements_are_recorded_as_one() {
    let children = SeqChildren { active: vec![1, 2, 3, 4], deleted: Vec::new() };
    let mut splice = RecordingSplice::new(SeqTracker::new(children, AppendVec::new()));
    splice.skip(1);
    splice.skip(2);
    *splice.mutate() = 40;
    splice.skip(0);
    splice.insert(5);
    assert_eq!(
        splice.log,
        vec![SpliceOp::Skip(3), SpliceOp::Mutate, SpliceOp::Skip(0), SpliceOp::Insert]
    );
    assert_eq!(splice.inner.inner.active, vec![1, 2, 3, 40, 5]);
    assert_eq!(splice.inner.ix, 5);
}

#[test]
fn steps_whose_sum_does_not_fit_stay_apart() {
    let children: SeqChildren<u8> = SeqChildren::new();
    let mut splice = RecordingSplice::new(SeqTracker::new(children, AppendVec::new()));
    splice.record(SpliceOp::Skip(usize::MAX));
    splice.record(SpliceOp::Skip(1));
    splice.record(SpliceOp::Delete);
    splice.record(SpliceOp::Skip(2));
    splice.record(SpliceOp::Skip(3));
    assert_eq!(
        splice.log,
        vec![SpliceOp::Skip(usize::MAX), SpliceOp::Skip(1), SpliceOp::Delete, SpliceOp::Skip(5)]
    );
}

#[test]
fn draining_the_scratch_list_counts_as_insertions() {
    let children = SeqChildren { active: vec![1, 4], deleted: Vec::new() };
    let mut splice = RecordingSplice::new(SeqTracker::new(children, AppendVec::new()));
    splice.skip(1);
    splice.with_scratch().push(2);
    splice.with_scratch().push(3);
    splice.drain_scratch();
    *splice.delete() += 10;
    assert_eq!(
        splice.log,
        vec![SpliceOp::Skip(1), SpliceOp::Insert, SpliceOp::Insert, SpliceOp::Delete]
    );
    assert_eq!(splice.inner.inner.active, vec![1, 2, 3]);
    assert_eq!(splice.inner.inner.deleted, vec![(1, 14)]);
    assert_eq!(splice.inner.ix, 3);
    assert_eq!(splice.inner.origin, 2);
    assert!(splice.inner.scratch.is_empty());
}

#[test]
fn a_payload_is_narrowed_or_handed_back() {
    assert!(matches!(
        DynMessage::Widget(WidgetAction::TextChanged("a".to_string())).downcast_action(),
        Ok(WidgetAction::TextChanged(text)) if text == "a"
    ));
    assert!(matches!(
        DynMessage::Custom(3, vec![1]).downcast_action(),
        Err(DynMessage::Custom(3, bytes)) if bytes == vec![1]
    ));
}

#[test]
fn a_fresh_context_knows_no_widget() {
    let mut ctx = ViewCtx::new();
    assert!(ctx.view_path().is_empty());
    assert!(ctx.widget_map.is_empty());
    assert!(!ctx.view_tree_changed);
    assert_eq!(ctx.path_of(WidgetKey(1)), None);
    ctx.mark_changed();
    assert!(ctx.view_tree_changed);
    ctx.pop_id();
    assert!(ctx.view_path().is_empty());
}

#[test]
fn a_widget_action_is_carried_as_it_is() {
    assert!(matches!(
        widget_message(WidgetAction::CheckboxToggled(false)),
        DynMessage::Widget(WidgetAction::CheckboxToggled(false))
    ));
    assert!(matches!(
        widget_message(WidgetAction::TextEntered("go".to_string())),
        DynMessage::Widget(WidgetAction::TextEntered(text)) if text == "go"
    ));
    assert!(matches!(
        widget_message(WidgetAction::ButtonPressed(None)),
        DynMessage::Widget(WidgetAction::ButtonPressed(None))
    ));
}

#[test]
fn a_press_with_a_pointer_button_is_a_press() {
    let pressed = action_message(masonry::core::Action::ButtonPressed(Some(
        masonry::core::PointerButton::Primary,
    )));
    assert!(matches!(
        pressed,
        DynMessage::Widget(WidgetAction::ButtonPressed(Some(masonry::core::PointerButton::Primary)))
    ));
    let toggled = action_message(masonry::core::Action::CheckboxToggled(false));
    assert!(matches!(toggled, DynMessage::Widget(WidgetAction::CheckboxToggled(false))));
}
