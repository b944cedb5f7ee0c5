use xilem_core::{
    action_message, button, Button, ButtonWidget, DynMessage, MessageResult, Pod, View, ViewCtx,
    ViewId, ViewPathTracker, WidgetAction, WidgetKey,
};

fn counter(label: &str) -> Button<fn(&mut i32) -> i32> {
    fn bump(state: &mut i32) -> i32 {
        *state += 1;
        *state * 10
    }
    button(label, bump as fn(&mut i32) -> i32)
}

#[test]
fn build_records_the_widget_under_the_current_path() {
    let mut ctx = ViewCtx::new();
    ctx.push_id(ViewId::new(2));
    ctx.push_id(ViewId::new(0));
    let view = counter("Increment");
    let (element, ()) = View::<i32, i32, ViewCtx>::build(&view, &mut ctx);
    assert_eq!(element.widget.text, "Increment");
    assert_ne!(element.id.0, 0);
    assert_eq!(element.handle.to_raw(), element.id.0);
    assert_eq!(ctx.path_of(element.id), Some(vec![ViewId::new(2), ViewId::new(0)]));
    assert_eq!(ctx.view_path(), &[ViewId::new(2), ViewId::new(0)]);
    assert!(!ctx.view_tree_changed);
}

#[test]
fn a_pod_takes_the_number_of_the_identity_it_is_given() {
    let handle = masonry::core::WidgetId::reserved(5);
    let pod = Pod::with_id(ButtonWidget::new("x"), handle);
    assert_eq!(pod.id, WidgetKey(u64::MAX - 5));
    assert_eq!(pod.handle, handle);
    assert_eq!(pod.widget.text, "x");
}

#[test]
fn two_builds_get_two_widget_ids() {
    let mut ctx = ViewCtx::new();
    let (first, ()) = View::<i32, i32, ViewCtx>::build(&counter("a"), &mut ctx);
    let (second, ()) = View::<i32, i32, ViewCtx>::build(&counter("b"), &mut ctx);
    assert_ne!(first.id, second.id);
    assert_eq!(ctx.widget_map.len(), 2);
}

#[test]
fn rebuild_with_the_same_label_changes_nothing() {
    let mut ctx = ViewCtx::new();
    let prev = counter("Increment");
    let (mut element, mut state) = View::<i32, i32, ViewCtx>::build(&prev, &mut ctx);
    let id = element.id;
    let next = counter("Increment");
    View::<i32, i32, ViewCtx>::rebuild(&next, &prev, &mut state, &mut ctx, &mut element);
    assert_eq!(element.widget.text, "Increment");
    assert_eq!(element.id, id);
    assert!(!ctx.view_tree_changed);
}

#[test]
fn rebuild_with_another_label_sets_the_text_and_reports_it() {
    let mut ctx = ViewCtx::new();
    let prev = counter("Increment");
    let (mut element, mut state) = View::<i32, i32, ViewCtx>::build(&prev, &mut ctx);
    let id = element.id;
    let next = counter("Decrement");
    View::<i32, i32, ViewCtx>::rebuild(&next, &prev, &mut state, &mut ctx, &mut element);
    assert_eq!(element.widget.text, "Decrement");
    assert_eq!(element.id, id);
    assert!(ctx.view_tree_changed);
}

#[test]
fn teardown_forgets_the_widget() {
    let mut ctx = ViewCtx::new();
    let view = counter("Increment");
    let (mut element, mut state) = View::<i32, i32, ViewCtx>::build(&view, &mut ctx);
    View::<i32, i32, ViewCtx>::teardown(&view, &mut state, &mut ctx, &mut element);
    assert_eq!(ctx.path_of(element.id), None);
    assert!(ctx.widget_map.is_empty());
}

#[test]
fn a_press_calls_the_callback() {
    let view = counter("Increment");
    let mut app = 4;
    let result = View::<i32, i32, ViewCtx>::message(
        &view,
        &mut (),
        &[],
        DynMessage::Widget(WidgetAction::ButtonPressed(None)),
        &mut app,
    );
    assert!(matches!(result, MessageResult::Action(50)));
    assert_eq!(app, 5);
}

#[test]
fn a_press_reported_by_the_toolkit_calls_the_callback() {
    let view = counter("Increment");
    let mut app = 0;
    let message = action_message(masonry::core::Action::ButtonPressed(None));
    let result = View::<i32, i32, ViewCtx>::message(&view, &mut (), &[], message, &mut app);
    assert!(matches!(result, MessageResult::Action(10)));
    assert_eq!(app, 1);
}

#[test]
fn toolkit_actions_keep_their_fields() {
    assert!(matches!(
        action_message(masonry::core::Action::TextChanged("abc".to_string())),
        DynMessage::Widget(WidgetAction::TextChanged(text)) if text == "abc"
    ));
    assert!(matches!(
        action_message(masonry::core::Action::TextEntered("xyz".to_string())),
        DynMessage::Widget(WidgetAction::TextEntered(text)) if text == "xyz"
    ));
    assert!(matches!(
        action_message(masonry::core::Action::CheckboxToggled(true)),
        DynMessage::Widget(WidgetAction::CheckboxToggled(true))
    ));
    assert!(matches!(
        action_message(masonry::core::Action::Other(Box::new(7_u8))),
        DynMessage::Widget(WidgetAction::Other(masonry::core::Action::Other(payload)))
            if payload.downcast_ref::<u8>() == Some(&7)
    ));
}

#[test]
fn another_action_comes_back_stale() {
    let view = counter("Increment");
    let mut app = 4;
    let result = View::<i32, i32, ViewCtx>::message(
        &view,
        &mut (),
        &[],
        DynMessage::Widget(WidgetAction::CheckboxToggled(true)),
        &mut app,
    );
    assert!(matches!(
        result,
        MessageResult::Stale(DynMessage::Widget(WidgetAction::CheckboxToggled(true)))
    ));
    assert_eq!(app, 4);
}

#[test]
fn another_payload_comes_back_stale() {
    let view = counter("Increment");
    let mut app = 4;
    let result = View::<i32, i32, ViewCtx>::message(
        &view,
        &mut (),
        &[],
        DynMessage::Custom(9, vec![1, 2, 3]),
        &mut app,
    );
    assert!(matches!(
        result,
        MessageResult::Stale(DynMessage::Custom(9, bytes)) if bytes == vec![1, 2, 3]
    ));
    assert_eq!(app, 4);
}

#[test]
fn a_press_addressed_below_the_button_comes_back_stale() {
    let view = counter("Increment");
    let mut app = 4;
    let result = View::<i32, i32, ViewCtx>::message(
        &view,
        &mut (),
        &[ViewId::new(0)],
        DynMessage::Widget(WidgetAction::ButtonPressed(None)),
        &mut app,
    );
    assert!(matches!(
        result,
        MessageResult::Stale(DynMessage::Widget(WidgetAction::ButtonPressed(None)))
    ));
    assert_eq!(app, 4);
}

#[test]
fn every_press_runs_the_callback_once() {
    let view = counter("Increment");
    let mut app = 0;
    for expected in 1..=3 {
        let result = View::<i32, i32, ViewCtx>::message(
            &view,
            &mut (),
            &[],
            DynMessage::Widget(WidgetAction::ButtonPressed(None)),
            &mut app,
        );
        assert!(matches!(result, MessageResult::Action(answer) if answer == expected * 10));
        assert_eq!(app, expected);
    }
}

#[test]
fn the_label_plays_no_part_in_a_press() {
    let mut first = 7;
    let mut second = 7;
    let one = View::<i32, i32, ViewCtx>::message(
        &counter("a"),
        &mut (),
        &[],
        DynMessage::Widget(WidgetAction::ButtonPressed(None)),
        &mut first,
    );
    let other = View::<i32, i32, ViewCtx>::message(
        &counter("b"),
        &mut (),
        &[],
        DynMessage::Widget(WidgetAction::ButtonPressed(None)),
        &mut second,
    );
    assert!(matches!(one, MessageResult::Action(80)));
    assert!(matches!(other, MessageResult::Action(80)));
    assert_eq!(first, 8);
    assert_eq!(second, 8);
}

#[test]
fn a_rebuild_keeps_the_identity_of_the_widget() {
    let mut ctx = ViewCtx::new();
    let prev = counter("Increment");
    let (mut element, mut state) = View::<i32, i32, ViewCtx>::build(&prev, &mut ctx);
    let handle = element.handle;
    let next = counter("Decrement");
    View::<i32, i32, ViewCtx>::rebuild(&next, &prev, &mut state, &mut ctx, &mut element);
    assert_eq!(element.handle, handle);
    assert_eq!(element.handle.to_raw(), element.id.0);
}

#[test]
fn a_press_by_any_pointer_button_is_a_press() {
    let view = counter("Increment");
    let mut app = 0;
    let message = action_message(masonry::core::Action::ButtonPressed(Some(
        masonry::core::PointerButton::Secondary,
    )));
    let result = View::<i32, i32, ViewCtx>::message(&view, &mut (), &[], message, &mut app);
    assert!(matches!(result, MessageResult::Action(10)));
    assert_eq!(app, 1);
}

#[test]
fn an_action_the_button_does_not_take_comes_back_whole() {
    let view = counter("Increment");
    let mut app = 3;
    let message = action_message(masonry::core::Action::Other(Box::new("kept".to_string())));
    let result = View::<i32, i32, ViewCtx>::message(&view, &mut (), &[], message, &mut app);
    assert!(matches!(
        result,
        MessageResult::Stale(DynMessage::Widget(WidgetAction::Other(
            masonry::core::Action::Other(payload)
        ))) if payload.downcast_ref::<String>().map(String::as_str) == Some("kept")
    ));
    assert_eq!(app, 3);
    let message = action_message(masonry::core::Action::ButtonPressed(Some(
        masonry::core::PointerButton::Auxiliary,
    )));
    let result = View::<i32, i32, ViewCtx>::message(
        &view,
        &mut (),
        &[ViewId::new(1)],
        message,
        &mut app,
    );
    assert!(matches!(
        result,
        MessageResult::Stale(DynMessage::Widget(WidgetAction::ButtonPressed(Some(
            masonry::core::PointerButton::Auxiliary
        ))))
    ));
    assert_eq!(app, 3);
}
