//! The button view.

use vstd::prelude::*;
use vstd::view::View as _;
use crate::ctx::ViewCtx;
use crate::host::widget_raw;
use crate::id_path::{ViewId, ViewPathTracker};
use crate::message::{DynMessage, MessageResult, WidgetAction};
use crate::view::View;
use crate::widget::{ButtonWidget, Pod};

verus! {

/// A button labelled `label` that answers a press with what `callback` makes
/// of the application's state.
pub fn button<F, State, Action>(label: &str, callback: F) -> (view: Button<F>) where
    F: Fn(&mut State) -> Action + Send + 'static,

    ensures
        view.text() == label@,
        view.handler() == callback,
{
    Button { label: label.to_owned(), callback }
}

/// The view of a button: its label, and what a press does.
pub struct Button<F> {
    label: String,
    callback: F,
}

impl<F> Button<F> {
    /// The label.
    pub closed spec fn text(&self) -> Seq<char> {
        self.label@
    }

    /// What a press calls.
    pub closed spec fn handler(&self) -> F {
        self.callback
    }
}

/// Whether the message is the press of a button.
pub open spec fn is_press(message: DynMessage) -> bool {
    message matches DynMessage::Widget(WidgetAction::ButtonPressed(_))
}

impl<F, State, Action> View<State, Action, ViewCtx> for Button<F> where
    F: Fn(&mut State) -> Action + Send + Sync + 'static,
 {
    type Element = Pod<ButtonWidget>;

    type ViewState = ();

    open spec fn message_requires(
        &self,
        state: (),
        id_path: Seq<ViewId>,
        message: DynMessage,
        app: State,
    ) -> bool {
        id_path.len() == 0 && is_press(message)
            ==> forall|handed: &mut State|
            mut_ref_current(handed) == app ==> call_requires(self.handler(), (handed,))
    }

    open spec fn same(&self, prev: &Self) -> bool {
        self.text() == prev.text()
    }

    open spec fn retained(&self, state: (), element: Pod<ButtonWidget>, path: Seq<ViewId>) -> bool {
        element.widget@ == self.text()
    }

    open spec fn build_ensures(
        &self,
        before: ViewCtx,
        after: ViewCtx,
        element: Pod<ButtonWidget>,
        state: (),
    ) -> bool {
        &&& element.widget@ == self.text()
        &&& element.id.0 == widget_raw(element.handle)
        &&& element.id.0 != 0
        &&& after.registry() == before.registry().insert(element.id, before.path())
        &&& after.path() == before.path()
        &&& after.changed() == before.changed()
    }

    open spec fn rebuild_ensures(
        &self,
        prev: &Self,
        state_before: (),
        state_after: (),
        before: ViewCtx,
        after: ViewCtx,
        element_before: Pod<ButtonWidget>,
        element_after: Pod<ButtonWidget>,
    ) -> bool {
        &&& element_after.id == element_before.id
        &&& element_after.handle == element_before.handle
        &&& element_after.widget@ == self.text()
        &&& after.registry() == before.registry()
        &&& after.path() == before.path()
        &&& after.changed() == (before.changed() || self.text() != prev.text())
    }

    open spec fn teardown_ensures(
        &self,
        state_before: (),
        state_after: (),
        before: ViewCtx,
        after: ViewCtx,
        element_before: Pod<ButtonWidget>,
        element_after: Pod<ButtonWidget>,
    ) -> bool {
        &&& element_after == element_before
        &&& after.registry() == before.registry().remove(element_before.id)
        &&& after.path() == before.path()
        &&& after.changed() == before.changed()
    }

    open spec fn message_ensures(
        &self,
        state_before: (),
        state_after: (),
        id_path: Seq<ViewId>,
        message: DynMessage,
        app: &mut State,
        app_after: State,
        result: MessageResult<Action>,
    ) -> bool {
        if id_path.len() == 0 && is_press(message) {
            result matches MessageResult::Action(action) && call_ensures(
                self.handler(),
                (app,),
                action,
            )
        } else {
            result == MessageResult::<Action>::Stale(message) && app_after == *app
        }
    }

    proof fn same_retained(
        &self,
        prev: &Self,
        state: (),
        element: Pod<ButtonWidget>,
        path: Seq<ViewId>,
    ) {
    }

    proof fn retained_alike(
        &self,
        state: (),
        element: Pod<ButtonWidget>,
        other: Pod<ButtonWidget>,
        path: Seq<ViewId>,
    ) {
    }

    fn same_as(&self, prev: &Self) -> (same: bool) {
        self.label == prev.label
    }

    fn build(&self, ctx: &mut ViewCtx) -> (built: (Pod<ButtonWidget>, ())) {
        ctx.with_leaf_action_widget(Pod::new(ButtonWidget::new(self.label.as_str())))
    }

    fn rebuild(
        &self,
        prev: &Self,
        view_state: &mut (),
        ctx: &mut ViewCtx,
        element: &mut Pod<ButtonWidget>,
    ) {
        if !(prev.label == self.label) {
            element.widget.set_text(self.label.as_str());
            ctx.mark_changed();
        }
    }

    fn teardown(&self, view_state: &mut (), ctx: &mut ViewCtx, element: &mut Pod<ButtonWidget>) {
        ctx.teardown_leaf(element);
    }

    fn message(
        &self,
        view_state: &mut (),
        id_path: &[ViewId],
        message: DynMessage,
        app_state: &mut State,
    ) -> (result: MessageResult<Action>) {
        let ghost sent = message;
        if id_path.len() != 0 {
            let result = MessageResult::Stale(message);
            proof {
                assert(<Self as View<State, Action, ViewCtx>>::message_ensures(
                    self,
                    (),
                    (),
                    id_path@,
                    sent,
                    old(app_state),
                    *app_state,
                    result,
                ));
            }
            return result;
        }
        match message.downcast_action() {
            Ok(action) => match action {
                WidgetAction::ButtonPressed(_) => {
                    assert(self.handler() == self.callback);
                    let action = (self.callback)(app_state);
                    let result = MessageResult::Action(action);
                    proof {
                        let app = choose|app: &mut State|
                            mut_ref_current(app) == *old(app_state) && mut_ref_future(app)
                                == *app_state && #[trigger] call_ensures(
                                self.callback,
                                (app,),
                                action,
                            );
                        assert(<Self as View<State, Action, ViewCtx>>::message_ensures(
                            self,
                            (),
                            (),
                            id_path@,
                            sent,
                            app,
                            *app_state,
                            result,
                        ));
                    }
                    result
                },
                other => {
                    let result = MessageResult::Stale(DynMessage::Widget(other));
                    proof {
                        assert(<Self as View<State, Action, ViewCtx>>::message_ensures(
                            self,
                            (),
                            (),
                            id_path@,
                            sent,
                            old(app_state),
                            *app_state,
                            result,
                        ));
                    }
                    result
                },
            },
            Err(message) => {
                let result = MessageResult::Stale(message);
                proof {
                    assert(<Self as View<State, Action, ViewCtx>>::message_ensures(
                        self,
                        (),
                        (),
                        id_path@,
                        sent,
                        old(app_state),
                        *app_state,
                        result,
                    ));
                }
                result
            },
        }
    }
}

/// The path under which a button's widget is recorded is the path on which
/// the button was built, and a teardown of the element that the build left
/// takes the record away again.
pub proof fn button_path_is_recorded<F, State, Action>(
    view: Button<F>,
    before_build: ViewCtx,
    after_build: ViewCtx,
    element: Pod<ButtonWidget>,
    before_teardown: ViewCtx,
    after_teardown: ViewCtx,
    torn: Pod<ButtonWidget>,
) where F: Fn(&mut State) -> Action + Send + Sync + 'static
    requires
        View::<State, Action, ViewCtx>::build_ensures(
            &view,
            before_build,
            after_build,
            element,
            (),
        ),
        View::<State, Action, ViewCtx>::teardown_ensures(
            &view,
            (),
            (),
            before_teardown,
            after_teardown,
            element,
            torn,
        ),
    ensures
        after_build.registry().contains_key(element.id),
        after_build.registry()[element.id] == before_build.path(),
        !after_teardown.registry().contains_key(element.id),
{
}

/// A button takes a message where its callback accepts the application's
/// state as it is. More is not asked, and of a message that is no press at
/// the button itself nothing is asked: see [`no_press_is_admitted`].
pub proof fn press_is_admitted<F, State, Action>(
    view: Button<F>,
    id_path: Seq<ViewId>,
    message: DynMessage,
    app: State,
) where F: Fn(&mut State) -> Action + Send + Sync + 'static
    requires
        forall|handed: &mut State|
            mut_ref_current(handed) == app ==> call_requires(view.handler(), (handed,)),
    ensures
        View::<State, Action, ViewCtx>::message_requires(&view, (), id_path, message, app),
{
}

/// A button takes every message that is no press at the button itself,
/// whatever its callback accepts: the callback is not called.
pub proof fn no_press_is_admitted<F, State, Action>(
    view: Button<F>,
    id_path: Seq<ViewId>,
    message: DynMessage,
    app: State,
) where F: Fn(&mut State) -> Action + Send + Sync + 'static
    requires
        id_path.len() != 0 || !is_press(message),
    ensures
        View::<State, Action, ViewCtx>::message_requires(&view, (), id_path, message, app),
{
}

/// What a button answers. To a press at the button itself: the action that
/// the callback returns, the application being left as the callback leaves
/// it; `app` is the state as the callback receives it. To anything else:
/// `Stale` with the message as it came, the application untouched.
pub proof fn button_answer<F, State, Action>(
    view: Button<F>,
    id_path: Seq<ViewId>,
    message: DynMessage,
    app: &mut State,
    app_after: State,
    result: MessageResult<Action>,
) where F: Fn(&mut State) -> Action + Send + Sync + 'static
    requires
        View::<State, Action, ViewCtx>::message_ensures(
            &view,
            (),
            (),
            id_path,
            message,
            app,
            app_after,
            result,
        ),
    ensures
        if id_path.len() == 0 && is_press(message) {
            result matches MessageResult::Action(action) && call_ensures(
                view.handler(),
                (app,),
                action,
            )
        } else {
            result == MessageResult::<Action>::Stale(message) && app_after == mut_ref_current(app)
        },
{
}

} // verus!
