//! The traversal context of a tree whose leaves are host widgets.

use std::collections::HashMap;
use vstd::prelude::*;
use vstd::view::View as _;
use crate::host::WidgetKey;
use crate::id_path::{copy_path, ViewId, ViewPathTracker};
use crate::widget::Pod;

verus! {

/// The context of a pass over a tree of widgets. Beside the path and the
/// change flag it keeps the table of the widgets that report actions: for each
/// the path of the node that built it, so that an action of the widget finds
/// its way back.
pub struct ViewCtx {
    /// The path of the node being visited.
    pub id_path: Vec<ViewId>,
    /// For each widget that reports actions, the path of its node.
    pub widget_map: HashMap<u64, Vec<ViewId>>,
    /// Whether a change of output was reported.
    pub view_tree_changed: bool,
}

impl ViewCtx {
    /// The table of widgets that report actions, as a map from the identity of
    /// a widget to the path of its node.
    pub open spec fn registry(&self) -> Map<WidgetKey, Seq<ViewId>> {
        Map::new(
            |id: WidgetKey| self.widget_map@.contains_key(id.0),
            |id: WidgetKey| self.widget_map@[id.0]@,
        )
    }

    /// A context at the root, with no widget recorded and no change reported.
    pub fn new() -> (ctx: ViewCtx)
        ensures
            ctx.path() == Seq::<ViewId>::empty(),
            ctx.registry() == Map::<WidgetKey, Seq<ViewId>>::empty(),
            !ctx.changed(),
    {
        let ctx = ViewCtx {
            id_path: Vec::new(),
            widget_map: HashMap::new(),
            view_tree_changed: false,
        };
        assert(ctx.registry() =~= Map::<WidgetKey, Seq<ViewId>>::empty());
        ctx
    }

    /// Records the widget of `pod` as one that reports actions to the node
    /// being visited.
    pub fn with_action_widget<W>(&mut self, pod: Pod<W>) -> (recorded: Pod<W>)
        ensures
            recorded == pod,
            final(self).registry() == old(self).registry().insert(pod.id, old(self).path()),
            final(self).path() == old(self).path(),
            final(self).changed() == old(self).changed(),
    {
        let path = copy_path(self.id_path.as_slice());
        self.widget_map.insert(pod.id.0, path);
        assert(self.registry() =~= old(self).registry().insert(pod.id, old(self).path()));
        pod
    }

    /// Records the widget of `pod` as [`ViewCtx::with_action_widget`] does,
    /// for a leaf that keeps no state of its own.
    pub fn with_leaf_action_widget<W>(&mut self, pod: Pod<W>) -> (built: (Pod<W>, ()))
        ensures
            built.0 == pod,
            final(self).registry() == old(self).registry().insert(pod.id, old(self).path()),
            final(self).path() == old(self).path(),
            final(self).changed() == old(self).changed(),
    {
        (self.with_action_widget(pod), ())
    }

    /// Forgets the widget of `element`: its actions no longer reach a node.
    pub fn teardown_leaf<W>(&mut self, element: &mut Pod<W>)
        ensures
            *final(element) == *old(element),
            final(self).registry() == old(self).registry().remove(old(element).id),
            final(self).path() == old(self).path(),
            final(self).changed() == old(self).changed(),
    {
        let _ = self.widget_map.remove(&element.id.0);
        assert(self.registry() =~= old(self).registry().remove(old(element).id));
    }

    /// The path of the node that the widget `id` reports to, if it is
    /// recorded.
    pub fn path_of(&self, id: WidgetKey) -> (path: Option<Vec<ViewId>>)
        ensures
            match path {
                Some(p) => self.registry().contains_key(id) && p@ == self.registry()[id],
                None => !self.registry().contains_key(id),
            },
    {
        match self.widget_map.get(&id.0) {
            Some(p) => Some(copy_path(p.as_slice())),
            None => None,
        }
    }
}

impl ViewPathTracker for ViewCtx {
    open spec fn path(&self) -> Seq<ViewId> {
        self.id_path@
    }

    open spec fn changed(&self) -> bool {
        self.view_tree_changed
    }

    fn push_id(&mut self, id: ViewId)
        ensures
            final(self).registry() == old(self).registry(),
    {
        self.id_path.push(id);
    }

    fn pop_id(&mut self)
        ensures
            final(self).registry() == old(self).registry(),
    {
        let _ = self.id_path.pop();
    }

    fn view_path(&mut self) -> (path: &[ViewId])
        ensures
            final(self).registry() == old(self).registry(),
    {
        self.id_path.as_slice()
    }

    fn mark_changed(&mut self)
        ensures
            final(self).registry() == old(self).registry(),
    {
        self.view_tree_changed = true;
    }
}

} // verus!
