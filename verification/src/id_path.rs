//! Identity paths: the address of a node in the view tree.

use vstd::prelude::*;

verus! {

/// One segment of an identity path. A parent gives each child a segment that
/// no sibling shares; the segments from the root down address one node.
#[derive(Clone, Copy, Debug, PartialEq, Eq, Structural, Hash)]
pub struct ViewId(pub u64);

impl ViewId {
    /// The segment with the given raw value.
    pub fn new(raw: u64) -> (id: ViewId)
        ensures
            id == ViewId(raw),
    {
        ViewId(raw)
    }

    /// The raw value that a parent routes by.
    pub fn routing_id(self) -> (raw: u64)
        ensures
            raw == self.0,
    {
        self.0
    }
}

/// The generation that follows `generation`. A place whose content comes and
/// goes is addressed by its generation, so that a message to an earlier
/// content finds nobody.
pub open spec fn next_generation(generation: u64) -> u64 {
    if generation == u64::MAX {
        0
    } else {
        (generation + 1) as u64
    }
}

/// Computes [`next_generation`].
pub fn advance_generation(generation: u64) -> (next: u64)
    ensures
        next == next_generation(generation),
{
    if generation == u64::MAX {
        0
    } else {
        generation + 1
    }
}

/// The traversal context of one pass over the view tree: the path of the node
/// being visited, and whether any node has reported that its output changed.
pub trait ViewPathTracker {
    /// The path of the node being visited, root first.
    spec fn path(&self) -> Seq<ViewId>;

    /// Whether a change of output has been reported during this pass.
    spec fn changed(&self) -> bool;

    /// Descends into the child with segment `id`.
    fn push_id(&mut self, id: ViewId)
        ensures
            final(self).path() == old(self).path().push(id),
            final(self).changed() == old(self).changed(),
    ;

    /// Returns to the parent. At the root there is nothing to leave, and the
    /// path stays empty.
    fn pop_id(&mut self)
        ensures
            final(self).path() == if old(self).path().len() > 0 {
                old(self).path().drop_last()
            } else {
                old(self).path()
            },
            final(self).changed() == old(self).changed(),
    ;

    /// The path of the node being visited.
    fn view_path(&mut self) -> (path: &[ViewId])
        ensures
            path@ == old(self).path(),
            final(self).path() == old(self).path(),
            final(self).changed() == old(self).changed(),
    ;

    /// Reports that the node being visited changed what it shows.
    fn mark_changed(&mut self)
        ensures
            final(self).path() == old(self).path(),
            final(self).changed(),
    ;
}

/// A copy of `path`.
pub fn copy_path(path: &[ViewId]) -> (copy: Vec<ViewId>)
    ensures
        copy@ == path@,
{
    let mut copy: Vec<ViewId> = Vec::new();
    let mut i: usize = 0;
    while i < path.len()
        invariant
            i <= path.len(),
            copy@ == path@.subrange(0, i as int),
        decreases path.len() - i,
    {
        copy.push(path[i]);
        i += 1;
    }
    copy
}

/// Whether two paths hold the same segments in the same order.
pub fn same_path(a: &[ViewId], b: &[ViewId]) -> (same: bool)
    ensures
        same == (a@ == b@),
{
    if a.len() != b.len() {
        return false;
    }
    let mut i: usize = 0;
    while i < a.len()
        invariant
            i <= a.len(),
            a.len() == b.len(),
            a@.subrange(0, i as int) == b@.subrange(0, i as int),
        decreases a.len() - i,
    {
        if a[i].0 != b[i].0 {
            assert(a@[i as int] != b@[i as int]);
            return false;
        }
        assert(a@.subrange(0, i + 1) == a@.subrange(0, i as int).push(a@[i as int]));
        assert(b@.subrange(0, i + 1) == b@.subrange(0, i as int).push(b@[i as int]));
        i += 1;
    }
    assert(a@ == a@.subrange(0, a.len() as int));
    assert(b@ == b@.subrange(0, b.len() as int));
    true
}

/// A tracker that keeps the path and the change flag and nothing else.
pub struct PathCx {
    /// The path of the node being visited.
    pub id_path: Vec<ViewId>,
    /// Whether a change of output was reported.
    pub view_tree_changed: bool,
}

impl PathCx {
    /// A tracker at the root, with no change reported.
    pub fn new() -> (cx: PathCx)
        ensures
            cx.path() == Seq::<ViewId>::empty(),
            !cx.changed(),
    {
        PathCx { id_path: Vec::new(), view_tree_changed: false }
    }
}

impl ViewPathTracker for PathCx {
    open spec fn path(&self) -> Seq<ViewId> {
        self.id_path@
    }

    open spec fn changed(&self) -> bool {
        self.view_tree_changed
    }

    fn push_id(&mut self, id: ViewId) {
        self.id_path.push(id);
    }

    fn pop_id(&mut self) {
        let _ = self.id_path.pop();
    }

    fn view_path(&mut self) -> (path: &[ViewId]) {
        self.id_path.as_slice()
    }

    fn mark_changed(&mut self) {
        self.view_tree_changed = true;
    }
}

} // verus!
