//! Elements, and elements that stand in for elements of several kinds.

use vstd::prelude::*;
use vstd::view::View as _;

verus! {

/// What a view builds. Beside what can be observed of an element (its `@`),
/// the tree needs two coarser notions.
pub trait ViewElement: vstd::view::View {
    /// Whether the two elements stand for the same node in the same shape:
    /// a view that retains one of them retains the other.
    spec fn alike(&self, other: &Self) -> bool;

    /// Whether the element is as a build leaves it.
    spec fn fresh(&self) -> bool;
}

/// An element that can hold a `Child`, so that a place in the tree whose kind
/// of view may change from cycle to cycle keeps one kind of element.
pub trait SuperElement<Child: ViewElement>: ViewElement + Sized {
    /// Whether the element holds a `Child` now.
    spec fn holds(&self) -> bool;

    /// The `Child` that the element holds.
    spec fn held(&self) -> Child;

    /// Elements that are alike hold children that are alike.
    proof fn alike_held(&self, other: &Self)
        requires
            self.alike(other),
            self.holds(),
        ensures
            other.holds(),
            self.held().alike(&other.held()),
    ;

    /// Wraps a newly built `child`.
    fn upcast(child: Child) -> (this: Self)
        ensures
            this.holds(),
            this.held() == child,
            this.fresh() == child.fresh(),
    ;

    /// Hands out the `Child` that `this` holds, for editing. Where nothing
    /// that can be observed of the child changes, nothing does of `this`.
    fn downcast_mut(this: &mut Self) -> (child: &mut Child)
        requires
            old(this).holds(),
        ensures
            *child == old(this).held(),
            final(this).holds(),
            final(this).held() == *final(child),
            final(child)@ == child@ ==> final(this)@ == old(this)@,
    ;
}

/// A [`SuperElement`] whose content can be exchanged for a newly built one,
/// of the same kind or of another.
pub trait AnyElement<Child: ViewElement>: SuperElement<Child> {
    /// What `replace_inner` does, from the element before and the child to
    /// the element after.
    spec fn replaced(before: Self, child: Child, after: Self) -> bool;

    /// Puts the newly built `child` in the place of what `this` held. What
    /// `this` holds afterwards is like `child`.
    fn replace_inner(this: &mut Self, child: Child)
        requires
            child.fresh(),
        ensures
            final(this).holds(),
            child.alike(&final(this).held()),
            Self::replaced(*old(this), child, *final(this)),
    ;
}

} // verus!
