use vstd::prelude::*;

verus! {

/// A finalizer: what happens to the payload of a cell that is destroyed.
///
/// The operation belongs to the type and not to a value of it, so a marker
/// type without state is enough to carry it. One payload type can be paired
/// with several finalizers.
pub trait DetachedDrop {
    /// The payload that this finalizer consumes.
    type Implementor;

    /// Consumes the payload of a cell that is destroyed.
    ///
    /// The payload arrives by value, so the finalizer may take it apart. A
    /// cell calls this at most once, and never once its payload has been
    /// extracted. What the finalizer does is its own business: nothing is
    /// promised of it and nothing it does is caught.
    fn drop(value: Self::Implementor);
}

} // verus!
