use vstd::prelude::*;
use crate::detached_drop::DetachedDrop;

verus! {

/// A live cell: one payload, bound to the finalizer `D`.
///
/// A cell is ended by value, and so at most once: `into_inner` hands the
/// payload to the caller, `destroy` hands it to the finalizer. Whoever holds
/// a cell holds a payload; there is no consumed cell to ask anything of.
///
/// Going out of scope is not an operation of the cell: a cell that is merely
/// dropped drops its payload as any field is dropped. An owner that wants the
/// payload finalized on every path keeps the cell in a `Slot` and calls
/// `Slot::destroy` from its own destructor.
#[verifier::reject_recursive_types(T)]
pub struct IntoInnerHelper<T, D> where D: DetachedDrop<Implementor = T> {
    inner: T,
    _phantom: core::marker::PhantomData<D>,
}

impl<T, D> View for IntoInnerHelper<T, D> where D: DetachedDrop<Implementor = T> {
    type V = T;

    /// The payload.
    closed spec fn view(&self) -> T {
        self.inner
    }
}

impl<T, D> IntoInnerHelper<T, D> where D: DetachedDrop<Implementor = T> {
    /// Creates a cell that owns `inner`.
    pub fn new(inner: T) -> (cell: Self)
        ensures
            cell@ == inner,
    {
        IntoInnerHelper { inner, _phantom: core::marker::PhantomData }
    }

    /// Accesses the payload.
    pub fn inner(&self) -> (r: &T)
        ensures
            *r == self@,
    {
        &self.inner
    }

    /// Accesses the payload mutably. The cell then owns whatever the borrower
    /// leaves behind.
    pub fn inner_mut(&mut self) -> (r: &mut T)
        ensures
            *r == old(self)@,
            final(self)@ == *final(r),
    {
        &mut self.inner
    }

    /// Ends the cell by extraction: moves the payload out to the caller. The
    /// finalizer never sees it.
    pub fn into_inner(self) -> (r: T)
        ensures
            r == self@,
    {
        self.inner
    }

    /// Ends the cell by destruction: calls the finalizer on the payload, by
    /// value. When this returns, the call `D::drop(payload)` has returned.
    pub fn destroy(self)
        ensures
            call_ensures(D::drop, (self@,), ()),
    {
        D::drop(self.inner)
    }
}

} // verus!
