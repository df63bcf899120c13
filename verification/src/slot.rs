use vstd::prelude::*;
use crate::detached_drop::DetachedDrop;
use crate::helper::IntoInnerHelper;
use crate::lifecycle::Op;

verus! {

/// A place for one cell that can be emptied through `&mut`.
///
/// A destructor has its value only by exclusive reference, and a cell is
/// ended only by value. The slot stands between the two: it is live while it
/// holds the cell, and its first terminal operation takes the cell out and
/// ends it, by extraction (`extract`) or by destruction (`destroy`). After
/// that the slot is consumed, and every operation on it finds nothing.
#[verifier::reject_recursive_types(T)]
pub struct Slot<T, D> where D: DetachedDrop<Implementor = T> {
    cell: Option<IntoInnerHelper<T, D>>,
}

impl<T, D> View for Slot<T, D> where D: DetachedDrop<Implementor = T> {
    type V = Option<T>;

    /// `Some` of the payload while the slot is live, `None` once it is
    /// consumed.
    closed spec fn view(&self) -> Option<T> {
        match self.cell {
            Some(cell) => Some(cell@),
            None => None,
        }
    }
}

impl<T, D> Slot<T, D> where D: DetachedDrop<Implementor = T> {
    /// Creates a live slot around a cell that owns `inner`.
    pub fn new(inner: T) -> (slot: Self)
        ensures
            slot@ == Some(inner),
    {
        Slot { cell: Some(IntoInnerHelper::new(inner)) }
    }

    /// Accesses the payload, if the slot is live.
    pub fn get(&self) -> (r: Option<&T>)
        ensures
            r is Some <==> self@ is Some,
            r is Some ==> self@ == Some(*r->0),
    {
        match &self.cell {
            Some(cell) => Some(cell.inner()),
            None => None,
        }
    }

    /// Accesses the payload mutably, if the slot is live. A live slot stays
    /// live and holds whatever the borrower leaves behind.
    pub fn get_mut(&mut self) -> (r: Option<&mut T>)
        ensures
            r is Some <==> old(self)@ is Some,
            r is Some ==> old(self)@ == Some(*r->0),
            r is Some ==> final(self)@ == Op::BorrowMut(*final(r->0)).leaves(old(self)@),
            r is None ==> final(self)@ is None,
    {
        match &mut self.cell {
            Some(cell) => Some(cell.inner_mut()),
            None => None,
        }
    }

    /// Extracts in place: hands the payload of a live slot to the caller and
    /// leaves the slot consumed. A consumed slot hands out nothing.
    pub fn extract(&mut self) -> (handed: Option<T>)
        ensures
            handed == Op::Extract.extracts(old(self)@),
            final(self)@ == Op::Extract.leaves(old(self)@),
    {
        match self.cell.take() {
            Some(cell) => Some(cell.into_inner()),
            None => None,
        }
    }

    /// Destroys in place: calls the finalizer on the payload of a live slot
    /// and leaves the slot consumed. Returns whether the finalizer was
    /// called; on a consumed slot it is not.
    pub fn destroy(&mut self) -> (ran: bool)
        ensures
            ran == (Op::Destroy.finalizes(old(self)@) is Some),
            Op::Destroy.finalizes(old(self)@) matches Some(payload) ==> call_ensures(
                D::drop,
                (payload,),
                (),
            ),
            final(self)@ == Op::Destroy.leaves(old(self)@),
    {
        match self.cell.take() {
            Some(cell) => {
                cell.destroy();
                true
            },
            None => false,
        }
    }
}

} // verus!
