//! The life of a cell as a state machine, and what holds of every history.
//!
//! A slot is modelled as `Option<T>`: `Some(p)` while it is live and holds a
//! cell that owns `p`, `None` once the cell has been ended. Each method of
//! `Slot` is one [`Op`], and its contract is stated by the step functions of
//! that operation; the contract of `Slot::destroy` adds that the payload
//! which [`Op::finalizes`] names is the one the finalizer was called on. A
//! cell held by value is a live slot whose terminal operations can have
//! nothing after them.
//!
//! A history is a sequence of operations applied to one slot from left to
//! right; the lemmas below say where the payload goes over a whole history.

use vstd::prelude::*;

verus! {

/// An operation on a slot.
pub enum Op<T> {
    /// Shared access to the payload, as by `get` and `inner`.
    Borrow,
    /// Exclusive access to the payload, as by `get_mut` and `inner_mut`,
    /// after which the slot holds this value.
    BorrowMut(T),
    /// Extraction, as by `extract` and `into_inner`: the payload goes to the
    /// caller.
    Extract,
    /// Destruction, as by `destroy`: the payload goes to the finalizer.
    Destroy,
}

impl<T> Op<T> {
    /// Whether this operation only accesses the payload in place.
    pub open spec fn is_access(self) -> bool {
        self is Borrow || self is BorrowMut
    }

    /// The slot after this operation. Nothing revives a consumed slot.
    pub open spec fn leaves(self, slot: Option<T>) -> Option<T> {
        match self {
            Op::Borrow => slot,
            Op::BorrowMut(left) => if slot is Some {
                Some(left)
            } else {
                None
            },
            Op::Extract => None,
            Op::Destroy => None,
        }
    }

    /// The payload that this operation hands to the caller.
    pub open spec fn extracts(self, slot: Option<T>) -> Option<T> {
        match self {
            Op::Extract => slot,
            _ => None,
        }
    }

    /// The payload that this operation hands to the finalizer.
    pub open spec fn finalizes(self, slot: Option<T>) -> Option<T> {
        match self {
            Op::Destroy => slot,
            _ => None,
        }
    }
}

/// The payloads of `handed`, as a sequence of length zero or one.
pub open spec fn handed_seq<T>(handed: Option<T>) -> Seq<T> {
    match handed {
        Some(payload) => seq![payload],
        None => Seq::empty(),
    }
}

/// The slot after the operations `ops`, applied from left to right.
pub open spec fn slot_after<T>(slot: Option<T>, ops: Seq<Op<T>>) -> Option<T>
    decreases ops.len(),
{
    if ops.len() == 0 {
        slot
    } else {
        slot_after(ops[0].leaves(slot), ops.drop_first())
    }
}

/// Every payload that the finalizer receives over the history `ops`.
pub open spec fn finalizer_log<T>(slot: Option<T>, ops: Seq<Op<T>>) -> Seq<T>
    decreases ops.len(),
{
    if ops.len() == 0 {
        Seq::empty()
    } else {
        handed_seq(ops[0].finalizes(slot)) + finalizer_log(
            ops[0].leaves(slot),
            ops.drop_first(),
        )
    }
}

/// Every payload that is handed to the caller over the history `ops`.
pub open spec fn extraction_log<T>(slot: Option<T>, ops: Seq<Op<T>>) -> Seq<T>
    decreases ops.len(),
{
    if ops.len() == 0 {
        Seq::empty()
    } else {
        handed_seq(ops[0].extracts(slot)) + extraction_log(
            ops[0].leaves(slot),
            ops.drop_first(),
        )
    }
}

/// Whether `ops[i]` is the first terminal operation of the history `ops`:
/// everything before it only accesses the payload.
pub open spec fn first_terminal_at<T>(ops: Seq<Op<T>>, i: int) -> bool {
    &&& 0 <= i < ops.len()
    &&& !ops[i].is_access()
    &&& forall|j: int| 0 <= j < i ==> (#[trigger] ops[j]).is_access()
}

/// Whether the history destroys the cell without extraction: its first
/// terminal operation is a destruction.
pub open spec fn destroyed_unextracted<T>(ops: Seq<Op<T>>) -> bool {
    exists|i: int| first_terminal_at(ops, i) && ops[i] is Destroy
}

/// Whether the history extracts from the cell: its first terminal operation
/// is an extraction.
pub open spec fn extracted<T>(ops: Seq<Op<T>>) -> bool {
    exists|i: int| first_terminal_at(ops, i) && ops[i] is Extract
}

/// The number of finalizer calls over a population of cells, each given by
/// the payload it is created around and its history.
pub open spec fn finalizer_calls<T>(cells: Seq<(T, Seq<Op<T>>)>) -> nat
    decreases cells.len(),
{
    if cells.len() == 0 {
        0
    } else {
        let (payload, ops) = cells.last();
        finalizer_calls(cells.drop_last()) + finalizer_log(Some(payload), ops).len()
    }
}

/// The number of cells of a population that are destroyed without extraction.
pub open spec fn destroyed_cells<T>(cells: Seq<(T, Seq<Op<T>>)>) -> nat
    decreases cells.len(),
{
    if cells.len() == 0 {
        0
    } else {
        let (_, ops) = cells.last();
        destroyed_cells(cells.drop_last()) + if destroyed_unextracted(ops) {
            1nat
        } else {
            0nat
        }
    }
}

/// A consumed slot is inert: it stays consumed, and neither the finalizer nor
/// the caller receives anything from it, whatever is done to it.
pub proof fn lemma_consumed_is_inert<T>(ops: Seq<Op<T>>)
    ensures
        slot_after(None::<T>, ops) is None,
        finalizer_log(None::<T>, ops) == Seq::<T>::empty(),
        extraction_log(None::<T>, ops) == Seq::<T>::empty(),
    decreases ops.len(),
{
    if ops.len() > 0 {
        lemma_consumed_is_inert(ops.drop_first());
    }
}

/// A live slot that is destroyed hands its payload to the finalizer, and the
/// finalizer is not called a second time, whatever follows.
pub proof fn lemma_destroyed_finalizes_once<T>(payload: T, rest: Seq<Op<T>>)
    ensures
        finalizer_log(Some(payload), seq![Op::Destroy] + rest) == seq![payload],
        extraction_log(Some(payload), seq![Op::Destroy] + rest) == Seq::<T>::empty(),
{
    let ops = seq![Op::Destroy] + rest;
    assert(ops.drop_first() == rest);
    lemma_consumed_is_inert(rest);
}

/// A live slot whose payload is extracted hands it to the caller, and the
/// finalizer is never called, whatever follows.
pub proof fn lemma_extracted_never_finalizes<T>(payload: T, rest: Seq<Op<T>>)
    ensures
        finalizer_log(Some(payload), seq![Op::Extract] + rest) == Seq::<T>::empty(),
        extraction_log(Some(payload), seq![Op::Extract] + rest) == seq![payload],
{
    let ops = seq![Op::Extract] + rest;
    assert(ops.drop_first() == rest);
    lemma_consumed_is_inert(rest);
}

/// Accesses change nothing but the payload: after any number of them a live
/// slot is still live, and what follows hands over as it would have without
/// them, to the same recipient and as often.
pub proof fn lemma_accesses_keep_live<T>(slot: Option<T>, accesses: Seq<Op<T>>, rest: Seq<Op<T>>)
    requires
        slot is Some,
        forall|j: int| 0 <= j < accesses.len() ==> (#[trigger] accesses[j]).is_access(),
    ensures
        slot_after(slot, accesses) is Some,
        (forall|j: int| 0 <= j < accesses.len() ==> #[trigger] accesses[j] is Borrow)
            ==> slot_after(slot, accesses) == slot,
        slot_after(slot, accesses + rest) == slot_after(slot_after(slot, accesses), rest),
        finalizer_log(slot, accesses + rest) == finalizer_log(slot_after(slot, accesses), rest),
        extraction_log(slot, accesses + rest) == extraction_log(slot_after(slot, accesses), rest),
    decreases accesses.len(),
{
    if accesses.len() > 0 {
        let ops = accesses + rest;
        assert(ops.drop_first() == accesses.drop_first() + rest);
        lemma_accesses_keep_live(accesses[0].leaves(slot), accesses.drop_first(), rest);
    }
}

/// The first terminal operation on a live slot decides where the payload
/// goes: a destruction hands it to the finalizer and an extraction to the
/// caller, as the accesses before it left it. It is handed over once, and
/// never to both.
pub proof fn lemma_first_terminal_decides<T>(slot: Option<T>, ops: Seq<Op<T>>, i: int)
    requires
        slot is Some,
        first_terminal_at(ops, i),
    ensures
        slot_after(slot, ops.take(i)) is Some,
        ops[i] is Destroy ==> finalizer_log(slot, ops) == handed_seq(
            slot_after(slot, ops.take(i)),
        ),
        ops[i] is Destroy ==> extraction_log(slot, ops) == Seq::<T>::empty(),
        ops[i] is Extract ==> extraction_log(slot, ops) == handed_seq(
            slot_after(slot, ops.take(i)),
        ),
        ops[i] is Extract ==> finalizer_log(slot, ops) == Seq::<T>::empty(),
{
    let accesses = ops.take(i);
    let tail = ops.skip(i);
    assert(ops == accesses + tail);
    lemma_accesses_keep_live(slot, accesses, tail);
    lemma_consumed_is_inert(tail.drop_first());
}

/// A history without a terminal operation hands the payload to nobody.
pub proof fn lemma_unfinished_hands_nothing<T>(slot: Option<T>, ops: Seq<Op<T>>)
    requires
        forall|j: int| 0 <= j < ops.len() ==> (#[trigger] ops[j]).is_access(),
    ensures
        finalizer_log(slot, ops) == Seq::<T>::empty(),
        extraction_log(slot, ops) == Seq::<T>::empty(),
    decreases ops.len(),
{
    if ops.len() > 0 {
        lemma_unfinished_hands_nothing(ops[0].leaves(slot), ops.drop_first());
    }
}

/// A history that does more than access the payload has a first terminal
/// operation.
proof fn lemma_has_first_terminal<T>(ops: Seq<Op<T>>)
    ensures
        (forall|j: int| 0 <= j < ops.len() ==> (#[trigger] ops[j]).is_access()) || (exists|i: int|
            first_terminal_at(ops, i)),
    decreases ops.len(),
{
    if ops.len() > 0 {
        let front = ops.drop_last();
        lemma_has_first_terminal(front);
        if exists|i: int| first_terminal_at(front, i) {
            let i = choose|i: int| first_terminal_at(front, i);
            assert forall|j: int| 0 <= j < i implies (#[trigger] ops[j]).is_access() by {
                assert(front[j].is_access());
            }
            assert(first_terminal_at(ops, i));
        } else if ops.last().is_access() {
            assert forall|j: int| 0 <= j < ops.len() implies (#[trigger] ops[j]).is_access() by {
                if j < front.len() {
                    assert(front[j].is_access());
                }
            }
        } else {
            assert forall|j: int| 0 <= j < ops.len() - 1 implies (#[trigger] ops[j]).is_access() by {
                assert(front[j].is_access());
            }
            assert(first_terminal_at(ops, ops.len() - 1));
        }
    }
}

/// Over any history of a live slot the finalizer is called once if the cell
/// is destroyed without extraction, and never otherwise; likewise the caller
/// receives the payload once if it is extracted, and never otherwise. No
/// history does both.
pub proof fn lemma_finalized_iff_destroyed<T>(slot: Option<T>, ops: Seq<Op<T>>)
    requires
        slot is Some,
    ensures
        destroyed_unextracted(ops) ==> finalizer_log(slot, ops).len() == 1,
        !destroyed_unextracted(ops) ==> finalizer_log(slot, ops).len() == 0,
        extracted(ops) ==> extraction_log(slot, ops).len() == 1,
        !extracted(ops) ==> extraction_log(slot, ops).len() == 0,
        !(destroyed_unextracted(ops) && extracted(ops)),
{
    lemma_has_first_terminal(ops);
    if exists|i: int| first_terminal_at(ops, i) {
        let i = choose|i: int| first_terminal_at(ops, i);
        lemma_first_terminal_decides(slot, ops, i);
    } else {
        lemma_unfinished_hands_nothing(slot, ops);
    }
}

/// Accesses before the terminal operations on a live slot change neither how
/// often the finalizer is called nor how often the caller receives the payload.
pub proof fn lemma_accesses_change_no_count<T>(
    slot: Option<T>,
    accesses: Seq<Op<T>>,
    rest: Seq<Op<T>>,
)
    requires
        slot is Some,
        forall|j: int| 0 <= j < accesses.len() ==> (#[trigger] accesses[j]).is_access(),
    ensures
        finalizer_log(slot, accesses + rest).len() == finalizer_log(slot, rest).len(),
        extraction_log(slot, accesses + rest).len() == extraction_log(slot, rest).len(),
{
    lemma_accesses_keep_live(slot, accesses, rest);
    lemma_finalized_iff_destroyed(slot_after(slot, accesses), rest);
    lemma_finalized_iff_destroyed(slot, rest);
}

/// Over any population of cells, the finalizer is called as many times as
/// there are cells that are destroyed without extraction.
pub proof fn lemma_finalizer_calls_count<T>(cells: Seq<(T, Seq<Op<T>>)>)
    ensures
        finalizer_calls(cells) == destroyed_cells(cells),
    decreases cells.len(),
{
    if cells.len() > 0 {
        let (payload, ops) = cells.last();
        lemma_finalizer_calls_count(cells.drop_last());
        lemma_finalized_iff_destroyed(Some(payload), ops);
    }
}

} // verus!
