//! The bounded list that holds a snake's body: `arrayvec::ArrayVec` with room
//! for every cell of the grid. Nothing here is proved: each function states
//! what is assumed of the outside method that it calls.

use arrayvec::ArrayVec;
use vstd::prelude::*;

verus! {

/// Makes `arrayvec::ArrayVec` known to the verifier, as a type whose inside
/// it does not see.
#[verifier::external_type_specification]
#[verifier::external_body]
#[verifier::reject_recursive_types(T)]
pub struct ExArrayVec<T, const CAP: usize>(ArrayVec<T, CAP>);

/// The cells that a list holds, first to last.
pub uninterp spec fn cells_of(list: ArrayVec<(usize, usize), 25>) -> Seq<(usize, usize)>;

/// `ArrayVec::new`: the new list is empty.
#[verifier::external_body]
pub(crate) fn list_new() -> (list: ArrayVec<(usize, usize), 25>)
    ensures
        cells_of(list) == Seq::<(usize, usize)>::empty(),
{
    ArrayVec::new()
}

/// `ArrayVec::push`: appends `cell` behind the last one. The outside method
/// panics on a full list, so a full list is not admitted.
#[verifier::external_body]
pub(crate) fn list_push(list: &mut ArrayVec<(usize, usize), 25>, cell: (usize, usize))
    requires
        cells_of(*old(list)).len() < 25,
    ensures
        cells_of(*final(list)) == cells_of(*old(list)).push(cell),
{
    list.push(cell)
}

/// `ArrayVec::insert`: puts `cell` at position `index` and moves what stood
/// there, and all behind it, one place back. The outside method panics on a
/// full list and on an index beyond the length, so neither is admitted; on
/// what is admitted it does not unwind.
#[verifier::external_body]
pub(crate) fn list_insert(
    list: &mut ArrayVec<(usize, usize), 25>,
    index: usize,
    cell: (usize, usize),
)
    requires
        cells_of(*old(list)).len() < 25,
        index <= cells_of(*old(list)).len(),
    ensures
        cells_of(*final(list)) == cells_of(*old(list)).insert(index as int, cell),
    no_unwind
{
    list.insert(index, cell)
}

/// `ArrayVec::pop`: takes the last cell off and returns it; an empty list
/// stays empty and gives `None`. It never unwinds.
#[verifier::external_body]
pub(crate) fn list_pop(list: &mut ArrayVec<(usize, usize), 25>) -> (last: Option<(usize, usize)>)
    ensures
        cells_of(*old(list)).len() == 0 ==> last is None && cells_of(*final(list)) == cells_of(
            *old(list),
        ),
        cells_of(*old(list)).len() > 0 ==> last == Some(cells_of(*old(list)).last())
            && cells_of(*final(list)) == cells_of(*old(list)).drop_last(),
    no_unwind
{
    list.pop()
}

/// `ArrayVec::as_slice`: the slice holds the list's cells, in the list's order.
#[verifier::external_body]
pub(crate) fn list_as_slice(list: &ArrayVec<(usize, usize), 25>) -> (cells: &[(usize, usize)])
    ensures
        cells@ == cells_of(*list),
{
    list.as_slice()
}

} // verus!
