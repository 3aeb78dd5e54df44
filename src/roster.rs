//! The stack of drives, held in a fixed-capacity vector of `heapless`.
use crate::floppy_drive::FloppyDrive;
use vstd::prelude::*;

verus! {

/// Most drives that one device drives.
pub const MAX_DRIVE_COUNT: usize = 8;

#[verifier::external_type_specification]
#[verifier::external_body]
#[verifier::reject_recursive_types(T)]
pub struct ExHeaplessVec<T, const N: usize>(heapless::Vec<T, N>);

/// The drives in a stack, in index order.
pub uninterp spec fn stack_drives(v: heapless::Vec<FloppyDrive, MAX_DRIVE_COUNT>) -> Seq<FloppyDrive>;

/// Relies on heapless::Vec::new: a new vector is empty.
#[verifier::external_body]
pub(crate) fn stack_new() -> (r: heapless::Vec<FloppyDrive, MAX_DRIVE_COUNT>)
    ensures
        stack_drives(r) == Seq::<FloppyDrive>::empty(),
{
    heapless::Vec::new()
}

/// Relies on heapless::Vec::push: appends while below capacity, else hands
/// the item back and leaves the vector as it was.
#[verifier::external_body]
pub(crate) fn stack_push(v: &mut heapless::Vec<FloppyDrive, MAX_DRIVE_COUNT>, d: FloppyDrive) -> (rejected: Option<FloppyDrive>)
    ensures
        rejected is None <==> stack_drives(*old(v)).len() < MAX_DRIVE_COUNT,
        rejected is None ==> stack_drives(*final(v)) == stack_drives(*old(v)).push(d),
        rejected is Some ==> rejected == Some(d) && stack_drives(*final(v)) == stack_drives(*old(v)),
{
    v.push(d).err()
}

/// Relies on heapless::Vec's length (through its slice), which never
/// exceeds the capacity.
#[verifier::external_body]
pub(crate) fn stack_len(v: &heapless::Vec<FloppyDrive, MAX_DRIVE_COUNT>) -> (r: usize)
    ensures
        r == stack_drives(*v).len(),
        r <= MAX_DRIVE_COUNT,
{
    v.len()
}

/// Relies on indexing heapless::Vec (through its slice): a copy of the item.
#[verifier::external_body]
pub(crate) fn stack_get(v: &heapless::Vec<FloppyDrive, MAX_DRIVE_COUNT>, i: usize) -> (r: FloppyDrive)
    requires
        i < stack_drives(*v).len(),
    ensures
        r == stack_drives(*v)[i as int],
{
    v[i]
}

/// Relies on mutable indexing of heapless::Vec (through its slice): the
/// item is replaced, the others kept.
#[verifier::external_body]
pub(crate) fn stack_set(v: &mut heapless::Vec<FloppyDrive, MAX_DRIVE_COUNT>, i: usize, d: FloppyDrive)
    requires
        i < stack_drives(*old(v)).len(),
    ensures
        stack_drives(*final(v)) == stack_drives(*old(v)).update(i as int, d),
{
    v[i] = d;
}

} // verus!
