//! The list of fields that a message holds: a `smallvec::SmallVec` with
//! room for six fields inline, reached through the items below.

use vstd::prelude::*;
use smallvec::SmallVec;
use crate::tlv::types::FieldType;

verus! {

/// The fields of a message, held in a `smallvec::SmallVec` with room for six
/// fields inline. Verus does not read the vector (its type is bounded by
/// `smallvec::Array`, a trait it cannot see), so the struct is opaque and the
/// functions below are the only way in.
#[verifier::external_body]
#[derive(Debug)]
pub struct FieldList {
    list: SmallVec<[(FieldType, Vec<u8>); 6]>,
}

/// The fields held by a list, in order, each with the bytes of its value.
pub uninterp spec fn field_entries(list: FieldList) -> Seq<(FieldType, Seq<u8>)>;

/// Calls `SmallVec::new`, which makes an empty list.
#[verifier::external_body]
pub(crate) fn new_field_list() -> (list: FieldList)
    ensures
        field_entries(list) == Seq::<(FieldType, Seq<u8>)>::empty(),
{
    FieldList { list: SmallVec::new() }
}

/// Calls `SmallVec::len`, the number of fields held.
#[verifier::external_body]
pub(crate) fn field_count(list: &FieldList) -> (n: usize)
    ensures
        n == field_entries(*list).len(),
{
    list.list.len()
}

/// Indexes the list (`SmallVec` derefs to a slice): the field at position `i`.
#[verifier::external_body]
pub(crate) fn field_at(list: &FieldList, i: usize) -> (entry: &(FieldType, Vec<u8>))
    requires
        i < field_entries(*list).len(),
    ensures
        entry.0 == field_entries(*list)[i as int].0,
        entry.1@ == field_entries(*list)[i as int].1,
{
    &list.list[i]
}

/// Indexes the list mutably and replaces the value of the field at position `i`.
#[verifier::external_body]
pub(crate) fn set_field_value(list: &mut FieldList, i: usize, value: Vec<u8>)
    requires
        i < field_entries(*old(list)).len(),
    ensures
        field_entries(*final(list)) == field_entries(*old(list)).update(
            i as int,
            (field_entries(*old(list))[i as int].0, value@),
        ),
{
    list.list[i].1 = value;
}

/// Calls `SmallVec::push`, which appends a field. Growing the heap buffer
/// panics on a capacity overflow; the bound below keeps well clear of it.
#[verifier::external_body]
pub(crate) fn push_field(list: &mut FieldList, field: FieldType, value: Vec<u8>)
    requires
        field_entries(*old(list)).len() < 0x100_0000,
    ensures
        field_entries(*final(list)) == field_entries(*old(list)).push((field, value@)),
{
    list.list.push((field, value));
}

/// Calls `SmallVec::clone`, which copies each field (the type and a clone of
/// the value bytes) into a new list.
#[verifier::external_body]
pub(crate) fn clone_field_list(list: &FieldList) -> (copy: FieldList)
    ensures
        field_entries(copy) == field_entries(*list),
{
    FieldList { list: list.list.clone() }
}

} // verus!
