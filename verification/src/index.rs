//! The ordered identifier index of a node store.
//!
//! The index is an `indexmap::IndexSet<u64>`: it finds the position of an
//! identifier in constant time and keeps the identifiers in an order that
//! only the calls below change. Verus does not look inside the set, so its
//! contents are named by `index_keys`, and each function of this file states
//! what one method of the set does to them. These statements are taken from
//! the documentation and source of the `indexmap` crate and are not proved.

use indexmap::IndexSet;
use std::hash::RandomState;
use vstd::prelude::*;

verus! {

/// `indexmap::IndexSet`, declared as a type whose inside is not read.
#[verifier::external_type_specification]
#[verifier::external_body]
#[verifier::reject_recursive_types(T)]
#[verifier::reject_recursive_types(S)]
pub struct ExIndexSet<T, S>(IndexSet<T, S>);

/// The identifiers that an index holds, in its order.
pub uninterp spec fn index_keys(index: IndexSet<u64, RandomState>) -> Seq<u64>;

/// `IndexSet::new`: a set that holds nothing.
#[verifier::external_body]
pub(crate) fn index_new() -> (index: IndexSet<u64, RandomState>)
    ensures
        index_keys(index) == Seq::<u64>::empty(),
{
    IndexSet::new()
}

/// `IndexSet::get_index_of`: the position of `key`, or `None` where the set
/// does not hold it.
#[verifier::external_body]
pub(crate) fn index_position(index: &IndexSet<u64, RandomState>, key: u64) -> (pos: Option<usize>)
    ensures
        match pos {
            Some(i) => i < index_keys(*index).len() && index_keys(*index)[i as int] == key,
            None => !index_keys(*index).contains(key),
        },
{
    index.get_index_of(&key)
}

/// `IndexSet::insert`: a key that the set does not hold is added last in
/// order and `true` is returned; a key that it holds leaves the set as it
/// was and `false` is returned.
#[verifier::external_body]
pub(crate) fn index_insert(index: &mut IndexSet<u64, RandomState>, key: u64) -> (added: bool)
    ensures
        added == !index_keys(*old(index)).contains(key),
        added ==> index_keys(*final(index)) == index_keys(*old(index)).push(key),
        !added ==> index_keys(*final(index)) == index_keys(*old(index)),
{
    index.insert(key)
}

/// `IndexSet::swap_remove_index`: the key at `pos` is taken out and returned,
/// and the last key takes its place; `None` and no change where `pos` is out
/// of range.
#[verifier::external_body]
pub(crate) fn index_swap_remove(index: &mut IndexSet<u64, RandomState>, pos: usize) -> (removed:
    Option<u64>)
    ensures
        pos < index_keys(*old(index)).len() ==> removed == Some(index_keys(*old(index))[pos as int])
            && index_keys(*final(index)) == index_keys(*old(index)).update(
            pos as int,
            index_keys(*old(index)).last(),
        ).drop_last(),
        pos >= index_keys(*old(index)).len() ==> removed.is_none() && index_keys(*final(index))
            == index_keys(*old(index)),
{
    index.swap_remove_index(pos)
}

/// `IndexSet::shift_remove_index`: the key at `pos` is taken out and
/// returned, and the keys behind it move up by one, in their order; `None`
/// and no change where `pos` is out of range.
#[verifier::external_body]
pub(crate) fn index_shift_remove(index: &mut IndexSet<u64, RandomState>, pos: usize) -> (removed:
    Option<u64>)
    ensures
        pos < index_keys(*old(index)).len() ==> removed == Some(index_keys(*old(index))[pos as int])
            && index_keys(*final(index)) == index_keys(*old(index)).remove(pos as int),
        pos >= index_keys(*old(index)).len() ==> removed.is_none() && index_keys(*final(index))
            == index_keys(*old(index)),
{
    index.shift_remove_index(pos)
}

/// `IndexSet::truncate`: the first `len` keys stay and the others are
/// dropped; no change where the set holds no more than `len`.
#[verifier::external_body]
pub(crate) fn index_truncate(index: &mut IndexSet<u64, RandomState>, len: usize)
    ensures
        len <= index_keys(*old(index)).len() ==> index_keys(*final(index)) == index_keys(
            *old(index),
        ).subrange(0, len as int),
        len > index_keys(*old(index)).len() ==> index_keys(*final(index)) == index_keys(
            *old(index),
        ),
{
    index.truncate(len)
}

} // verus!
