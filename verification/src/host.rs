//! The values of the Soroban host that the ledgers hold, and what is taken on
//! trust about them.
//!
//! A host value is a handle: the vector or string itself is kept by the host,
//! and every operation on it is a call into the host. Nothing in this module is
//! proved. Each function states what the named method of `soroban_sdk` does,
//! and the proofs of the ledgers rest on these statements.
//!
//! The host meters every call and ends the invocation when its budget is
//! spent. Like running out of memory, that may happen at any call; what is
//! stated here holds of every call that returns.

use vstd::prelude::*;

verus! {

/// `soroban_sdk::Vec`: a handle to a vector that the host keeps.
#[verifier::external_type_specification]
#[verifier::external_body]
#[verifier::reject_recursive_types(T)]
pub struct ExHostVec<T>(soroban_sdk::Vec<T>);

/// `soroban_sdk::String`: a handle to a string that the host keeps. The
/// ledgers store such strings and hand them back, and never look inside.
#[verifier::external_type_specification]
#[verifier::external_body]
pub struct ExHostString(soroban_sdk::String);

/// What a host vector of numbers holds, in order: for each item the number
/// that it is, or nothing where it is not an unsigned 64-bit number.
pub uninterp spec fn history_entries(history: soroban_sdk::Vec<u64>) -> Seq<Option<u64>>;

/// `soroban_sdk::Vec::len`: the number of items that the vector holds.
#[verifier::external_body]
pub(crate) fn history_len(history: &soroban_sdk::Vec<u64>) -> (len: u32)
    ensures
        len == history_entries(*history).len(),
{
    history.len()
}

/// `soroban_sdk::Vec::try_get`: the item at position `i` as a number. There
/// is none beyond the end of the vector, and none where the item is not an
/// unsigned 64-bit number, which the method reports as an error.
#[verifier::external_body]
pub(crate) fn history_get(history: &soroban_sdk::Vec<u64>, i: u32) -> (entry: Option<u64>)
    ensures
        entry == if i < history_entries(*history).len() {
            history_entries(*history)[i as int]
        } else {
            None
        },
{
    match history.try_get(i) {
        Ok(entry) => entry,
        Err(_) => None,
    }
}

/// `soroban_sdk::Vec::push_back`: the vector is one item longer, and the
/// number stands in the last position.
#[verifier::external_body]
pub(crate) fn history_push_back(history: &mut soroban_sdk::Vec<u64>, entry: u64)
    ensures
        history_entries(*final(history)) == history_entries(*old(history)).push(Some(entry)),
{
    history.push_back(entry)
}

/// `soroban_sdk::Vec::remove`: the item at position `i` leaves the vector and
/// the items behind it move up by one; beyond the end nothing is removed and
/// the vector stays as it is.
#[verifier::external_body]
pub(crate) fn history_remove(history: &mut soroban_sdk::Vec<u64>, i: u32) -> (removed: Option<()>)
    ensures
        removed is Some <==> i < history_entries(*old(history)).len(),
        removed is Some ==> history_entries(*final(history)) == history_entries(
            *old(history),
        ).remove(i as int),
        removed is None ==> *final(history) == *old(history),
{
    history.remove(i)
}

} // verus!
