//! Deletion authorization. A blob's secret is its storage timestamp,
//! formatted as the decimal whole seconds since the Unix epoch; deletion is
//! allowed exactly when the caller supplies that string. The policy when the
//! blob is gone or the secret fails: not-found wins when the file is already
//! gone, forbidden only when the file exists and the secret mismatches.

use vstd::prelude::*;

use crate::store::lemma_remove_get_none;
use crate::store::store_get;
use crate::store::store_remove;
use crate::text::dec_str_of;
use crate::text::u64_to_string;

verus! {

/// What a delete request is entitled to.
#[derive(PartialEq, Eq, Structural, Clone, Copy, Debug)]
pub enum DeleteDecision {
    /// The blob exists and the secret matches: remove it.
    Remove,
    /// The blob exists but the secret does not match.
    RejectForbidden,
    /// No blob exists for the identifier.
    RejectNotFound,
}

/// The secret for a blob stored at `modified_secs` whole seconds since the
/// epoch.
pub open spec fn secret_of(modified_secs: u64) -> Seq<char> {
    dec_str_of(modified_secs as nat)
}

/// The deletion policy as a function of what is known about the blob.
pub open spec fn spec_delete_decision(
    exists: bool,
    supplied: Seq<char>,
    modified_secs: u64,
) -> DeleteDecision {
    if !exists {
        DeleteDecision::RejectNotFound
    } else if supplied == secret_of(modified_secs) {
        DeleteDecision::Remove
    } else {
        DeleteDecision::RejectForbidden
    }
}

/// Decides a delete request: `exists` says whether the blob's file is
/// present, `modified_secs` is its modification time in whole seconds.
/// Authorized exactly when the supplied secret string-equals the formatted
/// timestamp. The decision never mutates anything; the caller performs the
/// removal.
pub fn delete_decision(exists: bool, supplied: &String, modified_secs: u64) -> (d: DeleteDecision)
    ensures
        d == spec_delete_decision(exists, supplied@, modified_secs),
{
    if !exists {
        DeleteDecision::RejectNotFound
    } else {
        let ts = u64_to_string(modified_secs);
        if *supplied == ts {
            DeleteDecision::Remove
        } else {
            DeleteDecision::RejectForbidden
        }
    }
}

/// The secret disclosed at upload time is a capability: supplied back
/// verbatim it authorizes removal, and the blob is gone afterwards; any other
/// string is rejected with forbidden and the store is left unchanged.
pub proof fn lemma_secret_capability(
    fs: Map<Seq<char>, Seq<u8>>,
    name: Seq<char>,
    supplied: Seq<char>,
    modified_secs: u64,
)
    requires
        fs.dom().contains(name),
    ensures
        spec_delete_decision(true, secret_of(modified_secs), modified_secs)
            == DeleteDecision::Remove,
        store_get(store_remove(fs, name), name) == None::<Seq<u8>>,
        supplied != secret_of(modified_secs) ==> spec_delete_decision(true, supplied, modified_secs)
            == DeleteDecision::RejectForbidden,
        supplied != secret_of(modified_secs) ==> store_get(fs, name) == Some(fs[name]),
{
    lemma_remove_get_none(fs, name);
}

} // verus!
