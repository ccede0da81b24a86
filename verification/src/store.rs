//! A model of the storage directory as a map from file names to content
//! bytes. The store owns the on-disk layout: one file per blob, named by the
//! identifier with the raw-content suffix, no metadata sidecar. Writing,
//! reading and removing a blob are the three map operations below; the
//! round-trip law ties them to identifier generation and route parsing.

use vstd::prelude::*;

use crate::ident::ident_of;
use crate::ident::lemma_ident_chars;
use crate::route::blob_name;
use crate::route::lemma_ident_route;
use crate::route::stem_of;

verus! {

/// The directory after a blob is written: the file holds exactly the content,
/// and a blob already stored under the same name is silently overwritten.
pub open spec fn store_put(
    fs: Map<Seq<char>, Seq<u8>>,
    name: Seq<char>,
    content: Seq<u8>,
) -> Map<Seq<char>, Seq<u8>> {
    fs.insert(name, content)
}

/// Reading a blob: the stored bytes, or nothing when no file of that name
/// exists.
pub open spec fn store_get(fs: Map<Seq<char>, Seq<u8>>, name: Seq<char>) -> Option<Seq<u8>> {
    if fs.dom().contains(name) {
        Some(fs[name])
    } else {
        None
    }
}

/// The directory after a blob is removed.
pub open spec fn store_remove(fs: Map<Seq<char>, Seq<u8>>, name: Seq<char>) -> Map<
    Seq<char>,
    Seq<u8>,
> {
    fs.remove(name)
}

/// Round trip: after uploading content `b`, fetching through the route parser
/// with the identifier the upload returned yields exactly `b`, byte for byte,
/// for every content including the empty and the non-UTF-8.
pub proof fn lemma_put_get_round_trip(fs: Map<Seq<char>, Seq<u8>>, b: Seq<u8>)
    ensures
        store_get(store_put(fs, blob_name(ident_of(b)), b), blob_name(stem_of(ident_of(b))))
            == Some(b),
{
    lemma_ident_chars(b);
    lemma_ident_route(ident_of(b));
}

/// A removed blob is gone: reading it afterwards finds nothing.
pub proof fn lemma_remove_get_none(fs: Map<Seq<char>, Seq<u8>>, name: Seq<char>)
    ensures
        store_get(store_remove(fs, name), name) == None::<Seq<u8>>,
{
}

/// Removing one blob leaves every other blob untouched.
pub proof fn lemma_remove_preserves_others(
    fs: Map<Seq<char>, Seq<u8>>,
    name: Seq<char>,
    other: Seq<char>,
)
    requires
        other != name,
    ensures
        store_get(store_remove(fs, name), other) == store_get(fs, other),
{
}

} // verus!
