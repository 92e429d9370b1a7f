//! The entry hash of a serialized clone request.
//!
//! A cell that no request asks for any more is retracted from the providers of
//! the request entry that carried its modifiers; that entry's hash is computed
//! here from the request's serialized bytes.
use vstd::prelude::*;
use crate::hashes::EntryHash;

verus! {

/// The largest app entry, in bytes, that Holochain accepts.
pub const ENTRY_SIZE_LIMIT: usize = 4000000usize;

/// The 36 bytes after the prefix of the hash of the app entry whose serialized
/// content is `serialized`.
pub uninterp spec fn app_entry_hash(serialized: Seq<u8>) -> Seq<u8>;

/// Hashes an app entry with `holo_hash::HoloHashed::<Entry>::from_content_sync`,
/// after `Entry::app` has wrapped the bytes.
///
/// Claimed of the outside code: `Entry::app` refuses exactly the contents of more
/// than `ENTRY_SIZE_LIMIT` bytes (then `None`); otherwise the hash is a function
/// of the bytes alone (blake2b over the serialized entry, then the location
/// bytes), and `get_raw_36` hands back its 36 bytes after the prefix.
#[verifier::external_body]
fn hash_app_entry(serialized: &Vec<u8>) -> (r: Option<Vec<u8>>)
    ensures
        r is None <==> serialized@.len() > ENTRY_SIZE_LIMIT,
        r matches Some(h) ==> h@ == app_entry_hash(serialized@) && h@.len() == 36,
{
    let bytes = hdi::prelude::SerializedBytes::from(hdi::prelude::UnsafeBytes::from(serialized.clone()));
    match hdi::prelude::Entry::app(bytes) {
        Ok(entry) => Some(
            holo_hash::HoloHashed::<hdi::prelude::Entry>::from_content_sync(entry).hash.get_raw_36().to_vec(),
        ),
        Err(_) => None,
    }
}

/// An app entry refused for its size.
#[derive(Debug, PartialEq, Eq)]
pub struct EntryTooLarge {
    pub size: usize,
}

/// What becomes of the hashing of an app entry of `size` bytes: the hash it
/// gave, or, where the entry was refused, the error that names its size.
pub fn entry_hash_from_hashed(size: usize, hashed: Option<Vec<u8>>) -> (r: Result<EntryHash, EntryTooLarge>)
    ensures
        match hashed {
            Some(core) => r matches Ok(h) && h.core@ == core@,
            None => r matches Err(e) && e.size == size,
        },
{
    match hashed {
        Some(core) => Ok(EntryHash { core }),
        None => Err(EntryTooLarge { size }),
    }
}

/// The entry hash of a clone request, from the request's serialized bytes.
pub fn clone_request_entry_hash(serialized_request: &Vec<u8>) -> (r: Result<EntryHash, EntryTooLarge>)
    ensures
        match r {
            Ok(h) => serialized_request@.len() <= ENTRY_SIZE_LIMIT && h.core@ == app_entry_hash(
                serialized_request@,
            ),
            Err(e) => serialized_request@.len() > ENTRY_SIZE_LIMIT && e.size == serialized_request@.len(),
        },
{
    let hashed = hash_app_entry(serialized_request);
    entry_hash_from_hashed(serialized_request.len(), hashed)
}

} // verus!
