//! Content-addressed blob storage.
//!
//! A stored object is keyed by a 64-bit hash of its payload bytes, so two
//! uploads of byte-identical payloads collapse to one stored object. The
//! hash is fast and non-cryptographic: a collision between different
//! payloads silently conflates them, an accepted risk for this domain.

use crate::table;
use std::collections::hash_map::DefaultHasher;
use std::hash::Hasher;
use vstd::prelude::*;
use vstd::std_specs::hash::DefaultHasherAdditionalSpecFns;

verus! {

/// The content hash of a payload: the result of std's `DefaultHasher` after
/// exactly one write of the payload bytes. Deterministic in the bytes alone.
pub open spec fn content_hash(bytes: Seq<u8>) -> u64 {
    DefaultHasher::spec_finish(seq![bytes])
}

/// Computes the content hash of `bytes`.
pub fn hash_bytes(bytes: &[u8]) -> (r: u64)
    ensures
        r == content_hash(bytes@),
{
    let mut hasher = DefaultHasher::new();
    hasher.write(bytes);
    proof {
        assert(hasher@ =~= seq![bytes@]);
    }
    hasher.finish()
}

/// Deduplicated blob storage addressed by a content-derived object reference.
pub trait Storage<T>: Sized {
    /// The objects held, keyed by object reference.
    spec fn objects(&self) -> Map<T, (Seq<u8>, Seq<char>)>;

    /// The object reference under which a payload is stored: a deterministic
    /// function of the payload bytes alone, which is what makes the store
    /// content-addressed.
    spec fn ref_of(bytes: Seq<u8>) -> T;

    /// Stores a payload under its content-derived reference, overwriting any
    /// prior entry under the same reference. Never fails.
    fn store(&mut self, bytes: Vec<u8>, content_type: String) -> (r: T)
        ensures
            r == Self::ref_of(bytes@),
            final(self).objects() == old(self).objects().insert(
                Self::ref_of(bytes@),
                (bytes@, content_type@),
            ),
    ;

    /// Returns a clone of the stored entry, or nothing if absent.
    fn retrieve(&self, object_id: &T) -> (r: Option<(Vec<u8>, String)>)
        ensures
            match r {
                Some(p) => self.objects().contains_key(*object_id) && p.0@
                    == self.objects()[*object_id].0 && p.1@ == self.objects()[*object_id].1,
                None => !self.objects().contains_key(*object_id),
            },
    ;

    /// Existence check without materializing the payload.
    fn contains(&self, object_id: &T) -> (r: bool)
        ensures
            r == self.objects().contains_key(*object_id),
    ;

    /// Removes the entry unconditionally; doing nothing when it is absent.
    fn delete(&mut self, object_id: &T)
        ensures
            final(self).objects() == old(self).objects().remove(*object_id),
    ;
}

/// In-memory blob storage over a concurrent table.
#[derive(Debug)]
pub struct Memory(dashmap::DashMap<u64, (Vec<u8>, String)>);

impl Storage<u64> for Memory {
    closed spec fn objects(&self) -> Map<u64, (Seq<u8>, Seq<char>)> {
        table::blob_contents(self.0)
    }

    open spec fn ref_of(bytes: Seq<u8>) -> u64 {
        content_hash(bytes)
    }

    fn store(&mut self, bytes: Vec<u8>, content_type: String) -> (r: u64) {
        let object_id = hash_bytes(bytes.as_slice());
        table::blob_insert(&mut self.0, object_id, bytes, content_type);
        object_id
    }

    fn retrieve(&self, object_id: &u64) -> (r: Option<(Vec<u8>, String)>) {
        table::blob_get(&self.0, *object_id)
    }

    fn contains(&self, object_id: &u64) -> (r: bool) {
        table::blob_contains(&self.0, *object_id)
    }

    fn delete(&mut self, object_id: &u64) {
        table::blob_remove(&mut self.0, *object_id);
    }
}

impl Default for Memory {
    /// An empty store.
    fn default() -> (r: Self)
        ensures
            r.objects() == Map::<u64, (Seq<u8>, Seq<char>)>::empty(),
    {
        Memory(table::new_blob_table())
    }
}

} // verus!
