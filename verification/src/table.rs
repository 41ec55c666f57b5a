//! Trusted interface to dashmap's concurrent hash table.
//!
//! The binding table (handle value -> object reference) and the blob table
//! (object reference -> payload and content type) are both `dashmap::DashMap`s.
//! Verus sees each table only through the contents functions below and the
//! wrappers that state, over those contents, what dashmap's operations do.

use vstd::prelude::*;

verus! {

#[verifier::external_type_specification]
#[verifier::external_body]
#[verifier::reject_recursive_types(K)]
#[verifier::reject_recursive_types(V)]
#[verifier::reject_recursive_types(S)]
pub struct ExDashMap<K, V, S>(dashmap::DashMap<K, V, S>);

/// The entries of a binding table: handle value -> object reference.
pub uninterp spec fn binding_contents(m: dashmap::DashMap<u64, u64>) -> Map<u64, u64>;

/// The entries of a blob table: object reference -> (payload bytes, content type).
pub uninterp spec fn blob_contents(m: dashmap::DashMap<u64, (Vec<u8>, String)>) -> Map<
    u64,
    (Seq<u8>, Seq<char>),
>;

/// No entries at all.
pub open spec fn no_bindings() -> Map<u64, u64> {
    Map::empty()
}

/// No entries at all.
pub open spec fn no_blobs() -> Map<u64, (Seq<u8>, Seq<char>)> {
    Map::empty()
}

/// Relies on dashmap::DashMap::new: the new map is empty.
#[verifier::external_body]
pub(crate) fn new_binding_table() -> (r: dashmap::DashMap<u64, u64>)
    ensures
        binding_contents(r) == no_bindings(),
{
    dashmap::DashMap::new()
}

/// Relies on dashmap::DashMap::entry: the entry is inserted only when the key
/// was vacant, and the check and the insertion are one atomic step.
#[verifier::external_body]
pub(crate) fn binding_insert_if_absent(
    m: &mut dashmap::DashMap<u64, u64>,
    key: u64,
    value: u64,
) -> (inserted: bool)
    ensures
        inserted == !binding_contents(*old(m)).contains_key(key),
        binding_contents(*final(m)) == (if inserted {
            binding_contents(*old(m)).insert(key, value)
        } else {
            binding_contents(*old(m))
        }),
{
    match m.entry(key) {
        dashmap::mapref::entry::Entry::Occupied(_) => false,
        dashmap::mapref::entry::Entry::Vacant(vacant) => {
            vacant.insert(value);
            true
        },
    }
}

/// Relies on dashmap::DashMap::get: returns the value stored under `key`, if any.
#[verifier::external_body]
pub(crate) fn binding_get(m: &dashmap::DashMap<u64, u64>, key: u64) -> (r: Option<u64>)
    ensures
        r == (if binding_contents(*m).contains_key(key) {
            Some(binding_contents(*m)[key])
        } else {
            None::<u64>
        }),
{
    m.get(&key).map(|entry| *entry)
}

/// Relies on dashmap::DashMap::remove: the entry under `key` is gone afterwards.
#[verifier::external_body]
pub(crate) fn binding_remove(m: &mut dashmap::DashMap<u64, u64>, key: u64)
    ensures
        binding_contents(*final(m)) == binding_contents(*old(m)).remove(key),
{
    m.remove(&key);
}

/// Relies on dashmap::DashMap::new: the new map is empty.
#[verifier::external_body]
pub(crate) fn new_blob_table() -> (r: dashmap::DashMap<u64, (Vec<u8>, String)>)
    ensures
        blob_contents(r) == no_blobs(),
{
    dashmap::DashMap::new()
}

/// Relies on dashmap::DashMap::insert: the entry under `key` afterwards holds
/// exactly the given payload and content type, whether or not one was there.
#[verifier::external_body]
pub(crate) fn blob_insert(
    m: &mut dashmap::DashMap<u64, (Vec<u8>, String)>,
    key: u64,
    bytes: Vec<u8>,
    content_type: String,
)
    ensures
        blob_contents(*final(m)) == blob_contents(*old(m)).insert(key, (bytes@, content_type@)),
{
    m.insert(key, (bytes, content_type));
}

/// Relies on dashmap::DashMap::get: returns a clone of the entry under `key`, if any.
#[verifier::external_body]
pub(crate) fn blob_get(m: &dashmap::DashMap<u64, (Vec<u8>, String)>, key: u64) -> (r: Option<
    (Vec<u8>, String),
>)
    ensures
        match r {
            Some(p) => blob_contents(*m).contains_key(key) && p.0@ == blob_contents(*m)[key].0
                && p.1@ == blob_contents(*m)[key].1,
            None => !blob_contents(*m).contains_key(key),
        },
{
    m.get(&key).map(|entry| entry.clone())
}

/// Relies on dashmap::DashMap::contains_key.
#[verifier::external_body]
pub(crate) fn blob_contains(m: &dashmap::DashMap<u64, (Vec<u8>, String)>, key: u64) -> (r: bool)
    ensures
        r == blob_contents(*m).contains_key(key),
{
    m.contains_key(&key)
}

/// Relies on dashmap::DashMap::remove: the entry under `key` is gone afterwards.
#[verifier::external_body]
pub(crate) fn blob_remove(m: &mut dashmap::DashMap<u64, (Vec<u8>, String)>, key: u64)
    ensures
        blob_contents(*final(m)) == blob_contents(*old(m)).remove(key),
{
    m.remove(&key);
}

} // verus!
