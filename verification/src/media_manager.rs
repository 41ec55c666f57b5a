//! Handle identity and lifecycle.
//!
//! The manager mints unguessable 64-bit handles, binds each to an object
//! reference in the underlying storage, resolves and revokes bindings.
//! A binding is the only way to reach a stored object, and deleting a
//! binding never removes the object itself.

use crate::storage::Storage;
use crate::table;
use vstd::prelude::*;

verus! {

/// An externally visible handle to a stored media object: a 64-bit value
/// drawn from a uniform random source. Possession of the handle is the only
/// credential needed to read or delete the binding it names.
#[derive(Debug, Clone, Copy, PartialEq, Eq, Structural, Hash)]
pub struct MediaId(pub u64);

/// How many fresh random values one `store` call will try against the live
/// binding set before giving up. While the live binding count stays far
/// below the 64-bit handle space, the chance that even two attempts collide
/// is negligible, so the bound is never reached in practice.
pub const BIND_ATTEMPTS: usize = 64;

/// Relies on rand::random::<u64>: draws a value from the thread-local
/// generator. Nothing is promised of the result.
#[verifier::external_body]
fn random_u64() -> u64 {
    rand::random()
}

/// The hexadecimal digit character of a nibble, lower case.
pub open spec fn hex_digit_char(nibble: u64) -> char {
    if nibble == 0 {
        '0'
    } else if nibble == 1 {
        '1'
    } else if nibble == 2 {
        '2'
    } else if nibble == 3 {
        '3'
    } else if nibble == 4 {
        '4'
    } else if nibble == 5 {
        '5'
    } else if nibble == 6 {
        '6'
    } else if nibble == 7 {
        '7'
    } else if nibble == 8 {
        '8'
    } else if nibble == 9 {
        '9'
    } else if nibble == 10 {
        'a'
    } else if nibble == 11 {
        'b'
    } else if nibble == 12 {
        'c'
    } else if nibble == 13 {
        'd'
    } else if nibble == 14 {
        'e'
    } else {
        'f'
    }
}

/// The nibble of `value` shown at position `i` of its token, counting from
/// the most significant end.
pub open spec fn spec_nibble(value: u64, i: int) -> u64
    recommends
        0 <= i < 16,
{
    (value >> ((60 - 4 * i) as u64)) & 0xf
}

/// The external representation of a handle value: sixteen lower-case
/// hexadecimal digits, most significant nibble first.
pub open spec fn spec_hex_token(value: u64) -> Seq<char> {
    Seq::new(16, |i: int| hex_digit_char(spec_nibble(value, i)))
}

/// Whether `c` is a hexadecimal digit, upper or lower case.
pub open spec fn is_hex_char(c: char) -> bool {
    ('0' <= c && c <= '9') || ('a' <= c && c <= 'f') || ('A' <= c && c <= 'F')
}

/// The numeric value of a hexadecimal digit character.
pub open spec fn hex_char_value(c: char) -> u64
    recommends
        is_hex_char(c),
{
    if '0' <= c && c <= '9' {
        ((c as u64) - 48) as u64
    } else if 'a' <= c && c <= 'f' {
        ((c as u64) - 87) as u64
    } else {
        ((c as u64) - 55) as u64
    }
}

/// Whether a character sequence is a well-formed handle token: exactly
/// sixteen hexadecimal digits.
pub open spec fn is_hex_token(s: Seq<char>) -> bool {
    s.len() == 16 && (forall|i: int| 0 <= i < 16 ==> is_hex_char(#[trigger] s[i]))
}

/// The handle value a sequence of hexadecimal digits denotes.
pub open spec fn spec_token_value(s: Seq<char>) -> u64
    decreases s.len(),
{
    if s.len() == 0 {
        0
    } else {
        (spec_token_value(s.drop_last()) << 4) | hex_char_value(s.last())
    }
}

/// The one-character string of a nibble's hexadecimal digit, lower case.
fn hex_digit_str(nibble: u64) -> (d: &'static str)
    requires
        nibble < 16,
    ensures
        d@ == seq![hex_digit_char(nibble)],
{
    let d: &'static str;
    if nibble == 0 {
        proof {
            reveal_strlit("0");
        }
        d = "0";
    } else if nibble == 1 {
        proof {
            reveal_strlit("1");
        }
        d = "1";
    } else if nibble == 2 {
        proof {
            reveal_strlit("2");
        }
        d = "2";
    } else if nibble == 3 {
        proof {
            reveal_strlit("3");
        }
        d = "3";
    } else if nibble == 4 {
        proof {
            reveal_strlit("4");
        }
        d = "4";
    } else if nibble == 5 {
        proof {
            reveal_strlit("5");
        }
        d = "5";
    } else if nibble == 6 {
        proof {
            reveal_strlit("6");
        }
        d = "6";
    } else if nibble == 7 {
        proof {
            reveal_strlit("7");
        }
        d = "7";
    } else if nibble == 8 {
        proof {
            reveal_strlit("8");
        }
        d = "8";
    } else if nibble == 9 {
        proof {
            reveal_strlit("9");
        }
        d = "9";
    } else if nibble == 10 {
        proof {
            reveal_strlit("a");
        }
        d = "a";
    } else if nibble == 11 {
        proof {
            reveal_strlit("b");
        }
        d = "b";
    } else if nibble == 12 {
        proof {
            reveal_strlit("c");
        }
        d = "c";
    } else if nibble == 13 {
        proof {
            reveal_strlit("d");
        }
        d = "d";
    } else if nibble == 14 {
        proof {
            reveal_strlit("e");
        }
        d = "e";
    } else {
        proof {
            reveal_strlit("f");
        }
        d = "f";
    }
    proof {
        assert(d@ =~= seq![hex_digit_char(nibble)]);
    }
    d
}

impl MediaId {
    /// A fresh candidate handle value.
    fn new() -> Self {
        MediaId(random_u64())
    }

    /// The handle's external representation: its value as a fixed-width,
    /// sixteen-digit, lower-case hexadecimal token.
    #[verifier::loop_isolation(false)]
    pub fn to_hex(&self) -> (s: String)
        ensures
            s@ == spec_hex_token(self.0),
    {
        let v: u64 = self.0;
        let mut s = String::new();
        let mut i: usize = 0;
        proof {
            assert(s@ =~= spec_hex_token(v).take(0));
        }
        while i < 16
            invariant
                i <= 16,
                s@ =~= spec_hex_token(v).take(i as int),
            decreases 16 - i,
        {
            let shift: u64 = 60 - 4 * (i as u64);
            let nib: u64 = (v >> shift) & 0xf;
            proof {
                assert(((v >> shift) & 0xf) < 16) by (bit_vector);
                assert(nib == spec_nibble(v, i as int));
            }
            let d = hex_digit_str(nib);
            s.append(d);
            i = i + 1;
            proof {
                assert(s@ =~= spec_hex_token(v).take(i as int));
            }
        }
        proof {
            assert(spec_hex_token(v).take(16) =~= spec_hex_token(v));
        }
        s
    }

    /// Parses an external representation: exactly sixteen hexadecimal
    /// digits, upper or lower case. Anything else is rejected.
    #[verifier::loop_isolation(false)]
    pub fn from_hex(s: &str) -> (r: Option<MediaId>)
        ensures
            match r {
                Some(media_id) => is_hex_token(s@) && media_id.0 == spec_token_value(s@),
                None => !is_hex_token(s@),
            },
    {
        if !s.is_ascii() {
            proof {
                if is_hex_token(s@) {
                    assert forall|j: int| 0 <= j < s@.len() implies '\0' <= #[trigger] s@[j]
                        <= '\u{7f}' by {
                        assert(is_hex_char(s@[j]));
                    }
                }
            }
            return None;
        }
        proof {
            vstd::string::is_ascii_spec_bytes(s);
        }
        let b: &[u8] = s.as_bytes();
        if b.len() != 16 {
            return None;
        }
        let mut value: u64 = 0;
        let mut i: usize = 0;
        proof {
            assert(value == spec_token_value(s@.take(0)));
        }
        while i < 16
            invariant
                i <= 16,
                forall|j: int| 0 <= j < i ==> is_hex_char(#[trigger] s@[j]),
                value == spec_token_value(s@.take(i as int)),
            decreases 16 - i,
        {
            let byte: u8 = b[i];
            proof {
                assert(byte == s@[i as int] as u8);
                assert('\0' <= s@[i as int] <= '\u{7f}');
            }
            let digit: u64;
            if 48 <= byte && byte <= 57 {
                digit = (byte - 48) as u64;
            } else if 97 <= byte && byte <= 102 {
                digit = (byte - 87) as u64;
            } else if 65 <= byte && byte <= 70 {
                digit = (byte - 55) as u64;
            } else {
                proof {
                    assert(!is_hex_char(s@[i as int]));
                }
                return None;
            }
            proof {
                assert(is_hex_char(s@[i as int]));
                assert(digit == hex_char_value(s@[i as int]));
                assert(s@.take(i as int + 1).drop_last() =~= s@.take(i as int));
                assert(s@.take(i as int + 1).last() == s@[i as int]);
            }
            value = (value << 4) | digit;
            i = i + 1;
        }
        proof {
            assert(s@.take(16) =~= s@);
        }
        Some(MediaId(value))
    }
}

/// The identity manager: owns the handle-to-object-reference binding table
/// and delegates payloads to the storage it was built around.
#[derive(Debug)]
pub struct MediaManager<S: Storage<u64>> {
    mapping: dashmap::DashMap<u64, u64>,
    storage: S,
}

impl<S: Storage<u64>> MediaManager<S> {
    /// The live bindings, from handle value to object reference.
    pub closed spec fn bindings(&self) -> Map<u64, u64> {
        table::binding_contents(self.mapping)
    }

    /// The objects held by the underlying storage, keyed by object reference.
    pub closed spec fn objects(&self) -> Map<u64, (Seq<u8>, Seq<char>)> {
        self.storage.objects()
    }

    /// A handle is live exactly when a binding exists for it and the storage
    /// still holds the referenced object.
    pub open spec fn spec_contains(&self, media_id: MediaId) -> bool {
        &&& self.bindings().contains_key(media_id.0)
        &&& self.objects().contains_key(self.bindings()[media_id.0])
    }

    /// What retrieval of a handle yields: the payload and content type of
    /// the bound object, or nothing when the handle is not live.
    pub open spec fn spec_retrieve(&self, media_id: MediaId) -> Option<(Seq<u8>, Seq<char>)> {
        if self.spec_contains(media_id) {
            Some(self.objects()[self.bindings()[media_id.0]])
        } else {
            None
        }
    }

    /// How one successful `store` call changes the manager: the returned
    /// handle was not previously bound, it is now bound to the payload's
    /// content-derived reference, and the storage holds the payload under
    /// that reference. Nothing else changes.
    pub open spec fn store_post(
        pre: Self,
        post: Self,
        bytes: Seq<u8>,
        content_type: Seq<char>,
        media_id: MediaId,
    ) -> bool {
        &&& !pre.bindings().contains_key(media_id.0)
        &&& post.bindings() == pre.bindings().insert(media_id.0, S::ref_of(bytes))
        &&& post.objects() == pre.objects().insert(S::ref_of(bytes), (bytes, content_type))
    }

    /// How `delete` changes the manager: the binding is gone, every other
    /// binding stays, and no stored object is removed.
    pub open spec fn delete_post(pre: Self, post: Self, media_id: MediaId) -> bool {
        &&& post.bindings() == pre.bindings().remove(media_id.0)
        &&& post.objects() == pre.objects()
    }

    /// A manager around the given storage, with no live bindings.
    pub fn new(storage: S) -> (r: Self)
        ensures
            r.bindings() == Map::<u64, u64>::empty(),
            r.objects() == storage.objects(),
    {
        MediaManager { mapping: table::new_binding_table(), storage }
    }

    /// Stores the payload and mints a fresh handle bound to it.
    ///
    /// The payload always ends up in storage under its content-derived
    /// reference. The handle is found by drawing random values and
    /// attempting an atomic insert-if-absent against the live binding set,
    /// so a returned handle is always one that was not live before. Only
    /// when every draw collides with a live binding — which stays
    /// astronomically unlikely while handles far outnumber bindings — is
    /// no binding made and nothing returned; in particular, a store against
    /// an empty binding set always succeeds.
    #[verifier::loop_isolation(false)]
    pub fn store(&mut self, bytes: Vec<u8>, content_type: String) -> (r: Option<MediaId>)
        ensures
            match r {
                Some(media_id) => Self::store_post(
                    *old(self),
                    *final(self),
                    bytes@,
                    content_type@,
                    media_id,
                ),
                None => final(self).bindings() == old(self).bindings() && final(self).objects()
                    == old(self).objects().insert(
                    S::ref_of(bytes@),
                    (bytes@, content_type@),
                ),
            },
            r is None ==> (exists|k: u64| old(self).bindings().contains_key(k)),
    {
        let ghost pre = *self;
        let ghost bytes_view = bytes@;
        let ghost ct_view = content_type@;
        let object_id = self.storage.store(bytes, content_type);
        let mut attempts: usize = 0;
        while attempts < BIND_ATTEMPTS
            invariant
                self.bindings() == pre.bindings(),
                self.objects() == pre.objects().insert(
                    S::ref_of(bytes_view),
                    (bytes_view, ct_view),
                ),
                object_id == S::ref_of(bytes_view),
                attempts > 0 ==> (exists|k: u64| pre.bindings().contains_key(k)),
            decreases BIND_ATTEMPTS - attempts,
        {
            let candidate = MediaId::new();
            if table::binding_insert_if_absent(&mut self.mapping, candidate.0, object_id) {
                return Some(candidate);
            }
            proof {
                // The draw lost only because this value was a live key.
                assert(pre.bindings().contains_key(candidate.0));
            }
            attempts = attempts + 1;
        }
        None
    }

    /// Resolves a handle and returns a clone of the bound payload and its
    /// content type, or nothing when the handle is not live. A binding whose
    /// object is missing from storage counts as not found, never as an error.
    pub fn retrieve(&self, media_id: MediaId) -> (r: Option<(Vec<u8>, String)>)
        ensures
            match r {
                Some(p) => self.spec_retrieve(media_id) == Some((p.0@, p.1@)),
                None => self.spec_retrieve(media_id) is None,
            },
    {
        match table::binding_get(&self.mapping, media_id.0) {
            Some(object_id) => self.storage.retrieve(&object_id),
            None => None,
        }
    }

    /// Whether the handle is live: bound, with its object still in storage.
    pub fn contains(&self, media_id: MediaId) -> (r: bool)
        ensures
            r == self.spec_contains(media_id),
    {
        match table::binding_get(&self.mapping, media_id.0) {
            Some(object_id) => self.storage.contains(&object_id),
            None => false,
        }
    }

    /// Removes the binding unconditionally; a miss is not an error. The
    /// stored object itself is never removed here, so other handles bound
    /// to the same content stay live.
    pub fn delete(&mut self, media_id: MediaId)
        ensures
            Self::delete_post(*old(self), *final(self), media_id),
    {
        table::binding_remove(&mut self.mapping, media_id.0);
    }
}

proof fn lemma_nibble_bound(value: u64, i: int)
    requires
        0 <= i < 16,
    ensures
        spec_nibble(value, i) < 16,
{
    let sh: u64 = (60 - 4 * i) as u64;
    assert((value >> sh) & 0xf < 16) by (bit_vector);
}

proof fn lemma_digit_inverse(nibble: u64)
    requires
        nibble < 16,
    ensures
        is_hex_char(hex_digit_char(nibble)),
        hex_char_value(hex_digit_char(nibble)) == nibble,
{
}

proof fn lemma_token_prefix_value(value: u64, i: int)
    requires
        1 <= i <= 16,
    ensures
        spec_token_value(spec_hex_token(value).take(i)) == value >> ((64 - 4 * i) as u64),
    decreases i,
{
    let t = spec_hex_token(value);
    let sh: u64 = (64 - 4 * i) as u64;
    assert(t.take(i).len() == i);
    assert(t.take(i).last() == t[i - 1]);
    assert(t.take(i).drop_last() =~= t.take(i - 1));
    lemma_nibble_bound(value, i - 1);
    lemma_digit_inverse(spec_nibble(value, i - 1));
    assert(t[i - 1] == hex_digit_char(spec_nibble(value, i - 1)));
    assert(hex_char_value(t[i - 1]) == spec_nibble(value, i - 1));
    assert(spec_nibble(value, i - 1) == (value >> sh) & 0xf);
    assert(spec_token_value(t.take(i)) == (spec_token_value(t.take(i - 1)) << 4) | ((value >> sh)
        & 0xf));
    if i == 1 {
        assert(t.take(0) =~= Seq::<char>::empty());
        assert((0u64 << 4) | ((value >> 60) & 0xf) == value >> 60) by (bit_vector);
    } else {
        lemma_token_prefix_value(value, i - 1);
        let sh4: u64 = (68 - 4 * i) as u64;
        assert(((value >> sh4) << 4) | ((value >> sh) & 0xf) == value >> sh) by (bit_vector)
            requires
                sh <= 56,
                sh4 == sh + 4,
        ;
    }
}

/// Law: a handle's hexadecimal token is always well formed, and decoding it
/// gives back exactly the handle value it encodes.
pub proof fn lemma_token_round_trip(value: u64)
    ensures
        is_hex_token(spec_hex_token(value)),
        spec_token_value(spec_hex_token(value)) == value,
{
    let t = spec_hex_token(value);
    assert forall|i: int| 0 <= i < 16 implies is_hex_char(#[trigger] t[i]) by {
        lemma_nibble_bound(value, i);
        lemma_digit_inverse(spec_nibble(value, i));
    }
    lemma_token_prefix_value(value, 16);
    assert(t.take(16) =~= t);
    assert(value >> 0u64 == value) by (bit_vector);
}

/// Law: a payload just stored is live under its fresh handle and retrieving
/// that handle yields exactly the stored bytes and content type.
pub proof fn lemma_store_then_retrieve<S: Storage<u64>>(
    pre: MediaManager<S>,
    post: MediaManager<S>,
    bytes: Seq<u8>,
    content_type: Seq<char>,
    media_id: MediaId,
)
    requires
        MediaManager::<S>::store_post(pre, post, bytes, content_type, media_id),
    ensures
        post.spec_contains(media_id),
        post.spec_retrieve(media_id) == Some((bytes, content_type)),
{
}

/// Law: two stores in a row never hand out the same handle, whatever the
/// payloads; a handle returned by a store was not live before it, and the
/// earlier handle still was.
pub proof fn lemma_store_handles_distinct<S: Storage<u64>>(
    s0: MediaManager<S>,
    s1: MediaManager<S>,
    s2: MediaManager<S>,
    bytes1: Seq<u8>,
    content_type1: Seq<char>,
    media_id1: MediaId,
    bytes2: Seq<u8>,
    content_type2: Seq<char>,
    media_id2: MediaId,
)
    requires
        MediaManager::<S>::store_post(s0, s1, bytes1, content_type1, media_id1),
        MediaManager::<S>::store_post(s1, s2, bytes2, content_type2, media_id2),
    ensures
        media_id1 != media_id2,
{
}

/// Law: storing a byte-identical payload twice deduplicates. The second
/// store leaves the object table exactly as it was, yet both handles are
/// live and both retrieve the payload.
pub proof fn lemma_store_deduplicates<S: Storage<u64>>(
    s0: MediaManager<S>,
    s1: MediaManager<S>,
    s2: MediaManager<S>,
    bytes: Seq<u8>,
    content_type: Seq<char>,
    media_id1: MediaId,
    media_id2: MediaId,
)
    requires
        MediaManager::<S>::store_post(s0, s1, bytes, content_type, media_id1),
        MediaManager::<S>::store_post(s1, s2, bytes, content_type, media_id2),
    ensures
        media_id1 != media_id2,
        s2.objects() == s1.objects(),
        s2.spec_retrieve(media_id1) == Some((bytes, content_type)),
        s2.spec_retrieve(media_id2) == Some((bytes, content_type)),
{
    assert(s2.objects() =~= s1.objects());
}

/// Law: a handle value that was never bound is not live, and retrieving it
/// yields nothing.
pub proof fn lemma_unknown_handle<S: Storage<u64>>(m: MediaManager<S>, media_id: MediaId)
    requires
        !m.bindings().contains_key(media_id.0),
    ensures
        !m.spec_contains(media_id),
        m.spec_retrieve(media_id) is None,
{
}

/// Law: after a delete the handle is no longer live, and deleting the same
/// handle again changes nothing at all.
pub proof fn lemma_delete_idempotent<S: Storage<u64>>(
    s0: MediaManager<S>,
    s1: MediaManager<S>,
    s2: MediaManager<S>,
    media_id: MediaId,
)
    requires
        MediaManager::<S>::delete_post(s0, s1, media_id),
        MediaManager::<S>::delete_post(s1, s2, media_id),
    ensures
        !s1.spec_contains(media_id),
        s1.spec_retrieve(media_id) is None,
        s2.bindings() == s1.bindings(),
        s2.objects() == s1.objects(),
{
    assert(s2.bindings() =~= s1.bindings());
}

/// Law: a store leaves every handle that was live before it live, and
/// leaves what that handle retrieves untouched unless the new payload's
/// content reference collides with the object the handle was bound to.
pub proof fn lemma_store_preserves_others<S: Storage<u64>>(
    pre: MediaManager<S>,
    post: MediaManager<S>,
    bytes: Seq<u8>,
    content_type: Seq<char>,
    fresh_id: MediaId,
    other_id: MediaId,
)
    requires
        MediaManager::<S>::store_post(pre, post, bytes, content_type, fresh_id),
        pre.spec_contains(other_id),
    ensures
        post.spec_contains(other_id),
        pre.bindings()[other_id.0] != S::ref_of(bytes) ==> post.spec_retrieve(other_id)
            == pre.spec_retrieve(other_id),
{
}

/// Law: deleting one handle leaves every other handle exactly as it was,
/// live or not, and retrieving the same bundle as before.
pub proof fn lemma_delete_preserves_others<S: Storage<u64>>(
    pre: MediaManager<S>,
    post: MediaManager<S>,
    deleted_id: MediaId,
    other_id: MediaId,
)
    requires
        MediaManager::<S>::delete_post(pre, post, deleted_id),
        other_id.0 != deleted_id.0,
    ensures
        post.spec_contains(other_id) == pre.spec_contains(other_id),
        post.spec_retrieve(other_id) == pre.spec_retrieve(other_id),
{
}

} // verus!


