//! Content-addressed blob storage.
//!
//! A blob is identified by the BLAKE2s digest of its bytes. Writing the same
//! bytes twice is an idempotent no-op; writing different bytes under an
//! existing digest is a collision and is refused, never silently resolved.
//! The duplicate/collision check is expressed once, against the abstract
//! [`DataStore::retrieve`] operation, so every backend gets identical
//! semantics.

use vstd::prelude::*;
use blake2::Digest;

verus! {

/// Failure modes of the content store.
#[derive(Debug)]
pub enum DataStoreError {
    /// Any backend failure; holds the backend's diagnostic text.
    Database(String),
    /// Read miss: no blob under the requested hash.
    NoRecord,
    /// Two distinct payloads under one hash; holds the hex-encoded hash.
    Collision(String),
}

/// The lowercase hexadecimal digit for a value below 16.
pub open spec fn hex_digit(n: int) -> char {
    seq!['0', '1', '2', '3', '4', '5', '6', '7', '8', '9', 'a', 'b', 'c', 'd', 'e', 'f'][n]
}

/// The lowercase hexadecimal rendering of a byte sequence: two digits per
/// byte, high nibble first.
pub open spec fn hex_of(b: Seq<u8>) -> Seq<char>
    decreases b.len(),
{
    if b.len() == 0 {
        Seq::empty()
    } else {
        seq![hex_digit(b[0] as int / 16), hex_digit(b[0] as int % 16)] + hex_of(b.drop_first())
    }
}

/// The 16-byte BLAKE2s digest of a byte sequence.
pub uninterp spec fn blake2s_of(data: Seq<u8>) -> Seq<u8>;

/// Relies on blake2::Blake2s128 (via digest::Digest::digest): the digest is a
/// function of the input bytes alone and is 16 bytes long.
#[verifier::external_body]
fn blake2s_digest(data: &[u8]) -> (r: Vec<u8>)
    ensures
        r@ == blake2s_of(data@),
        r@.len() == 16,
{
    blake2::Blake2s128::digest(data).to_vec()
}

/// Relies on hex::encode: lowercase, exactly two digits per input byte, high
/// nibble first.
#[verifier::external_body]
fn hex_encode(data: &[u8]) -> (r: String)
    ensures
        r@ == hex_of(data@),
{
    hex::encode(data)
}

/// Backend-independent contract of a content-addressed blob store.
///
/// The abstract state is a map from content hash to stored bytes. A backend
/// that can fail (a database behind a network) reports `Database` errors and
/// has `reliable() == false`; the in-memory store is reliable and its
/// operations are fully determined by the contract.
pub trait DataStore: Sized {
    /// The stored blobs, keyed by their content hash.
    spec fn view(&self) -> Map<Seq<u8>, Seq<u8>>;

    /// Well-formedness of the concrete representation.
    spec fn inv(&self) -> bool;

    /// Whether the backend is free of I/O faults: a reliable store never
    /// reports a `Database` error.
    spec fn reliable(&self) -> bool;

    /// Stores `data` under its content hash and returns that 16-byte
    /// digest. Idempotent for equal bytes; refuses a differing payload
    /// under an existing hash with `Collision`, reporting the hex-encoded
    /// hash. Either the blob is persisted whole or the store is unchanged.
    fn store(&mut self, data: &[u8]) -> (r: Result<Vec<u8>, DataStoreError>)
        requires
            old(self).inv(),
        ensures
            final(self).inv(),
            final(self).reliable() == old(self).reliable(),
            (match r {
                Ok(h) => {
                    &&& h@ == blake2s_of(data@)
                    &&& h@.len() == 16
                    &&& !(old(self).view().contains_key(blake2s_of(data@)) && old(self).view()[
                        blake2s_of(data@)
                    ] != data@)
                    &&& final(self).view() == old(self).view().insert(blake2s_of(data@), data@)
                },
                Err(DataStoreError::Collision(s)) => {
                    &&& old(self).view().contains_key(blake2s_of(data@))
                    &&& old(self).view()[blake2s_of(data@)] != data@
                    &&& s@ == hex_of(blake2s_of(data@))
                    &&& final(self).view() == old(self).view()
                },
                Err(DataStoreError::NoRecord) => false,
                Err(DataStoreError::Database(_)) => !old(self).reliable() && final(self).view()
                    == old(self).view(),
            }),
            old(self).reliable() && !(old(self).view().contains_key(blake2s_of(data@)) && old(
                self,
            ).view()[blake2s_of(data@)] != data@) ==> r is Ok,
    ;

    /// Returns the bytes stored under the exact hash `id`, or `NoRecord` if
    /// absent.
    fn retrieve(&self, id: &[u8]) -> (r: Result<Vec<u8>, DataStoreError>)
        requires
            self.inv(),
        ensures
            (match r {
                Ok(d) => self.view().contains_key(id@) && d@ == self.view()[id@],
                Err(DataStoreError::NoRecord) => !self.view().contains_key(id@),
                Err(DataStoreError::Collision(_)) => false,
                Err(DataStoreError::Database(_)) => !self.reliable(),
            }),
            self.reliable() && !self.view().contains_key(id@) ==> (r matches Err(
                DataStoreError::NoRecord,
            )),
            self.reliable() && self.view().contains_key(id@) ==> r is Ok,
    ;
}

/// Byte-for-byte equality of two slices.
fn bytes_eq(a: &[u8], b: &[u8]) -> (r: bool)
    ensures
        r <==> a@ == b@,
{
    if a.len() != b.len() {
        return false;
    }
    let n = a.len();
    let mut i: usize = 0;
    while i < n
        invariant
            n == a@.len(),
            a@.len() == b@.len(),
            i <= n,
            forall|j: int| 0 <= j < i ==> a@[j] == b@[j],
        decreases n - i,
    {
        if a[i] != b[i] {
            return false;
        }
        i += 1;
    }
    proof {
        assert(a@ =~= b@);
    }
    true
}

/// Decides whether `data` is already stored under `hash`, given what the
/// backend's `retrieve` of `hash` returned: `Ok(true)` when an identical
/// blob exists (a duplicate write), `Ok(false)` when the hash is free, and
/// `Collision` (reporting the hex-encoded hash) when the hash holds
/// different bytes. Expressed once, so every backend gets identical
/// duplicate and collision semantics without reimplementing the comparison.
pub fn entry_exists(hash: &[u8], data: &[u8], prior: Result<Vec<u8>, DataStoreError>) -> (r: Result<
    bool,
    DataStoreError,
>)
    ensures
        (match prior {
            Ok(stored) => {
                if stored@ == data@ {
                    r == Ok::<bool, DataStoreError>(true)
                } else {
                    r matches Err(DataStoreError::Collision(s)) && s@ == hex_of(hash@)
                }
            },
            Err(DataStoreError::NoRecord) => r == Ok::<bool, DataStoreError>(false),
            Err(e) => r == Err::<bool, DataStoreError>(e),
        }),
{
    match prior {
        Ok(stored) => {
            if bytes_eq(data, stored.as_slice()) {
                Ok(true)
            } else {
                Err(DataStoreError::Collision(hex_encode(hash)))
            }
        },
        Err(DataStoreError::NoRecord) => Ok(false),
        Err(e) => Err(e),
    }
}

/// One stored blob of the in-memory backend.
struct Blob {
    hash: Vec<u8>,
    data: Vec<u8>,
}

/// The map a sequence of blobs represents: later entries shadow earlier
/// ones, though the store's invariant keeps all hashes distinct.
spec fn blobs_map(s: Seq<Blob>) -> Map<Seq<u8>, Seq<u8>>
    decreases s.len(),
{
    if s.len() == 0 {
        Map::empty()
    } else {
        blobs_map(s.drop_last()).insert(s.last().hash@, s.last().data@)
    }
}

/// All blobs carry pairwise distinct hashes.
spec fn blobs_unique(s: Seq<Blob>) -> bool {
    forall|i: int, j: int| 0 <= i < j < s.len() ==> s[i].hash@ != s[j].hash@
}

/// Relates the blob sequence to the map it represents.
proof fn lemma_blobs_map_char(s: Seq<Blob>)
    requires
        blobs_unique(s),
    ensures
        forall|k: Seq<u8>|
            #[trigger] blobs_map(s).contains_key(k) <==> exists|i: int|
                0 <= i < s.len() && s[i].hash@ == k,
        forall|i: int|
            0 <= i < s.len() ==> blobs_map(s).contains_key(#[trigger] s[i].hash@) && blobs_map(s)[
                s[i].hash@
            ] == s[i].data@,
    decreases s.len(),
{
    if s.len() > 0 {
        let pre = s.drop_last();
        let last = s.last();
        assert(forall|i: int| 0 <= i < pre.len() ==> pre[i] == s[i]);
        assert(blobs_unique(pre));
        lemma_blobs_map_char(pre);
        assert(blobs_map(s) == blobs_map(pre).insert(last.hash@, last.data@));
        assert forall|k: Seq<u8>| #[trigger] blobs_map(s).contains_key(k) implies exists|i: int|
            0 <= i < s.len() && s[i].hash@ == k by {
            if k == last.hash@ {
                assert(s[s.len() - 1].hash@ == k);
            } else {
                assert(blobs_map(pre).contains_key(k));
                let i = choose|i: int| 0 <= i < pre.len() && pre[i].hash@ == k;
                assert(s[i].hash@ == k);
            }
        }
        assert forall|k: Seq<u8>| (exists|i: int| 0 <= i < s.len() && s[i].hash@ == k) implies #[trigger] blobs_map(
            s,
        ).contains_key(k) by {
            let i = choose|i: int| 0 <= i < s.len() && s[i].hash@ == k;
            if i < s.len() - 1 {
                assert(pre[i].hash@ == k);
                assert(blobs_map(pre).contains_key(k));
            }
        }
        assert forall|i: int| 0 <= i < s.len() implies blobs_map(s).contains_key(
            #[trigger] s[i].hash@,
        ) && blobs_map(s)[s[i].hash@] == s[i].data@ by {
            if i < s.len() - 1 {
                assert(blobs_map(pre).contains_key(pre[i].hash@) && blobs_map(pre)[pre[i].hash@]
                    == pre[i].data@);
                assert(s[i].hash@ != last.hash@);
            }
        }
    }
}

/// Appending a blob inserts its entry into the represented map.
proof fn lemma_blobs_map_push(s: Seq<Blob>, b: Blob)
    ensures
        blobs_map(s.push(b)) == blobs_map(s).insert(b.hash@, b.data@),
{
    assert(s.push(b).drop_last() =~= s);
    assert(s.push(b).last() == b);
}

/// Distinct hashes give the represented map exactly one entry per blob.
proof fn lemma_blobs_map_card(s: Seq<Blob>)
    requires
        blobs_unique(s),
    ensures
        blobs_map(s).dom().finite(),
        blobs_map(s).dom().len() == s.len(),
    decreases s.len(),
{
    if s.len() == 0 {
        assert(blobs_map(s).dom() =~= Set::<Seq<u8>>::empty());
    } else {
        let pre = s.drop_last();
        assert(forall|i: int| 0 <= i < pre.len() ==> pre[i] == s[i]);
        lemma_blobs_map_card(pre);
        lemma_blobs_map_char(pre);
        assert(blobs_map(s).dom() =~= blobs_map(pre).dom().insert(s.last().hash@));
        assert(!blobs_map(pre).contains_key(s.last().hash@)) by {
            if blobs_map(pre).contains_key(s.last().hash@) {
                let i = choose|i: int| 0 <= i < pre.len() && pre[i].hash@ == s.last().hash@;
                assert(s[i].hash@ == s[s.len() - 1].hash@);
            }
        }
        vstd::set::axiom_set_insert_len(blobs_map(pre).dom(), s.last().hash@);
    }
}

/// The verified in-memory content store: the reference backend, free of
/// backend faults.
pub struct MemoryDataStore {
    blobs: Vec<Blob>,
}

impl MemoryDataStore {
    /// An empty store.
    pub fn new() -> (r: Self)
        ensures
            r.inv(),
            r.reliable(),
            r.view() == Map::<Seq<u8>, Seq<u8>>::empty(),
    {
        let r = MemoryDataStore { blobs: Vec::new() };
        proof {
            assert(r.view() =~= Map::<Seq<u8>, Seq<u8>>::empty());
        }
        r
    }

    /// The number of stored blobs: exactly one record per distinct hash,
    /// so a duplicate write never creates a second record.
    pub fn blob_count(&self) -> (r: usize)
        requires
            self.inv(),
        ensures
            r == self.view().dom().len(),
    {
        proof {
            lemma_blobs_map_card(self.blobs@);
        }
        self.blobs.len()
    }
}

impl DataStore for MemoryDataStore {
    closed spec fn view(&self) -> Map<Seq<u8>, Seq<u8>> {
        blobs_map(self.blobs@)
    }

    closed spec fn inv(&self) -> bool {
        blobs_unique(self.blobs@)
    }

    closed spec fn reliable(&self) -> bool {
        true
    }

    fn store(&mut self, data: &[u8]) -> (r: Result<Vec<u8>, DataStoreError>) {
        let hash = blake2s_digest(data);
        let prior = self.retrieve(hash.as_slice());
        match entry_exists(hash.as_slice(), data, prior) {
            Ok(true) => {
                proof {
                    assert(self.view().insert(hash@, data@) =~= self.view());
                }
                Ok(hash)
            },
            Ok(false) => {
                let ghost old_blobs = self.blobs@;
                let stored_hash = hash.clone();
                proof {
                    assert(stored_hash@ =~= hash@);
                    lemma_blobs_map_char(old_blobs);
                }
                let blob = Blob { hash: stored_hash, data: vstd::slice::slice_to_vec(data) };
                proof {
                    lemma_blobs_map_push(old_blobs, blob);
                }
                self.blobs.push(blob);
                proof {
                    assert forall|i: int, j: int|
                        0 <= i < j < self.blobs@.len() implies self.blobs@[i].hash@
                        != self.blobs@[j].hash@ by {
                        if j < self.blobs@.len() - 1 {
                            assert(old_blobs[i].hash@ != old_blobs[j].hash@);
                        } else {
                            assert(old_blobs[i].hash@ != hash@);
                        }
                    }
                }
                Ok(hash)
            },
            Err(e) => Err(e),
        }
    }

    #[verifier::loop_isolation(false)]
    fn retrieve(&self, id: &[u8]) -> (r: Result<Vec<u8>, DataStoreError>) {
        proof {
            lemma_blobs_map_char(self.blobs@);
        }
        let n = self.blobs.len();
        let mut i: usize = 0;
        while i < n
            invariant
                forall|j: int| 0 <= j < i ==> self.blobs@[j].hash@ != id@,
                i <= n,
            decreases n - i,
        {
            if bytes_eq(self.blobs[i].hash.as_slice(), id) {
                let d = self.blobs[i].data.clone();
                proof {
                    assert(d@ =~= self.blobs@[i as int].data@);
                }
                return Ok(d);
            }
            i += 1;
        }
        Err(DataStoreError::NoRecord)
    }
}

/// Law: storing the same bytes twice yields the same hash both times, and
/// the second write is a duplicate, not an error: per `DataStore::store`'s
/// contract the hash entry it finds holds identical bytes, so a reliable
/// store must answer `Ok` again and is left unchanged.
pub proof fn lemma_store_idempotent(m: Map<Seq<u8>, Seq<u8>>, d: Seq<u8>)
    ensures
        ({
            let h = blake2s_of(d);
            let m1 = m.insert(h, d);
            &&& m1.contains_key(h) && m1[h] == d
            &&& m1.insert(h, d) == m1
        }),
{
    let h = blake2s_of(d);
    assert(m.insert(h, d).insert(h, d) =~= m.insert(h, d));
}

/// Law: when two distinct payloads share a hash, storing the second after
/// the first leaves the store holding an entry under that hash with bytes
/// different from the second payload — per `DataStore::store`'s contract the
/// second write must fail with `Collision` — and the originally stored bytes
/// are what a subsequent `retrieve` of the hash returns, unchanged.
pub proof fn lemma_store_collision(m: Map<Seq<u8>, Seq<u8>>, d1: Seq<u8>, d2: Seq<u8>)
    ensures
        (d1 != d2 && blake2s_of(d2) == blake2s_of(d1) && !m.contains_key(blake2s_of(d1))) ==> ({
            let m1 = m.insert(blake2s_of(d1), d1);
            &&& m1.contains_key(blake2s_of(d2)) && m1[blake2s_of(d2)] != d2
            &&& m1[blake2s_of(d2)] == d1
        }),
{
}

/// Law (round trip): after a successful `store` of `d` — which by its
/// contract yields the view `m.insert(blake2s_of(d), d)` and returns the
/// hash `blake2s_of(d)` — a `retrieve` of that hash finds the entry and, by
/// `DataStore::retrieve`'s contract, returns exactly `d`.
pub proof fn lemma_round_trip(m: Map<Seq<u8>, Seq<u8>>, d: Seq<u8>)
    ensures
        ({
            let h = blake2s_of(d);
            let m1 = m.insert(h, d);
            m1.contains_key(h) && m1[h] == d
        }),
{
}

} // verus!
