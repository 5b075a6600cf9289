//! The persistent-storage boundary of the rollup: the change log and witness
//! produced when a slot's working set is finalized, the contract a storage
//! backend must meet, and a simple in-memory backend.

use vstd::prelude::*;

use crate::bytes::{bytes_eq, bytes_range, encode_u32_le, u32_le_bytes};
use crate::default_signature::{sha256, sha256_of};

verus! {

/// One pending key-value write.
#[derive(Clone, Debug, PartialEq, Eq)]
pub struct KvPair {
    pub key: Vec<u8>,
    pub value: Vec<u8>,
}

impl View for KvPair {
    type V = (Seq<u8>, Seq<u8>);

    open spec fn view(&self) -> (Seq<u8>, Seq<u8>) {
        (self.key@, self.value@)
    }
}

/// The views of a sequence of key-value writes.
pub open spec fn kvs_view(entries: Seq<KvPair>) -> Seq<(Seq<u8>, Seq<u8>)> {
    entries.map_values(|p: KvPair| p@)
}

/// The flattened, ordered writes of a slot, handed to the storage backend for
/// persistence.
#[derive(Clone, Debug, PartialEq, Eq)]
pub struct ChangeLog {
    pub writes: Vec<KvPair>,
}

impl View for ChangeLog {
    type V = Seq<(Seq<u8>, Seq<u8>)>;

    open spec fn view(&self) -> Seq<(Seq<u8>, Seq<u8>)> {
        kvs_view(self.writes@)
    }
}

/// One read observed from the backend during a slot: the key and the value
/// found, if any.
#[derive(Clone, Debug, PartialEq, Eq)]
pub struct WitnessEntry {
    pub key: Vec<u8>,
    pub value: Option<Vec<u8>>,
}

impl View for WitnessEntry {
    type V = (Seq<u8>, Option<Seq<u8>>);

    open spec fn view(&self) -> (Seq<u8>, Option<Seq<u8>>) {
        (
            self.key@,
            match self.value {
                Some(v) => Some(v@),
                None => None,
            },
        )
    }
}

/// The proof-relevant read trace of a slot: produced during native execution,
/// consumed to reproduce the identical run under constrained replay.
#[derive(Clone, Debug, PartialEq, Eq)]
pub struct Witness {
    pub reads: Vec<WitnessEntry>,
}

impl View for Witness {
    type V = Seq<(Seq<u8>, Option<Seq<u8>>)>;

    open spec fn view(&self) -> Seq<(Seq<u8>, Option<Seq<u8>>)> {
        self.reads@.map_values(|e: WitnessEntry| e@)
    }
}

impl Witness {
    /// The empty witness: what a native (non-replay) slot starts from.
    pub fn new() -> (r: Self)
        ensures
            r@ == Seq::<(Seq<u8>, Option<Seq<u8>>)>::empty(),
    {
        let r = Witness { reads: Vec::new() };
        proof {
            assert(r@ =~= Seq::<(Seq<u8>, Option<Seq<u8>>)>::empty());
        }
        r
    }
}

impl Default for Witness {
    fn default() -> (r: Self)
        ensures
            r@ == Seq::<(Seq<u8>, Option<Seq<u8>>)>::empty(),
    {
        Witness::new()
    }
}

/// Looks a key up in a map, as an option.
pub open spec fn map_get(m: Map<Seq<u8>, Seq<u8>>, key: Seq<u8>) -> Option<Seq<u8>> {
    if m.contains_key(key) {
        Some(m[key])
    } else {
        None
    }
}

/// Applies ordered writes to a map, later writes winning.
pub open spec fn apply_writes(
    m: Map<Seq<u8>, Seq<u8>>,
    writes: Seq<(Seq<u8>, Seq<u8>)>,
) -> Map<Seq<u8>, Seq<u8>>
    decreases writes.len(),
{
    if writes.len() == 0 {
        m
    } else {
        apply_writes(m, writes.drop_last()).insert(writes.last().0, writes.last().1)
    }
}

/// The value an ordered write log holds for a key: the last write wins.
pub open spec fn writes_lookup(writes: Seq<(Seq<u8>, Seq<u8>)>, key: Seq<u8>) -> Option<Seq<u8>>
    decreases writes.len(),
{
    if writes.len() == 0 {
        None
    } else if writes.last().0 == key {
        Some(writes.last().1)
    } else {
        writes_lookup(writes.drop_last(), key)
    }
}

/// A write log reads back exactly as the map it builds.
pub proof fn lemma_writes_lookup_is_map(
    m: Map<Seq<u8>, Seq<u8>>,
    writes: Seq<(Seq<u8>, Seq<u8>)>,
    key: Seq<u8>,
)
    ensures
        map_get(apply_writes(m, writes), key) == match writes_lookup(writes, key) {
            Some(v) => Some(v),
            None => map_get(m, key),
        },
    decreases writes.len(),
{
    if writes.len() > 0 {
        lemma_writes_lookup_is_map(m, writes.drop_last(), key);
    }
}

/// Applying two logs in order is applying their concatenation.
pub proof fn lemma_apply_writes_concat(
    m: Map<Seq<u8>, Seq<u8>>,
    a: Seq<(Seq<u8>, Seq<u8>)>,
    b: Seq<(Seq<u8>, Seq<u8>)>,
)
    ensures
        apply_writes(m, a + b) == apply_writes(apply_writes(m, a), b),
    decreases b.len(),
{
    if b.len() == 0 {
        assert(a + b =~= a);
    } else {
        lemma_apply_writes_concat(m, a, b.drop_last());
        assert((a + b).drop_last() =~= a + b.drop_last());
        assert((a + b).last() == b.last());
    }
}

/// Commitment failed: fatal, the node cannot safely continue.
#[derive(Clone, Copy, Debug, PartialEq, Eq, Structural)]
pub enum StorageCommitError {
    CommitRefused,
}

/// What a persistent storage backend must provide: reads against a map view,
/// and a deterministic commit of a change log that yields the new root
/// commitment. Committing a finalized change log is the only way state becomes
/// durable.
pub trait Storage: Sized {
    /// The key-value content the backend currently holds.
    spec fn state_view(&self) -> Map<Seq<u8>, Seq<u8>>;

    /// The current root commitment.
    spec fn root_view(&self) -> Seq<u8>;

    /// The root commitment and success flag that committing `changes` over the
    /// given content produces: a function of the views alone, so that replay
    /// is deterministic.
    spec fn commit_spec(
        pre: Map<Seq<u8>, Seq<u8>>,
        pre_root: Seq<u8>,
        changes: Seq<(Seq<u8>, Seq<u8>)>,
        witness: Seq<(Seq<u8>, Option<Seq<u8>>)>,
    ) -> (Seq<u8>, bool);

    /// Reads one key.
    fn get(&self, key: &Vec<u8>) -> (r: Option<Vec<u8>>)
        ensures
            r matches Some(v) ==> map_get(self.state_view(), key@) == Some(v@),
            r is None ==> map_get(self.state_view(), key@) is None,
    ;

    /// Persists an ordered change log, validating it against the witness, and
    /// returns the new root commitment. On failure nothing changes.
    fn commit(&mut self, changes: &ChangeLog, witness: &Witness) -> (r: Result<
        Vec<u8>,
        StorageCommitError,
    >)
        ensures
            ({
                let (root, ok) = Self::commit_spec(
                    old(self).state_view(),
                    old(self).root_view(),
                    changes@,
                    witness@,
                );
                &&& r is Ok <==> ok
                &&& final(self).state_view() == if ok {
                    apply_writes(old(self).state_view(), changes@)
                } else {
                    old(self).state_view()
                }
                &&& final(self).root_view() == if ok {
                    root
                } else {
                    old(self).root_view()
                }
                &&& r matches Ok(h) ==> h@ == root
            }),
    ;

    /// A second handle onto the same content, for a working set to read
    /// through while the original stays with its owner.
    fn duplicate(&self) -> (r: Self)
        ensures
            r.state_view() == self.state_view(),
            r.root_view() == self.root_view(),
    ;
}

/// The canonical byte string of a change log, hashed into the in-memory
/// backend's root chain: each key and value length-prefixed, in order.
pub open spec fn changes_encoding(changes: Seq<(Seq<u8>, Seq<u8>)>) -> Seq<u8>
    decreases changes.len(),
{
    if changes.len() == 0 {
        Seq::empty()
    } else {
        changes_encoding(changes.drop_last()) + u32_le_bytes(changes.last().0.len() as u32)
            + changes.last().0 + u32_le_bytes(changes.last().1.len() as u32) + changes.last().1
    }
}

/// A storage backend kept wholly in memory: content as an ordered write log,
/// root commitment as a hash chain over the committed change logs. Stands in
/// for a merkle-tree-backed store in tests and single-process runs.
#[derive(Debug)]
pub struct InMemoryStorage {
    entries: Vec<KvPair>,
    root: Vec<u8>,
}

impl InMemoryStorage {
    /// An empty backend with an all-zero 32-byte root.
    pub fn new() -> (r: Self)
        ensures
            r.state_view() == Map::<Seq<u8>, Seq<u8>>::empty(),
            r.root_view() == Seq::new(32, |i: int| 0u8),
    {
        let mut root: Vec<u8> = Vec::new();
        let mut i: usize = 0;
        while i < 32
            invariant
                i <= 32,
                root@ =~= Seq::new(i as nat, |j: int| 0u8),
            decreases 32 - i,
        {
            root.push(0u8);
            proof {
                assert(root@ =~= Seq::new((i + 1) as nat, |j: int| 0u8));
            }
            i = i + 1;
        }
        let r = InMemoryStorage { entries: Vec::new(), root };
        proof {
            assert(kvs_view(r.entries@) =~= Seq::<(Seq<u8>, Seq<u8>)>::empty());
            assert(r.state_view() =~= Map::<Seq<u8>, Seq<u8>>::empty());
        }
        r
    }
}

impl Storage for InMemoryStorage {
    closed spec fn state_view(&self) -> Map<Seq<u8>, Seq<u8>> {
        apply_writes(Map::empty(), kvs_view(self.entries@))
    }

    closed spec fn root_view(&self) -> Seq<u8> {
        self.root@
    }

    open spec fn commit_spec(
        pre: Map<Seq<u8>, Seq<u8>>,
        pre_root: Seq<u8>,
        changes: Seq<(Seq<u8>, Seq<u8>)>,
        witness: Seq<(Seq<u8>, Option<Seq<u8>>)>,
    ) -> (Seq<u8>, bool) {
        (sha256_of(pre_root + changes_encoding(changes)), true)
    }

    fn get(&self, key: &Vec<u8>) -> (r: Option<Vec<u8>>)
        ensures
            r matches Some(v) ==> map_get(self.state_view(), key@) == Some(v@),
            r is None ==> map_get(self.state_view(), key@) is None,
    {
        proof {
            lemma_writes_lookup_is_map(Map::empty(), kvs_view(self.entries@), key@);
        }
        let mut j: usize = self.entries.len();
        proof {
            assert(kvs_view(self.entries@).take(self.entries@.len() as int) =~= kvs_view(
                self.entries@,
            ));
        }
        while j > 0
            invariant
                j <= self.entries@.len(),
                writes_lookup(kvs_view(self.entries@), key@) == writes_lookup(
                    kvs_view(self.entries@).take(j as int),
                    key@,
                ),
            decreases j,
        {
            proof {
                assert(kvs_view(self.entries@).take(j as int).last() == self.entries@[j - 1]@);
                assert(kvs_view(self.entries@).take(j as int).drop_last() =~= kvs_view(
                    self.entries@,
                ).take(j - 1));
            }
            if bytes_eq(&self.entries[j - 1].key, key) {
                let v = bytes_range(&self.entries[j - 1].value, 0, self.entries[j - 1].value.len());
                proof {
                    lemma_writes_lookup_is_map(Map::empty(), kvs_view(self.entries@), key@);
                    assert(v@ =~= self.entries@[j - 1]@.1);
                    assert(writes_lookup(kvs_view(self.entries@).take(j as int), key@) == Some(
                        self.entries@[j - 1]@.1,
                    ));
                }
                return Some(v);
            }
            j = j - 1;
        }
        proof {
            assert(kvs_view(self.entries@).take(0) =~= Seq::<(Seq<u8>, Seq<u8>)>::empty());
        }
        None
    }

    fn commit(&mut self, changes: &ChangeLog, witness: &Witness) -> (r: Result<
        Vec<u8>,
        StorageCommitError,
    >) {
        let ghost pre_entries = kvs_view(self.entries@);
        let ghost pre_root = self.root@;
        // Chain the root: hash of the old root followed by the canonical
        // bytes of the change log.
        let mut material = bytes_range(&self.root, 0, self.root.len());
        let ghost mut enc: Seq<u8> = Seq::empty();
        proof {
            assert(material@ =~= pre_root + enc);
            assert(changes_encoding(changes@.take(0)) =~= Seq::<u8>::empty());
        }
        let mut i: usize = 0;
        while i < changes.writes.len()
            invariant
                i <= changes.writes@.len(),
                changes@.len() == changes.writes@.len(),
                enc == changes_encoding(changes@.take(i as int)),
                material@ == pre_root + enc,
            decreases changes.writes@.len() - i,
        {
            let klen = encode_u32_le(#[verifier::truncate] (changes.writes[i].key.len() as u32));
            crate::bytes::bytes_extend(&mut material, &klen);
            crate::bytes::bytes_extend(&mut material, &changes.writes[i].key);
            let vlen = encode_u32_le(#[verifier::truncate] (changes.writes[i].value.len() as u32));
            crate::bytes::bytes_extend(&mut material, &vlen);
            crate::bytes::bytes_extend(&mut material, &changes.writes[i].value);
            proof {
                assert(changes@[i as int] == changes.writes@[i as int]@);
                assert(changes@.take(i + 1).drop_last() =~= changes@.take(i as int));
                assert(changes@.take(i + 1).last() == changes@[i as int]);
                enc = changes_encoding(changes@.take(i + 1));
            }
            i = i + 1;
        }
        proof {
            assert(changes@.take(changes@.len() as int) =~= changes@);
        }
        let new_root = sha256(&material);
        self.root = new_root;
        // Append the writes so the content reads back with the changes on top.
        let mut k: usize = 0;
        while k < changes.writes.len()
            invariant
                k <= changes.writes@.len(),
                kvs_view(self.entries@) == pre_entries + changes@.take(k as int),
                self.root@ == sha256_of(pre_root + changes_encoding(changes@)),
                changes@.len() == changes.writes@.len(),
            decreases changes.writes@.len() - k,
        {
            let key = bytes_range(&changes.writes[k].key, 0, changes.writes[k].key.len());
            let value = bytes_range(&changes.writes[k].value, 0, changes.writes[k].value.len());
            let pair = KvPair { key, value };
            let ghost pv = pair@;
            let ghost pre_list = self.entries@;
            proof {
                assert(pv.0 =~= changes.writes@[k as int].key@);
                assert(pv.1 =~= changes.writes@[k as int].value@);
                assert(pv == changes@[k as int]);
            }
            self.entries.push(pair);
            proof {
                assert(kvs_view(self.entries@) =~= kvs_view(pre_list).push(pv));
                assert(kvs_view(self.entries@) =~= pre_entries + changes@.take(k + 1));
            }
            k = k + 1;
        }
        proof {
            assert(changes@.take(changes@.len() as int) =~= changes@);
            lemma_apply_writes_concat(Map::empty(), pre_entries, changes@);
        }
        let root_copy = bytes_range(&self.root, 0, self.root.len());
        proof {
            assert(root_copy@ =~= self.root@);
        }
        Ok(root_copy)
    }

    fn duplicate(&self) -> (r: Self) {
        let mut entries: Vec<KvPair> = Vec::new();
        let mut i: usize = 0;
        while i < self.entries.len()
            invariant
                i <= self.entries@.len(),
                kvs_view(entries@) == kvs_view(self.entries@).take(i as int),
            decreases self.entries@.len() - i,
        {
            let key = bytes_range(&self.entries[i].key, 0, self.entries[i].key.len());
            let value = bytes_range(&self.entries[i].value, 0, self.entries[i].value.len());
            let pair = KvPair { key, value };
            let ghost pv = pair@;
            let ghost pre_list = entries@;
            proof {
                assert(pv.0 =~= self.entries@[i as int].key@);
                assert(pv.1 =~= self.entries@[i as int].value@);
                assert(pv == self.entries@[i as int]@);
            }
            entries.push(pair);
            proof {
                assert(kvs_view(entries@) =~= kvs_view(pre_list).push(pv));
                assert(kvs_view(entries@) =~= kvs_view(self.entries@).take(i + 1));
            }
            i = i + 1;
        }
        let root = bytes_range(&self.root, 0, self.root.len());
        proof {
            assert(kvs_view(entries@) =~= kvs_view(self.entries@));
            assert(root@ =~= self.root@);
        }
        InMemoryStorage { entries, root }
    }
}


/// Looking a key up in two logs laid end to end: the later log wins.
pub proof fn lemma_writes_lookup_concat(
    a: Seq<(Seq<u8>, Seq<u8>)>,
    b: Seq<(Seq<u8>, Seq<u8>)>,
    key: Seq<u8>,
)
    ensures
        writes_lookup(a + b, key) == match writes_lookup(b, key) {
            Some(v) => Some(v),
            None => writes_lookup(a, key),
        },
    decreases b.len(),
{
    if b.len() == 0 {
        assert(a + b =~= a);
    } else {
        assert((a + b).drop_last() =~= a + b.drop_last());
        assert((a + b).last() == b.last());
        lemma_writes_lookup_concat(a, b.drop_last(), key);
    }
}

} // verus!
