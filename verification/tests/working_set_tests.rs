//! The revertible working set: scope nesting, commit and revert semantics,
//! fall-through reads, and the produced witness.

use rollup_core::storage::{ChangeLog, InMemoryStorage, KvPair, Storage, Witness, WitnessEntry};
use rollup_core::working_set::{FinalizeError, WorkingSet};

fn storage_with(key: &[u8], value: &[u8]) -> InMemoryStorage {
    let mut s = InMemoryStorage::new();
    let log = ChangeLog {
        writes: vec![KvPair { key: key.to_vec(), value: value.to_vec() }],
    };
    s.commit(&log, &Witness::new()).unwrap();
    s
}

#[test]
fn writes_read_back_and_shadow_storage() {
    let mut ws = WorkingSet::new(storage_with(b"k", b"from-storage"));
    assert_eq!(ws.read(&b"k".to_vec()), Some(b"from-storage".to_vec()));
    ws.write(b"k".to_vec(), b"from-scope".to_vec());
    assert_eq!(ws.read(&b"k".to_vec()), Some(b"from-scope".to_vec()));
    assert_eq!(ws.read(&b"absent".to_vec()), None);
}

#[test]
fn reverted_scope_is_invisible_to_its_parent() {
    let mut ws = WorkingSet::new(InMemoryStorage::new());
    ws.write(b"a".to_vec(), vec![1]);
    ws.enter_scope();
    ws.write(b"a".to_vec(), vec![2]);
    ws.write(b"b".to_vec(), vec![3]);
    assert_eq!(ws.read(&b"a".to_vec()), Some(vec![2]));
    ws.revert_scope();
    assert_eq!(ws.read(&b"a".to_vec()), Some(vec![1]));
    assert_eq!(ws.read(&b"b".to_vec()), None);
}

#[test]
fn committed_scope_merges_into_its_parent() {
    let mut ws = WorkingSet::new(InMemoryStorage::new());
    ws.write(b"a".to_vec(), vec![1]);
    ws.enter_scope();
    ws.write(b"a".to_vec(), vec![2]);
    ws.commit_scope();
    assert_eq!(ws.depth(), 1);
    // Last writer wins within the collapsed chain.
    assert_eq!(ws.read(&b"a".to_vec()), Some(vec![2]));
}

#[test]
fn freeze_requires_the_root_scope() {
    let mut open_ws = WorkingSet::new(InMemoryStorage::new());
    open_ws.enter_scope();
    assert_eq!(open_ws.freeze().unwrap_err(), FinalizeError::NestedScopesOpen);

    let mut ws = WorkingSet::new(InMemoryStorage::new());
    ws.write(b"x".to_vec(), vec![7]);
    ws.write(b"y".to_vec(), vec![8]);
    let (log, _witness) = ws.freeze().unwrap();
    assert_eq!(
        log.writes,
        vec![
            KvPair { key: b"x".to_vec(), value: vec![7] },
            KvPair { key: b"y".to_vec(), value: vec![8] },
        ]
    );
}

#[test]
fn witness_records_backend_reads_in_order() {
    let mut ws = WorkingSet::new(storage_with(b"k", b"v"));
    ws.read(&b"k".to_vec());
    ws.read(&b"missing".to_vec());
    // A scope hit is not a backend read and leaves no trace.
    ws.write(b"w".to_vec(), vec![1]);
    ws.read(&b"w".to_vec());
    let (_log, witness) = ws.freeze().unwrap();
    assert_eq!(
        witness.reads,
        vec![
            WitnessEntry { key: b"k".to_vec(), value: Some(b"v".to_vec()) },
            WitnessEntry { key: b"missing".to_vec(), value: None },
        ]
    );
}

#[test]
fn seeded_witness_answers_backend_reads() {
    // Replay: the storage holds nothing; the seeded trace answers reads.
    let witness = Witness {
        reads: vec![WitnessEntry { key: b"k".to_vec(), value: Some(vec![9]) }],
    };
    let mut ws = WorkingSet::with_witness(InMemoryStorage::new(), witness);
    assert_eq!(ws.read(&b"k".to_vec()), Some(vec![9]));
    assert_eq!(ws.read(&b"other".to_vec()), None);
}
