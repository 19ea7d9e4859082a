use std::collections::BTreeMap;

use forest_db::column::DbColumn;
use forest_db::content::{Cid, Multihash, DAG_CBOR, IPLD_RAW, SHA2_256};
use forest_db::gc::{truncated_hash, Marks, Sweeper};
use forest_db::operation::{Location, Op, Operation};
use forest_db::store::{ParityDb, StoreError};
use multihash_codetable::{Code, MultihashDigest};

/// The SHA2-256 multihash of `data`.
fn sha2_256(data: &[u8]) -> Multihash {
    let hash = Code::Sha2_256.digest(data);
    Multihash::wrap(hash.code(), hash.digest()).unwrap()
}

/// An engine in memory that is always at rest: every commit is seen by every
/// read and enumeration after it.
struct Memory {
    store: ParityDb,
    entries: BTreeMap<(u8, Vec<u8>), Vec<u8>>,
}

impl Memory {
    fn new() -> Memory {
        Memory {
            store: ParityDb::wrap(false),
            entries: BTreeMap::new(),
        }
    }

    fn commit(&mut self, ops: Vec<Op>) {
        for (column, op) in ops {
            match op {
                Operation::Put(key, value) => {
                    let keeps_values = column != DbColumn::Settings.id();
                    if !(keeps_values && self.entries.contains_key(&(column, key.clone()))) {
                        self.entries.insert((column, key), value);
                    }
                }
                Operation::Dereference(key) => {
                    self.entries.remove(&(column, key));
                }
            }
        }
    }

    fn read(&self, place: Location) -> Option<Vec<u8>> {
        self.entries.get(&place).cloned()
    }

    fn keys(&self, column: DbColumn) -> Vec<Vec<u8>> {
        self.entries
            .keys()
            .filter(|(c, _)| *c == column.id())
            .map(|(_, key)| key.clone())
            .collect()
    }

    fn values(&self, column: DbColumn) -> Vec<Vec<u8>> {
        self.entries
            .iter()
            .filter(|((c, _), _)| *c == column.id())
            .map(|(_, value)| value.clone())
            .collect()
    }

    fn put_keyed(&mut self, cid: &Cid, block: &[u8]) {
        let ops = self.store.put_keyed(cid, block);
        self.commit(ops);
    }

    fn get(&self, cid: &Cid) -> Option<Vec<u8>> {
        self.read(self.store.get(cid))
    }

    fn get_keys(&self) -> Result<Marks, StoreError> {
        self.store.get_keys(
            &self.keys(DbColumn::GraphFull),
            &self.values(DbColumn::GraphDagCborBlake2b256),
        )
    }

    fn remove_keys(&mut self, keys: Marks) -> Result<(), StoreError> {
        let sweep = self.store.remove_keys(
            &self.keys(DbColumn::GraphFull),
            &self.values(DbColumn::GraphDagCborBlake2b256),
            &keys,
        );
        for removal in sweep.removals {
            self.commit(vec![removal]);
        }
        match sweep.failure {
            Some(failure) => Err(failure),
            None => Ok(()),
        }
    }
}

fn marks(of: &[u32]) -> Marks {
    of.iter().copied().collect()
}

fn sorted(marks: &Marks) -> Vec<u32> {
    let mut all: Vec<u32> = marks.iter().copied().collect();
    all.sort();
    all
}

fn cases() -> [(DbColumn, Cid, Vec<u8>); 3] {
    let data = [
        b"h'nglui mglw'nafh".to_vec(),
        b"Cthulhu".to_vec(),
        b"R'lyeh wgah'nagl fhtagn!!".to_vec(),
    ];
    let cids = [
        Cid::new_v1(DAG_CBOR, Multihash::blake2b_256(&data[0])),
        Cid::new_v1(DAG_CBOR, sha2_256(&data[1])),
        Cid::new_v1(IPLD_RAW, Multihash::blake2b_256(&data[1])),
    ];
    let [d0, d1, d2] = data;
    let [c0, c1, c2] = cids;
    [
        (DbColumn::GraphDagCborBlake2b256, c0, d0),
        (DbColumn::GraphFull, c1, d1),
        (DbColumn::GraphFull, c2, d2),
    ]
}

#[test]
fn garbage_collectable() {
    let mut db = Memory::new();
    let cases = cases();

    for (_, cid, data) in &cases {
        db.put_keyed(cid, data);
    }

    let keys = db.get_keys().unwrap();
    assert_eq!(keys.len(), cases.len());

    db.remove_keys(keys).unwrap();

    let keys = db.get_keys().unwrap();
    assert_eq!(keys.len(), 0);
}

#[test]
fn live_set_holds_the_mark_of_every_block() {
    let mut db = Memory::new();
    assert!(db.get_keys().unwrap().is_empty());

    let cases = cases();
    for (_, cid, data) in &cases {
        db.put_keyed(cid, data);
    }
    // First four bytes, least significant first, of BLAKE2b-256 of the first
    // block, of SHA2-256 of "Cthulhu" and of BLAKE2b-256 of "Cthulhu".
    assert_eq!(
        sorted(&db.get_keys().unwrap()),
        vec![0x2678_6470, 0x3c5d_9e4d, 0xcad4_2bf4]
    );
    for (_, cid, _) in &cases {
        assert!(db
            .get_keys()
            .unwrap()
            .contains(&truncated_hash(cid.hash())));
    }
}

#[test]
fn sweep_of_one_mark_removes_that_block_only() {
    let mut db = Memory::new();
    let cases = cases();
    let [(column_a, a, data_a), (column_b, b, data_b), (column_c, c, data_c)] = &cases;
    assert_eq!(*column_a, ParityDb::choose_column(a));
    assert_eq!(*column_b, ParityDb::choose_column(b));
    assert_eq!(*column_c, ParityDb::choose_column(c));
    assert_eq!(ParityDb::choose_column(a), DbColumn::GraphDagCborBlake2b256);
    assert_eq!(ParityDb::choose_column(b), DbColumn::GraphFull);
    assert_eq!(ParityDb::choose_column(c), DbColumn::GraphFull);

    db.put_keyed(a, data_a);
    db.put_keyed(b, data_b);
    db.put_keyed(c, data_c);
    db.commit(db.store.write_bin("head", b"tipset"));

    assert_eq!(db.get_keys().unwrap().len(), 3);

    db.remove_keys(marks(&[truncated_hash(b.hash())])).unwrap();

    assert_eq!(db.get(a).as_ref(), Some(data_a));
    assert_eq!(db.get(b), None);
    assert_eq!(db.get(c).as_ref(), Some(data_c));
    assert_eq!(db.read(db.store.read_bin("head")), Some(b"tipset".to_vec()));
    assert_eq!(db.get_keys().unwrap().len(), 2);
}

#[test]
fn sweep_removes_exactly_the_targets() {
    let cases = cases();
    for targeted in 0u8..8 {
        let mut db = Memory::new();
        for (_, cid, data) in &cases {
            db.put_keyed(cid, data);
        }
        let mut targets = Marks::default();
        for (i, (_, cid, _)) in cases.iter().enumerate() {
            if targeted & (1 << i) != 0 {
                targets.insert(truncated_hash(cid.hash()));
            }
        }
        db.remove_keys(targets).unwrap();
        for (i, (_, cid, data)) in cases.iter().enumerate() {
            if targeted & (1 << i) != 0 {
                assert_eq!(db.get(cid), None);
            } else {
                assert_eq!(db.get(cid).as_ref(), Some(data));
            }
        }
    }
}

#[test]
fn sweep_for_a_mark_that_no_block_has_removes_nothing() {
    let mut db = Memory::new();
    let cases = cases();
    for (_, cid, data) in &cases {
        db.put_keyed(cid, data);
    }
    db.remove_keys(marks(&[0, 1, u32::MAX])).unwrap();
    for (_, cid, data) in &cases {
        assert_eq!(db.get(cid).as_ref(), Some(data));
    }
}

#[test]
fn blocks_that_share_a_mark_share_their_fate() {
    let mut needed_digest = [0x11u8; 32];
    let mut garbage_digest = [0x22u8; 32];
    needed_digest[..4].copy_from_slice(&[0xde, 0xad, 0xbe, 0xef]);
    garbage_digest[..4].copy_from_slice(&[0xde, 0xad, 0xbe, 0xef]);
    let needed = Cid::new_v1(IPLD_RAW, Multihash::wrap(SHA2_256, &needed_digest).unwrap());
    let garbage = Cid::new_v1(IPLD_RAW, Multihash::wrap(SHA2_256, &garbage_digest).unwrap());
    let other = Cid::new_v1(DAG_CBOR, Multihash::blake2b_256(b"other garbage"));
    assert_eq!(
        truncated_hash(needed.hash()),
        truncated_hash(garbage.hash())
    );
    assert_eq!(truncated_hash(needed.hash()), 0xefbe_adde);

    let mut db = Memory::new();
    db.put_keyed(&needed, b"needed");
    db.put_keyed(&garbage, b"garbage");
    db.put_keyed(&other, b"other garbage");

    // Two blocks, one mark.
    let live = db.get_keys().unwrap();
    assert_eq!(live.len(), 2);

    // The targets are the marks of the store without those still needed.
    let still_needed = marks(&[truncated_hash(needed.hash())]);
    let targets: Marks = live.difference(&still_needed).copied().collect();
    db.remove_keys(targets).unwrap();
    assert_eq!(db.get(&needed), Some(b"needed".to_vec()));
    assert_eq!(db.get(&garbage), Some(b"garbage".to_vec()));
    assert_eq!(db.get(&other), None);

    // Once the mark itself is a target, both blocks go.
    db.remove_keys(marks(&[0xefbe_adde])).unwrap();
    assert_eq!(db.get(&needed), None);
    assert_eq!(db.get(&garbage), None);
}

#[test]
fn a_key_that_is_no_identifier_ends_the_sweep() {
    let store = ParityDb::wrap(false);
    let first = Cid::new_v1(IPLD_RAW, Multihash::blake2b_256(b"first"));
    let last = Cid::new_v1(IPLD_RAW, Multihash::blake2b_256(b"last"));
    let keys = vec![first.to_bytes(), b"dagon".to_vec(), last.to_bytes()];
    let values = vec![b"value".to_vec()];
    let targets = marks(&[
        truncated_hash(first.hash()),
        truncated_hash(last.hash()),
        truncated_hash(&Multihash::blake2b_256(b"value")),
    ]);

    let sweep = store.remove_keys(&keys, &values, &targets);
    assert_eq!(sweep.removals.len(), 1);
    assert_eq!(sweep.removals[0].0, 1);
    assert!(
        matches!(&sweep.removals[0].1, Operation::Dereference(key) if *key == first.to_bytes())
    );
    assert!(matches!(
        sweep.failure,
        Some(StoreError::InvariantViolation { column: DbColumn::GraphFull, key }) if key == b"dagon"
    ));

    let error = store.get_keys(&keys, &values).unwrap_err();
    assert!(matches!(
        error,
        StoreError::InvariantViolation { column: DbColumn::GraphFull, key } if key == b"dagon"
    ));
}

#[test]
fn sweep_lists_the_indexed_column_first() {
    let store = ParityDb::wrap(false);
    let indexed = Cid::new_v1(IPLD_RAW, Multihash::blake2b_256(b"indexed"));
    let spared = Cid::new_v1(IPLD_RAW, Multihash::blake2b_256(b"spared"));
    let canonical = Cid::new_v1(DAG_CBOR, Multihash::blake2b_256(b"canonical"));
    let keys = vec![spared.to_bytes(), indexed.to_bytes()];
    let values = vec![b"canonical".to_vec(), b"spared too".to_vec()];
    let targets = marks(&[
        truncated_hash(indexed.hash()),
        truncated_hash(canonical.hash()),
    ]);

    let sweep = store.remove_keys(&keys, &values, &targets);
    assert!(sweep.failure.is_none());
    assert_eq!(sweep.removals.len(), 2);
    assert_eq!(sweep.removals[0].0, 1);
    assert!(
        matches!(&sweep.removals[0].1, Operation::Dereference(key) if *key == indexed.to_bytes())
    );
    assert_eq!(sweep.removals[1].0, 0);
    assert!(
        matches!(&sweep.removals[1].1, Operation::Dereference(key) if *key == canonical.to_bytes())
    );

    let nothing = store.remove_keys(&keys, &values, &Marks::default());
    assert!(nothing.failure.is_none());
    assert!(nothing.removals.is_empty());
}

#[test]
fn marks_and_removals_of_single_entries() {
    let cid = Cid::new_v1(IPLD_RAW, Multihash::wrap(SHA2_256, &[1, 2, 3, 4, 5]).unwrap());
    let mut set = marks(&[7]);
    ParityDb::mark_key(&mut set, &cid.to_bytes()).unwrap();
    assert_eq!(sorted(&set), vec![7, 0x0403_0201]);
    assert!(matches!(
        ParityDb::mark_key(&mut set, b"dagon"),
        Err(StoreError::InvariantViolation { column: DbColumn::GraphFull, key }) if key == b"dagon"
    ));
    assert_eq!(sorted(&set), vec![7, 0x0403_0201]);
    ParityDb::mark_value(&mut set, b"Cthulhu");
    assert_eq!(sorted(&set), vec![7, 0x0403_0201, 0x3c5d_9e4d]);
    ParityDb::mark_value(&mut set, b"Cthulhu");
    assert_eq!(set.len(), 3);

    let hit = ParityDb::sweep_indexed_key(&cid.to_bytes(), &marks(&[0x0403_0201])).unwrap();
    assert!(matches!(hit, Some((1, Operation::Dereference(key))) if key == cid.to_bytes()));
    let miss = ParityDb::sweep_indexed_key(&cid.to_bytes(), &marks(&[0x0403_0202])).unwrap();
    assert!(miss.is_none());
    assert!(ParityDb::sweep_indexed_key(b"dagon", &marks(&[0])).is_err());

    let canonical = Cid::new_v1(DAG_CBOR, Multihash::blake2b_256(b"Cthulhu"));
    let hit = ParityDb::sweep_canonical_value(b"Cthulhu", &marks(&[0x3c5d_9e4d]));
    assert!(matches!(hit, Some((0, Operation::Dereference(key))) if key == canonical.to_bytes()));
    assert!(ParityDb::sweep_canonical_value(b"Cthulhu", &marks(&[1])).is_none());
}

#[test]
fn sweeper_gives_the_removals_entry_by_entry() {
    let indexed = Cid::new_v1(IPLD_RAW, Multihash::blake2b_256(b"indexed"));
    let spared = Cid::new_v1(IPLD_RAW, Multihash::blake2b_256(b"spared"));
    let canonical = Cid::new_v1(DAG_CBOR, Multihash::blake2b_256(b"canonical"));
    let mut sweeper = Sweeper::new(marks(&[
        truncated_hash(indexed.hash()),
        truncated_hash(canonical.hash()),
    ]));
    assert!(sweeper.goes_on());

    assert!(sweeper.indexed_key(&spared.to_bytes()).is_none());
    let removal = sweeper.indexed_key(&indexed.to_bytes());
    assert!(matches!(removal, Some((1, Operation::Dereference(key))) if key == indexed.to_bytes()));
    sweeper.committed(Ok(()));
    assert!(sweeper.goes_on());

    assert!(sweeper.canonical_value(b"spared too").is_none());
    let removal = sweeper.canonical_value(b"canonical");
    assert!(
        matches!(removal, Some((0, Operation::Dereference(key))) if key == canonical.to_bytes())
    );
    sweeper.committed(Ok(()));
    assert!(sweeper.goes_on());
    assert!(sweeper.finish().is_ok());
}

#[test]
fn a_failed_removal_ends_the_sweep() {
    let first = Cid::new_v1(IPLD_RAW, Multihash::blake2b_256(b"first"));
    let second = Cid::new_v1(IPLD_RAW, Multihash::blake2b_256(b"second"));
    let mut db = Memory::new();
    db.put_keyed(&first, b"first");
    db.put_keyed(&second, b"second");
    db.put_keyed(
        &Cid::new_v1(DAG_CBOR, Multihash::blake2b_256(b"third")),
        b"third",
    );
    let mut sweeper = Sweeper::new(db.get_keys().unwrap());

    // The engine takes the first removal and fails the second.
    let mut taken = 0;
    for key in db.keys(DbColumn::GraphFull) {
        if let Some(removal) = sweeper.indexed_key(&key) {
            if taken == 0 {
                db.commit(vec![removal]);
                sweeper.committed(Ok(()));
            } else {
                sweeper.committed(Err("disk on fire".to_string()));
            }
            taken += 1;
        }
    }
    assert_eq!(taken, 2);
    assert!(!sweeper.goes_on());

    // Nothing more is removed, and what was removed stays so.
    assert!(sweeper.canonical_value(b"third").is_none());
    assert!(sweeper.indexed_key(&first.to_bytes()).is_none());
    sweeper.committed(Ok(()));
    assert!(matches!(
        sweeper.finish(),
        Err(StoreError::EngineFailure { column: DbColumn::GraphFull, cause }) if cause == "disk on fire"
    ));
    assert_eq!(db.keys(DbColumn::GraphFull).len(), 1);
    assert_eq!(db.values(DbColumn::GraphDagCborBlake2b256).len(), 1);
}

#[test]
fn a_failed_removal_in_the_canonical_column_names_that_column() {
    let mut sweeper = Sweeper::new(marks(&[0x3c5d_9e4d]));
    assert!(sweeper.canonical_value(b"Cthulhu").is_some());
    sweeper.committed(Err("no space".to_string()));
    sweeper.committed(Err("later".to_string()));
    assert!(matches!(
        sweeper.finish(),
        Err(StoreError::EngineFailure { column: DbColumn::GraphDagCborBlake2b256, cause }) if cause == "no space"
    ));
}

#[test]
fn a_key_that_is_no_identifier_ends_the_sweeper() {
    let first = Cid::new_v1(IPLD_RAW, Multihash::blake2b_256(b"first"));
    let mut sweeper = Sweeper::new(marks(&[truncated_hash(first.hash())]));
    assert!(sweeper.indexed_key(b"dagon").is_none());
    assert!(!sweeper.goes_on());
    assert!(sweeper.indexed_key(&first.to_bytes()).is_none());
    assert!(matches!(
        sweeper.finish(),
        Err(StoreError::InvariantViolation { column: DbColumn::GraphFull, key }) if key == b"dagon"
    ));
}
