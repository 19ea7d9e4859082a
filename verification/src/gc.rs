//! Garbage collection by marks: every block is marked by a hash of 32 bits
//! cut from its digest, the marks of all blocks in the store are collected,
//! and a sweep removes the blocks whose mark is among its targets.
//!
//! Two blocks may share a mark. A mark that is left out of the targets
//! therefore keeps every block that carries it, and a block is never removed
//! for a mark that is not its own.
//!
//! A collection is idle, or it computes the marks of the store, or it
//! sweeps. Nothing is kept from one phase to the next but what the caller
//! holds: the marks that [`ParityDb::get_keys`] gave, and the targets that
//! it hands to a [`Sweeper`] or to [`ParityDb::remove_keys`]. A collection
//! that was cut short is begun again from the start.

use crate::column::DbColumn;
use crate::content::{blake2b_256, canonical_cid, cid_parse, Cid, Multihash, DAG_CBOR};
use crate::operation::{plan, Op, OpView};
use crate::store::{dereference_of, ParityDb, StoreError, StoreErrorView};
use std::collections::HashSet;
use vstd::prelude::*;
use vstd::slice::slice_to_vec;

verus! {

/// The state of the hashers of a set of marks.
#[verifier::external_type_specification]
#[verifier::external_body]
pub struct ExRandomState(ahash::RandomState);

/// A set of marks.
pub type Marks = HashSet<u32, ahash::RandomState>;

/// Calls `ahash::HashSetExt::new`: the set is empty.
#[verifier::external_body]
fn marks_new() -> (marks: Marks)
    ensures
        marks@ == Set::<u32>::empty(),
{
    ahash::HashSetExt::new()
}

/// Calls `HashSet::insert` on a set that hashes with `ahash::RandomState`:
/// the set holds `mark` besides what it held.
#[verifier::external_body]
fn marks_insert(marks: &mut Marks, mark: u32)
    ensures
        final(marks)@ == old(marks)@.insert(mark),
{
    marks.insert(mark);
}

/// Calls `HashSet::contains` on a set that hashes with
/// `ahash::RandomState`: whether the set holds `mark`.
#[verifier::external_body]
fn marks_contains(marks: &Marks, mark: u32) -> (r: bool)
    ensures
        r == marks@.contains(mark),
{
    marks.contains(&mark)
}

/// The byte of `digest` at place `i`, and 0 where the digest is too short to
/// have one.
pub open spec fn digest_byte(digest: Seq<u8>, i: int) -> int {
    if 0 <= i < digest.len() {
        digest[i] as int
    } else {
        0
    }
}

/// The mark of a digest: its first four bytes as a number, the first byte
/// the least significant.
pub open spec fn truncate(digest: Seq<u8>) -> u32 {
    (digest_byte(digest, 0) + 0x100 * digest_byte(digest, 1) + 0x1_0000 * digest_byte(digest, 2)
        + 0x100_0000 * digest_byte(digest, 3)) as u32
}

/// The mark of a multihash, which is that of its digest.
pub fn truncated_hash(hash: &Multihash) -> (r: u32)
    ensures
        r == truncate(hash@.digest),
{
    let digest = hash.digest();
    let b0: u32 = if digest.len() > 0 { digest[0] as u32 } else { 0 };
    let b1: u32 = if digest.len() > 1 { digest[1] as u32 } else { 0 };
    let b2: u32 = if digest.len() > 2 { digest[2] as u32 } else { 0 };
    let b3: u32 = if digest.len() > 3 { digest[3] as u32 } else { 0 };
    b0 + 0x100 * b1 + 0x1_0000 * b2 + 0x100_0000 * b3
}

/// The mark of the block under `key` in the indexed column: that of the
/// identifier which the key holds. `None` where the key holds none.
pub open spec fn key_mark(key: Seq<u8>) -> Option<u32> {
    match cid_parse(key) {
        Some(cid) => Some(truncate(cid.hash.digest)),
        None => None,
    }
}

/// The mark of the block `value` of the canonical column: that of its
/// BLAKE2b-256 digest, which is the digest in its identifier.
pub open spec fn value_mark(value: Seq<u8>) -> u32 {
    truncate(blake2b_256(value))
}

/// The marks of all blocks: those of the keys of the indexed column and
/// those of the values of the canonical column.
pub open spec fn live_set(keys: Seq<Seq<u8>>, values: Seq<Seq<u8>>) -> Set<u32> {
    Set::new(
        |mark: u32|
            (exists|i: int| 0 <= i < keys.len() && key_mark(#[trigger] keys[i]) == Some(mark)) || (
            exists|i: int| 0 <= i < values.len() && value_mark(#[trigger] values[i]) == mark),
    )
}

/// What a sweep does with the block under `key` in the indexed column: it
/// removes the block that the key's identifier names where the mark is a
/// target, and leaves it otherwise.
pub open spec fn sweep_key(key: Seq<u8>, targets: Set<u32>) -> Option<OpView> {
    match cid_parse(key) {
        Some(cid) => if targets.contains(truncate(cid.hash.digest)) {
            Some(dereference_of(cid))
        } else {
            None
        },
        None => None,
    }
}

/// What a sweep does with the block `value` of the canonical column: it
/// removes the block under the identifier made from the digest of the value
/// where the mark is a target, and leaves it otherwise.
pub open spec fn sweep_value(value: Seq<u8>, targets: Set<u32>) -> Option<OpView> {
    if targets.contains(value_mark(value)) {
        Some(dereference_of(canonical_cid(value)))
    } else {
        None
    }
}

/// The removals of a sweep over the keys of the indexed column, in the order
/// of the keys.
pub open spec fn sweep_keys(keys: Seq<Seq<u8>>, targets: Set<u32>) -> Seq<OpView>
    decreases keys.len(),
{
    if keys.len() == 0 {
        Seq::empty()
    } else {
        match sweep_key(keys.last(), targets) {
            Some(op) => sweep_keys(keys.drop_last(), targets).push(op),
            None => sweep_keys(keys.drop_last(), targets),
        }
    }
}

/// The removals of a sweep over the values of the canonical column, in the
/// order of the values.
pub open spec fn sweep_values(values: Seq<Seq<u8>>, targets: Set<u32>) -> Seq<OpView>
    decreases values.len(),
{
    if values.len() == 0 {
        Seq::empty()
    } else {
        match sweep_value(values.last(), targets) {
            Some(op) => sweep_values(values.drop_last(), targets).push(op),
            None => sweep_values(values.drop_last(), targets),
        }
    }
}

/// All removals of a sweep for `targets`: those of the indexed column, then
/// those of the canonical column.
pub open spec fn sweep(keys: Seq<Seq<u8>>, values: Seq<Seq<u8>>, targets: Set<u32>) -> Seq<
    OpView,
> {
    sweep_keys(keys, targets) + sweep_values(values, targets)
}

/// How many keys from the front hold an identifier: the place of the first
/// key that holds none, or the number of keys where each holds one.
pub open spec fn readable_keys(keys: Seq<Seq<u8>>) -> int
    decreases keys.len(),
{
    if keys.len() == 0 {
        0
    } else if readable_keys(keys.drop_last()) < keys.len() - 1 {
        readable_keys(keys.drop_last())
    } else if cid_parse(keys.last()) is Some {
        keys.len() as int
    } else {
        keys.len() - 1
    }
}

/// The keys as plain values.
pub open spec fn key_views(keys: Seq<Vec<u8>>) -> Seq<Seq<u8>> {
    keys.map_values(|key: Vec<u8>| key@)
}

/// What a sweep found: the removals, and the failure that ended the sweep
/// early, if one did.
///
/// Each removal is a commit of its own, to be handed to the engine in this
/// order. Where the engine fails one, the sweep ends there with that
/// failure: the removals before it stand, and those after it are not made.
#[derive(Debug)]
pub struct SweepPlan {
    pub removals: Vec<Op>,
    pub failure: Option<StoreError>,
}

/// A removal that was or was not found, as a plain value.
pub open spec fn found(removal: Option<Op>) -> Option<OpView> {
    match removal {
        Some(op) => Some(op@),
        None => None,
    }
}

/// `readable_keys` is the place of the first key that holds no identifier.
pub proof fn lemma_readable_keys(keys: Seq<Seq<u8>>)
    ensures
        0 <= readable_keys(keys) <= keys.len(),
        forall|i: int| 0 <= i < readable_keys(keys) ==> cid_parse(#[trigger] keys[i]) is Some,
        readable_keys(keys) < keys.len() ==> cid_parse(keys[readable_keys(keys)]) is None,
    decreases keys.len(),
{
    if keys.len() > 0 {
        lemma_readable_keys(keys.drop_last());
        assert forall|i: int| 0 <= i < readable_keys(keys) implies cid_parse(#[trigger] keys[i])
            is Some by {
            if i < keys.len() - 1 {
                assert(keys.drop_last()[i] == keys[i]);
            }
        }
        if readable_keys(keys.drop_last()) < keys.len() - 1 {
            assert(keys.drop_last()[readable_keys(keys.drop_last())] == keys[readable_keys(
                keys.drop_last(),
            )]);
        }
    }
}

impl ParityDb {
    /// Adds to `marks` the mark of the block under `key` in the indexed
    /// column. Fails on a key that holds no identifier, and on no other; the
    /// marks are then as they were.
    pub fn mark_key(marks: &mut Marks, key: &[u8]) -> (r: Result<(), StoreError>)
        ensures
            key_mark(key@) matches Some(mark) ==> r is Ok && final(marks)@ == old(marks)@.insert(
                mark,
            ),
            key_mark(key@) is None ==> (r matches Err(e) && e@ == (
            StoreErrorView::InvariantViolation { column: DbColumn::GraphFull, key: key@ }))
                && final(marks)@ == old(marks)@,
    {
        match Cid::from_bytes(key) {
            Some(cid) => {
                marks_insert(marks, truncated_hash(cid.hash()));
                Ok(())
            },
            None => Err(
                StoreError::InvariantViolation {
                    column: DbColumn::GraphFull,
                    key: slice_to_vec(key),
                },
            ),
        }
    }

    /// Adds to `marks` the mark of the block `value` of the canonical
    /// column.
    pub fn mark_value(marks: &mut Marks, value: &[u8])
        ensures
            final(marks)@ == old(marks)@.insert(value_mark(value@)),
    {
        marks_insert(marks, truncated_hash(&Multihash::blake2b_256(value)));
    }

    /// The removal that a sweep for `targets` makes of the block under `key`
    /// in the indexed column, if it makes one. Fails on a key that holds no
    /// identifier, and on no other.
    pub fn sweep_indexed_key(key: &[u8], targets: &Marks) -> (r: Result<Option<Op>, StoreError>)
        ensures
            cid_parse(key@) is Some ==> r is Ok && found(r->Ok_0) == sweep_key(key@, targets@),
            cid_parse(key@) is None ==> (r matches Err(e) && e@ == (
            StoreErrorView::InvariantViolation { column: DbColumn::GraphFull, key: key@ })),
    {
        match Cid::from_bytes(key) {
            Some(cid) => {
                if marks_contains(targets, truncated_hash(cid.hash())) {
                    Ok(Some(Self::dereference_operation(&cid)))
                } else {
                    Ok(None)
                }
            },
            None => Err(
                StoreError::InvariantViolation {
                    column: DbColumn::GraphFull,
                    key: slice_to_vec(key),
                },
            ),
        }
    }

    /// The removal that a sweep for `targets` makes of the block `value` of
    /// the canonical column, if it makes one. The column gives no keys, so
    /// the identifier is made anew from the digest of the value.
    pub fn sweep_canonical_value(value: &[u8], targets: &Marks) -> (r: Option<Op>)
        ensures
            found(r) == sweep_value(value@, targets@),
    {
        let hash = Multihash::blake2b_256(value);
        if marks_contains(targets, truncated_hash(&hash)) {
            let cid = Cid::new_v1(DAG_CBOR, hash);
            Some(Self::dereference_operation(&cid))
        } else {
            None
        }
    }

    /// The marks of all blocks in the store, from the keys that the engine
    /// enumerated in the indexed column and the values it enumerated in the
    /// canonical column. The first key that holds no identifier fails the
    /// whole computation.
    pub fn get_keys(&self, indexed_keys: &Vec<Vec<u8>>, canonical_values: &Vec<Vec<u8>>) -> (r:
        Result<Marks, StoreError>)
        ensures
            match r {
                Ok(marks) => {
                    &&& readable_keys(key_views(indexed_keys@)) == indexed_keys@.len()
                    &&& marks@ == live_set(key_views(indexed_keys@), key_views(canonical_values@))
                },
                Err(e) => {
                    &&& readable_keys(key_views(indexed_keys@)) < indexed_keys@.len()
                    &&& e@ == (StoreErrorView::InvariantViolation {
                        column: DbColumn::GraphFull,
                        key: indexed_keys@[readable_keys(key_views(indexed_keys@))]@,
                    })
                },
            },
    {
        let ghost keys = key_views(indexed_keys@);
        let ghost values = key_views(canonical_values@);
        let mut marks = marks_new();
        let mut i: usize = 0;
        while i < indexed_keys.len()
            invariant
                i <= indexed_keys.len(),
                keys == key_views(indexed_keys@),
                readable_keys(keys.take(i as int)) == i,
                forall|mark: u32|
                    marks@.contains(mark) <==> exists|j: int|
                        0 <= j < i && key_mark(#[trigger] keys[j]) == Some(mark),
            decreases indexed_keys.len() - i,
        {
            proof {
                assert(keys.take(i + 1).drop_last() =~= keys.take(i as int));
                assert(keys.take(i + 1).last() == indexed_keys@[i as int]@);
            }
            match Self::mark_key(&mut marks, indexed_keys[i].as_slice()) {
                Ok(()) => {},
                Err(e) => {
                    proof {
                        lemma_readable_prefix(keys, i as int);
                    }
                    return Err(e);
                },
            }
            i += 1;
        }
        proof {
            assert(keys.take(i as int) =~= keys);
        }
        let mut k: usize = 0;
        while k < canonical_values.len()
            invariant
                k <= canonical_values.len(),
                values == key_views(canonical_values@),
                forall|mark: u32|
                    marks@.contains(mark) <==> (exists|j: int|
                        0 <= j < keys.len() && key_mark(#[trigger] keys[j]) == Some(mark)) || (
                    exists|j: int| 0 <= j < k && value_mark(#[trigger] values[j]) == mark),
            decreases canonical_values.len() - k,
        {
            let ghost before = marks@;
            let ghost mark = value_mark(canonical_values@[k as int]@);
            Self::mark_value(&mut marks, canonical_values[k].as_slice());
            proof {
                assert(values[k as int] == canonical_values@[k as int]@);
                assert forall|m: u32| marks@.contains(m) implies (exists|j: int|
                    0 <= j < keys.len() && key_mark(#[trigger] keys[j]) == Some(m)) || (exists|
                    j: int,
                | 0 <= j < k + 1 && value_mark(#[trigger] values[j]) == m) by {
                    if m == mark {
                        assert(value_mark(values[k as int]) == m);
                    } else {
                        assert(before.contains(m));
                    }
                }
                assert forall|m: u32|
                    (exists|j: int| 0 <= j < keys.len() && key_mark(#[trigger] keys[j]) == Some(m))
                        || (exists|j: int|
                        0 <= j < k + 1 && value_mark(#[trigger] values[j]) == m) implies marks@.contains(
                    m,
                ) by {
                    if !before.contains(m) {
                        let j = choose|j: int|
                            0 <= j < k + 1 && value_mark(#[trigger] values[j]) == m;
                        assert(j == k);
                    }
                }
            }
            k += 1;
        }
        assert(marks@ =~= live_set(keys, values));
        Ok(marks)
    }

    /// The removals of a sweep for the targets `keys`, from the keys that
    /// the engine enumerated in the indexed column and the values it
    /// enumerated in the canonical column: first those of the indexed
    /// column, then those of the canonical column, each in the order of the
    /// enumeration. A key that holds no identifier ends the sweep: the
    /// removals found before it stand, and the failure is reported.
    pub fn remove_keys(
        &self,
        indexed_keys: &Vec<Vec<u8>>,
        canonical_values: &Vec<Vec<u8>>,
        keys: &Marks,
    ) -> (r: SweepPlan)
        ensures
            readable_keys(key_views(indexed_keys@)) == indexed_keys@.len() ==> r.failure is None
                && plan(r.removals@) == sweep(
                key_views(indexed_keys@),
                key_views(canonical_values@),
                keys@,
            ),
            readable_keys(key_views(indexed_keys@)) < indexed_keys@.len() ==> (r.failure matches Some(
                e,
            ) && e@ == (StoreErrorView::InvariantViolation {
                column: DbColumn::GraphFull,
                key: indexed_keys@[readable_keys(key_views(indexed_keys@))]@,
            })) && plan(r.removals@) == sweep_keys(
                key_views(indexed_keys@).take(readable_keys(key_views(indexed_keys@))),
                keys@,
            ),
    {
        let ghost indexed = key_views(indexed_keys@);
        let ghost values = key_views(canonical_values@);
        let mut removals: Vec<Op> = Vec::new();
        assert(plan(removals@) =~= Seq::<OpView>::empty());
        let mut i: usize = 0;
        while i < indexed_keys.len()
            invariant
                i <= indexed_keys.len(),
                indexed == key_views(indexed_keys@),
                readable_keys(indexed.take(i as int)) == i,
                plan(removals@) == sweep_keys(indexed.take(i as int), keys@),
            decreases indexed_keys.len() - i,
        {
            proof {
                assert(indexed.take(i + 1).drop_last() =~= indexed.take(i as int));
                assert(indexed.take(i + 1).last() == indexed_keys@[i as int]@);
            }
            match Self::sweep_indexed_key(indexed_keys[i].as_slice(), keys) {
                Ok(Some(op)) => {
                    let ghost before = removals@;
                    removals.push(op);
                    assert(plan(removals@) =~= plan(before).push(op@));
                },
                Ok(None) => {},
                Err(e) => {
                    proof {
                        lemma_readable_prefix(indexed, i as int);
                    }
                    return SweepPlan { removals, failure: Some(e) };
                },
            }
            i += 1;
        }
        proof {
            assert(indexed.take(i as int) =~= indexed);
            assert(values.take(0) =~= Seq::<Seq<u8>>::empty());
            assert(plan(removals@) =~= sweep_keys(indexed, keys@) + sweep_values(
                values.take(0),
                keys@,
            ));
        }
        let mut k: usize = 0;
        while k < canonical_values.len()
            invariant
                k <= canonical_values.len(),
                values == key_views(canonical_values@),
                plan(removals@) == sweep_keys(indexed, keys@) + sweep_values(
                    values.take(k as int),
                    keys@,
                ),
            decreases canonical_values.len() - k,
        {
            proof {
                assert(values.take(k + 1).drop_last() =~= values.take(k as int));
                assert(values.take(k + 1).last() == canonical_values@[k as int]@);
            }
            match Self::sweep_canonical_value(canonical_values[k].as_slice(), keys) {
                Some(op) => {
                    let ghost before = removals@;
                    removals.push(op);
                    assert(plan(removals@) =~= plan(before).push(op@));
                    assert(plan(removals@) =~= sweep_keys(indexed, keys@) + sweep_values(
                        values.take(k + 1),
                        keys@,
                    ));
                },
                None => {},
            }
            k += 1;
        }
        proof {
            assert(values.take(k as int) =~= values);
        }
        SweepPlan { removals, failure: None }
    }
}

/// Where the key at place `i` is the first that holds no identifier, the
/// readable keys end there.
pub proof fn lemma_readable_prefix(keys: Seq<Seq<u8>>, i: int)
    requires
        0 <= i < keys.len(),
        readable_keys(keys.take(i)) == i,
        cid_parse(keys[i]) is None,
    ensures
        readable_keys(keys) == i,
    decreases keys.len(),
{
    if keys.len() - 1 == i {
        assert(keys.drop_last() =~= keys.take(i));
    } else {
        assert(keys.drop_last().take(i) =~= keys.take(i));
        lemma_readable_prefix(keys.drop_last(), i);
    }
}

/// A sweep as it goes over the store entry by entry: it takes the keys of the
/// indexed column and the values of the canonical column as the engine
/// enumerates them, gives the removal to make for each, and takes what the
/// engine answers to the commit of each removal.
///
/// The first failure ends the sweep, be it a key that holds no identifier
/// or a removal that the engine fails. From then on no removal is given.
/// The removals made before stand, and [`Sweeper::finish`] reports the
/// failure.
#[derive(Debug)]
pub struct Sweeper {
    targets: Marks,
    column: DbColumn,
    failure: Option<StoreError>,
}

impl Sweeper {
    /// The marks of the blocks to remove.
    pub closed spec fn targets(&self) -> Set<u32> {
        self.targets@
    }

    /// The failure that ended the sweep, if one did.
    pub closed spec fn failure(&self) -> Option<StoreErrorView> {
        match self.failure {
            Some(e) => Some(e@),
            None => None,
        }
    }

    /// The column of the removal that was given last.
    pub closed spec fn column(&self) -> DbColumn {
        self.column
    }

    /// A sweep for `targets` that has seen nothing yet.
    pub fn new(targets: Marks) -> (r: Sweeper)
        ensures
            r.targets() == targets@,
            r.failure() is None,
    {
        Sweeper { targets, column: DbColumn::GraphFull, failure: None }
    }

    /// Whether the sweep goes on: it does until a failure ends it.
    pub fn goes_on(&self) -> (r: bool)
        ensures
            r == (self.failure() is None),
    {
        self.failure.is_none()
    }

    /// The removal to make of the block under `key` in the indexed column,
    /// if there is one to make. A key that holds no identifier ends the
    /// sweep. A sweep that has ended gives no removal.
    pub fn indexed_key(&mut self, key: &[u8]) -> (r: Option<Op>)
        ensures
            final(self).targets() == old(self).targets(),
            old(self).failure() is Some ==> r is None && final(self).failure() == old(
                self
            ).failure(),
            old(self).failure() is None && cid_parse(key@) is Some ==> final(self).failure()
                is None && found(r) == sweep_key(key@, old(self).targets()),
            old(self).failure() is None && cid_parse(key@) is None ==> r is None && final(
                self
            ).failure() == Some(
                StoreErrorView::InvariantViolation { column: DbColumn::GraphFull, key: key@ },
            ),
            r matches Some(op) ==> final(self).column().spec_id() == op.0,
    {
        if self.failure.is_some() {
            return None;
        }
        match ParityDb::sweep_indexed_key(key, &self.targets) {
            Ok(Some(op)) => {
                self.column = if op.0 == DbColumn::GraphDagCborBlake2b256.id() {
                    DbColumn::GraphDagCborBlake2b256
                } else {
                    DbColumn::GraphFull
                };
                Some(op)
            },
            Ok(None) => None,
            Err(e) => {
                self.failure = Some(e);
                None
            },
        }
    }

    /// The removal to make of the block `value` of the canonical column, if
    /// there is one to make. A sweep that has ended gives no removal.
    pub fn canonical_value(&mut self, value: &[u8]) -> (r: Option<Op>)
        ensures
            final(self).targets() == old(self).targets(),
            final(self).failure() == old(self).failure(),
            old(self).failure() is Some ==> r is None,
            old(self).failure() is None ==> found(r) == sweep_value(value@, old(self).targets()),
            r matches Some(op) ==> final(self).column().spec_id() == op.0,
    {
        if self.failure.is_some() {
            return None;
        }
        match ParityDb::sweep_canonical_value(value, &self.targets) {
            Some(op) => {
                self.column = DbColumn::GraphDagCborBlake2b256;
                Some(op)
            },
            None => None,
        }
    }

    /// Takes what the engine answered to the commit of the removal that was
    /// given last. A failure of the engine ends the sweep, with the column of
    /// that removal and the cause.
    pub fn committed(&mut self, outcome: Result<(), String>)
        ensures
            final(self).targets() == old(self).targets(),
            final(self).column() == old(self).column(),
            old(self).failure() is Some || outcome is Ok ==> final(self).failure() == old(
                self
            ).failure(),
            old(self).failure() is None && outcome is Err ==> final(self).failure() == Some(
                StoreErrorView::EngineFailure {
                    column: old(self).column(),
                    cause: outcome->Err_0@,
                },
            ),
    {
        if self.failure.is_none() {
            match outcome {
                Ok(()) => {},
                Err(cause) => {
                    self.failure = Some(StoreError::EngineFailure { column: self.column, cause });
                },
            }
        }
    }

    /// How the sweep ended: well, or with the failure that ended it.
    pub fn finish(self) -> (r: Result<(), StoreError>)
        ensures
            self.failure() is None ==> r is Ok,
            self.failure() matches Some(e) ==> (r matches Err(x) && x@ == e),
    {
        match self.failure {
            Some(e) => Err(e),
            None => Ok(()),
        }
    }
}

} // verus!
