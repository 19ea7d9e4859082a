//! The store: for each of its operations, the request to hand to the engine
//! and the reading of what the engine answers.

use crate::column::{
    column_of, options_at, CompressionType, DbColumn, Options, ParityDbConfig,
    COMPRESSION_THRESHOLD,
};
use crate::content::{Cid, CidView, BLAKE2B_256, DAG_CBOR};
use crate::operation::{plan, Location, LocationView, Op, OpView, Operation, OperationView};
use vstd::prelude::*;
use vstd::slice::slice_to_vec;
use vstd::utf8::{decode_utf8, valid_utf8};

verus! {

/// Why an operation of the store failed.
#[derive(Debug)]
pub enum StoreError {
    /// The engine failed on the named column, for the cause it gave.
    EngineFailure { column: DbColumn, cause: String },
    /// An enumerated key is not what its column holds: no text in the
    /// settings column, no content identifier in a graph column.
    InvariantViolation { column: DbColumn, key: Vec<u8> },
}

/// What a [`StoreError`] is.
pub enum StoreErrorView {
    EngineFailure { column: DbColumn, cause: Seq<char> },
    InvariantViolation { column: DbColumn, key: Seq<u8> },
}

impl View for StoreError {
    type V = StoreErrorView;

    open spec fn view(&self) -> StoreErrorView {
        match self {
            StoreError::EngineFailure { column, cause } => StoreErrorView::EngineFailure {
                column: *column,
                cause: cause@,
            },
            StoreError::InvariantViolation { column, key } => StoreErrorView::InvariantViolation {
                column: *column,
                key: key@,
            },
        }
    }
}

impl StoreError {
    /// The column that the error arose in.
    pub fn column(&self) -> (r: DbColumn)
        ensures
            r == match self@ {
                StoreErrorView::EngineFailure { column, .. } => column,
                StoreErrorView::InvariantViolation { column, .. } => column,
            },
    {
        match self {
            StoreError::EngineFailure { column, .. } => *column,
            StoreError::InvariantViolation { column, .. } => *column,
        }
    }
}

/// The place of the block that `cid` names: its column, and its key.
pub open spec fn place_of(cid: CidView) -> LocationView {
    (column_of(cid).spec_id(), cid.key())
}

/// The place of the setting `key`: the settings column, and the bytes of the
/// text.
pub open spec fn place_of_setting(key: Seq<char>) -> LocationView {
    (DbColumn::Settings.spec_id(), vstd::utf8::encode_utf8(key))
}

/// The operation that stores `block` under the identifier `cid`.
pub open spec fn put_operation(cid: CidView, block: Seq<u8>) -> OpView {
    (column_of(cid).spec_id(), OperationView::Put(cid.key(), block))
}

/// A batch of blocks with their identifiers, as plain values.
pub open spec fn block_views(blocks: Seq<(Cid, Vec<u8>)>) -> Seq<(CidView, Seq<u8>)> {
    blocks.map_values(|b: (Cid, Vec<u8>)| (b.0@, b.1@))
}

/// The operations that store a batch of blocks: one for each block, in the
/// order of the batch.
pub open spec fn put_operations(blocks: Seq<(CidView, Seq<u8>)>) -> Seq<OpView> {
    blocks.map_values(|b: (CidView, Seq<u8>)| put_operation(b.0, b.1))
}

/// The operation that writes `value` to the setting `key`.
pub open spec fn setting_operation(key: Seq<char>, value: Seq<u8>) -> OpView {
    (place_of_setting(key).0, OperationView::Put(place_of_setting(key).1, value))
}

/// The operation that removes the block that `cid` names.
pub open spec fn dereference_of(cid: CidView) -> OpView {
    (column_of(cid).spec_id(), OperationView::Dereference(cid.key()))
}

/// The next step of a search for a block in both graph columns.
#[derive(Debug)]
pub enum Probe {
    /// Ask the engine for the size of the entry at this place.
    Ask(Location),
    /// The search is over: the block is there, or it is not.
    Done(bool),
}

/// What a [`Probe`] is.
pub enum ProbeView {
    Ask(LocationView),
    Done(bool),
}

impl View for Probe {
    type V = ProbeView;

    open spec fn view(&self) -> ProbeView {
        match self {
            Probe::Ask(place) => ProbeView::Ask(place@),
            Probe::Done(found) => ProbeView::Done(*found),
        }
    }
}

/// The graph columns in the order in which a block is searched for: the
/// canonical column first, since most blocks are there.
pub open spec fn search_order() -> Seq<DbColumn> {
    seq![DbColumn::GraphDagCborBlake2b256, DbColumn::GraphFull]
}

/// The step that follows the given answers in a search for `cid`: done with
/// `true` once an answer gave a size, the next column while one is left,
/// done with `false` after that.
pub open spec fn search_step(cid: CidView, answers: Seq<Option<u32>>) -> ProbeView {
    if exists|i: int| 0 <= i < answers.len() && answers[i] is Some {
        ProbeView::Done(true)
    } else if answers.len() < search_order().len() {
        ProbeView::Ask((search_order()[answers.len() as int].spec_id(), cid.key()))
    } else {
        ProbeView::Done(false)
    }
}

/// Calls `String::from_utf8`. The text is the one that the bytes encode,
/// and there is none exactly when the bytes are no UTF-8.
#[verifier::external_body]
fn text_from_utf8(bytes: Vec<u8>) -> (r: Option<String>)
    ensures
        r is Some <==> valid_utf8(bytes@),
        r matches Some(text) ==> text@ == decode_utf8(bytes@),
{
    String::from_utf8(bytes).ok()
}

/// The store's side of an engine that is open: what was chosen when it was
/// opened.
#[derive(Debug)]
pub struct ParityDb {
    statistics_enabled: bool,
}

impl ParityDb {
    /// Whether the engine was opened with statistics.
    pub closed spec fn collects_statistics(&self) -> bool {
        self.statistics_enabled
    }

    /// The options that open the engine at `path`.
    pub fn to_options(path: String, config: &ParityDbConfig) -> (r: Options)
        ensures
            r@ == options_at(path@, *config),
    {
        let mut compression_threshold: Vec<(u8, u32)> = Vec::new();
        compression_threshold.push((DbColumn::GraphDagCborBlake2b256.id(), COMPRESSION_THRESHOLD));
        assert(compression_threshold@ =~= seq![
            (DbColumn::GraphDagCborBlake2b256.spec_id(), COMPRESSION_THRESHOLD),
        ]);
        Options {
            path,
            sync_wal: true,
            sync_data: true,
            stats: config.enable_statistics,
            salt: None,
            columns: DbColumn::create_column_options(CompressionType::Lz4),
            compression_threshold,
        }
    }

    /// The store over an engine at `path`, and the options to open that
    /// engine with. The store collects statistics exactly when the engine
    /// does.
    pub fn open(path: String, config: &ParityDbConfig) -> (r: (ParityDb, Options))
        ensures
            r.0.collects_statistics() == config.enable_statistics,
            r.1@ == options_at(path@, *config),
    {
        let options = Self::to_options(path, config);
        (ParityDb { statistics_enabled: options.stats }, options)
    }

    /// The store over an engine that is open already, with or without
    /// statistics.
    pub fn wrap(stats: bool) -> (r: ParityDb)
        ensures
            r.collects_statistics() == stats,
    {
        ParityDb { statistics_enabled: stats }
    }

    /// Whether the engine was opened with statistics.
    pub fn statistics_enabled(&self) -> (r: bool)
        ensures
            r == self.collects_statistics(),
    {
        self.statistics_enabled
    }

    /// The column of the block that `cid` names: the canonical column where
    /// the codec is DAG-CBOR and the hash function BLAKE2b-256, the indexed
    /// column otherwise, and never the settings column.
    pub fn choose_column(cid: &Cid) -> (r: DbColumn)
        ensures
            r == column_of(cid@),
            r.is_graph(),
    {
        if cid.codec() == DAG_CBOR && cid.hash().code() == BLAKE2B_256 {
            DbColumn::GraphDagCborBlake2b256
        } else {
            DbColumn::GraphFull
        }
    }

    /// The point lookup that reads `key` in `column`.
    pub fn read_from_column(&self, key: &[u8], column: DbColumn) -> (r: Location)
        ensures
            r@ == (column.spec_id(), key@),
    {
        (column.id(), slice_to_vec(key))
    }

    /// The commit that writes `value` under `key` in `column`: one
    /// operation.
    pub fn write_to_column(&self, key: &[u8], value: &[u8], column: DbColumn) -> (r: Vec<Op>)
        ensures
            plan(r@) == seq![(column.spec_id(), OperationView::Put(key@, value@))],
    {
        let mut r: Vec<Op> = Vec::new();
        r.push(Self::set_operation(column.id(), slice_to_vec(key), slice_to_vec(value)));
        assert(plan(r@) =~= seq![(column.spec_id(), OperationView::Put(key@, value@))]);
        r
    }

    /// What the engine answered, with its failure marked by the column that
    /// was asked: an answer is handed on as it is, a failure becomes
    /// [`StoreError::EngineFailure`] with `column` and the cause.
    pub fn engine_result<T>(column: DbColumn, outcome: Result<T, String>) -> (r: Result<
        T,
        StoreError,
    >)
        ensures
            outcome matches Ok(answer) ==> r == Ok::<T, StoreError>(answer),
            outcome matches Err(cause) ==> (r matches Err(e) && e@ == (
            StoreErrorView::EngineFailure { column, cause: cause@ })),
    {
        match outcome {
            Ok(answer) => Ok(answer),
            Err(cause) => Err(StoreError::EngineFailure { column, cause }),
        }
    }

    /// The operation that puts `value` under `key` in the column with the
    /// number `column`.
    pub fn set_operation(column: u8, key: Vec<u8>, value: Vec<u8>) -> (r: Op)
        ensures
            r@ == (column, OperationView::Put(key@, value@)),
    {
        (column, Operation::Put(key, value))
    }

    /// The operation that removes the block that `key` names from its
    /// column.
    pub fn dereference_operation(key: &Cid) -> (r: Op)
        ensures
            r@ == dereference_of(key@),
            key@.key_reads_back(),
            key@.wf(),
    {
        let column = Self::choose_column(key);
        (column.id(), Operation::Dereference(key.to_bytes()))
    }

    /// The point lookup that reads the block that `k` names: in the column
    /// of `k`, under its key.
    pub fn get(&self, k: &Cid) -> (r: Location)
        ensures
            r@ == place_of(k@),
            k@.key_reads_back(),
            k@.wf(),
    {
        let column = Self::choose_column(k);
        (column.id(), k.to_bytes())
    }

    /// The commit that stores `block` under `k`: one operation, in the
    /// column of `k`. That `k` is the identifier of `block` is left to the
    /// caller.
    pub fn put_keyed(&self, k: &Cid, block: &[u8]) -> (r: Vec<Op>)
        ensures
            plan(r@) == seq![put_operation(k@, block@)],
            k@.key_reads_back(),
            k@.wf(),
    {
        let column = Self::choose_column(k);
        let key = k.to_bytes();
        self.write_to_column(key.as_slice(), block, column)
    }

    /// The one commit that stores all of `blocks`, each under its identifier
    /// in its own column, in the order given.
    pub fn put_many_keyed(&self, blocks: &Vec<(Cid, Vec<u8>)>) -> (r: Vec<Op>)
        ensures
            plan(r@) == put_operations(block_views(blocks@)),
            forall|i: int|
                0 <= i < blocks@.len() ==> (#[trigger] blocks@[i]).0@.key_reads_back()
                    && blocks@[i].0@.wf(),
    {
        let mut r: Vec<Op> = Vec::new();
        let mut i: usize = 0;
        while i < blocks.len()
            invariant
                i <= blocks.len(),
                r@.len() == i,
                forall|j: int| 0 <= j < i ==> (#[trigger] r@[j])@ == put_operation(
                    blocks@[j].0@,
                    blocks@[j].1@,
                ),
                forall|j: int|
                    0 <= j < i ==> (#[trigger] blocks@[j]).0@.key_reads_back()
                        && blocks@[j].0@.wf(),
            decreases blocks.len() - i,
        {
            let column = Self::choose_column(&blocks[i].0);
            let key = blocks[i].0.to_bytes();
            r.push(Self::set_operation(column.id(), key, blocks[i].1.clone()));
            i += 1;
        }
        assert(plan(r@) =~= put_operations(block_views(blocks@)));
        r
    }

    /// The next step of the search for the block that `cid` names, after
    /// the sizes that the engine answered to the steps before.
    pub fn contains(&self, cid: &Cid, answers: &Vec<Option<u32>>) -> (r: Probe)
        ensures
            r@ == search_step(cid@, answers@),
            cid@.key_reads_back(),
            cid@.wf(),
    {
        let key = cid.to_bytes();
        let mut i: usize = 0;
        while i < answers.len()
            invariant
                i <= answers.len(),
                forall|j: int| 0 <= j < i ==> answers@[j] is None,
                key@ == cid@.key(),
                cid@.key_reads_back(),
                cid@.wf(),
            decreases answers.len() - i,
        {
            if answers[i].is_some() {
                return Probe::Done(true);
            }
            i += 1;
        }
        if answers.len() == 0 {
            Probe::Ask((DbColumn::GraphDagCborBlake2b256.id(), key))
        } else if answers.len() == 1 {
            Probe::Ask((DbColumn::GraphFull.id(), key))
        } else {
            Probe::Done(false)
        }
    }

    /// The point lookup that reads the setting `key`.
    pub fn read_bin(&self, key: &str) -> (r: Location)
        ensures
            r@ == place_of_setting(key@),
    {
        self.read_from_column(key.as_bytes(), DbColumn::Settings)
    }

    /// The commit that writes the setting `key`, over what it held.
    pub fn write_bin(&self, key: &str, value: &[u8]) -> (r: Vec<Op>)
        ensures
            plan(r@) == seq![setting_operation(key@, value@)],
    {
        self.write_to_column(key.as_bytes(), value, DbColumn::Settings)
    }

    /// The place whose size tells whether the setting `key` exists.
    pub fn setting_exists(&self, key: &str) -> (r: Location)
        ensures
            r@ == place_of_setting(key@),
    {
        self.read_from_column(key.as_bytes(), DbColumn::Settings)
    }

    /// Whether an entry exists, from the size that the engine answered for
    /// its place.
    pub fn is_present(size: Option<u32>) -> (r: bool)
        ensures
            r == (size is Some),
    {
        size.is_some()
    }

    /// The keys of the settings as text, from the keys that the engine
    /// enumerated in the settings column, in the same order. The first key
    /// that is no UTF-8 fails the whole enumeration.
    pub fn setting_keys(&self, keys: Vec<Vec<u8>>) -> (r: Result<Vec<String>, StoreError>)
        ensures
            match r {
                Ok(texts) => {
                    &&& texts@.len() == keys@.len()
                    &&& forall|i: int|
                        0 <= i < keys@.len() ==> valid_utf8(#[trigger] keys@[i]@)
                            && texts@[i]@ == decode_utf8(keys@[i]@)
                },
                Err(e) => exists|i: int|
                    {
                        &&& 0 <= i < keys@.len()
                        &&& !valid_utf8(#[trigger] keys@[i]@)
                        &&& forall|j: int| 0 <= j < i ==> valid_utf8(#[trigger] keys@[j]@)
                        &&& e@ == (StoreErrorView::InvariantViolation {
                            column: DbColumn::Settings,
                            key: keys@[i]@,
                        })
                    },
            },
    {
        let mut texts: Vec<String> = Vec::new();
        let mut i: usize = 0;
        while i < keys.len()
            invariant
                i <= keys.len(),
                texts@.len() == i,
                forall|j: int|
                    0 <= j < i ==> valid_utf8(#[trigger] keys@[j]@) && texts@[j]@ == decode_utf8(
                        keys@[j]@,
                    ),
            decreases keys.len() - i,
        {
            match text_from_utf8(keys[i].clone()) {
                Some(text) => texts.push(text),
                None => {
                    return Err(
                        StoreError::InvariantViolation {
                            column: DbColumn::Settings,
                            key: keys[i].clone(),
                        },
                    );
                },
            }
            i += 1;
        }
        Ok(texts)
    }

    /// The statistics as text, from what the engine wrote when asked for
    /// them; `report` is `None` where the engine failed or was not asked.
    /// There are none unless the engine was opened with statistics and wrote
    /// UTF-8.
    pub fn get_statistics(&self, report: Option<Vec<u8>>) -> (r: Option<String>)
        ensures
            r is Some <==> self.collects_statistics() && report is Some && valid_utf8(
                report->Some_0@,
            ),
            r matches Some(text) ==> text@ == decode_utf8(report->Some_0@),
    {
        if !self.statistics_enabled {
            return None;
        }
        match report {
            Some(bytes) => text_from_utf8(bytes),
            None => None,
        }
    }
}

} // verus!
