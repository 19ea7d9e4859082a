//! The columns of the store, the rule that assigns a block to its column, and
//! the options with which the engine is opened.

use crate::content::{CidView, BLAKE2B_256, DAG_CBOR};
use vstd::prelude::*;

verus! {

/// A partition of the store. Which one holds an entry is fixed by the kind of
/// the entry and never changes.
#[derive(Copy, Clone, Debug, PartialEq, Eq, Structural)]
pub enum DbColumn {
    /// Blocks of DAG-CBOR data named by their BLAKE2b-256 digest. Most blocks
    /// are of this kind; the column has no index of its keys.
    GraphDagCborBlake2b256,
    /// Blocks of any other codec or hash function. The column keeps an index
    /// of its keys.
    GraphFull,
    /// Settings, kept under keys of text and overwritten in place.
    Settings,
}

/// How the engine compresses the values of a column.
#[derive(Copy, Clone, Debug, PartialEq, Eq, Structural)]
pub enum CompressionType {
    NoCompression,
    Lz4,
    Snappy,
}

/// The configuration of one column of the engine.
#[derive(Copy, Clone, Debug, PartialEq, Eq, Structural)]
pub struct ColumnOptions {
    /// A value determines its key, so a key that is present is never written
    /// again.
    pub preimage: bool,
    /// The keys are uniformly distributed and need no further hashing.
    pub uniform: bool,
    /// Values are counted by reference.
    pub ref_counted: bool,
    /// The compression of the values.
    pub compression: CompressionType,
    /// The column keeps an ordered index of its keys, which allows to
    /// enumerate them.
    pub btree_index: bool,
}

impl Default for ColumnOptions {
    /// Everything off, and no compression.
    fn default() -> (r: ColumnOptions)
        ensures
            r == ColumnOptions::plain(),
    {
        ColumnOptions {
            preimage: false,
            uniform: false,
            ref_counted: false,
            compression: CompressionType::NoCompression,
            btree_index: false,
        }
    }
}

impl ColumnOptions {
    /// The default configuration: everything off, and no compression.
    pub open spec fn plain() -> ColumnOptions {
        ColumnOptions {
            preimage: false,
            uniform: false,
            ref_counted: false,
            compression: CompressionType::NoCompression,
            btree_index: false,
        }
    }
}

/// How many columns the store has.
pub const COLUMN_COUNT: u8 = 3;

impl DbColumn {
    /// The number by which the engine knows the column.
    pub open spec fn spec_id(self) -> u8 {
        match self {
            DbColumn::GraphDagCborBlake2b256 => 0,
            DbColumn::GraphFull => 1,
            DbColumn::Settings => 2,
        }
    }

    /// The number by which the engine knows the column.
    #[verifier::when_used_as_spec(spec_id)]
    pub fn id(self) -> (r: u8)
        ensures
            r == self.spec_id(),
            r < COLUMN_COUNT,
    {
        match self {
            DbColumn::GraphDagCborBlake2b256 => 0,
            DbColumn::GraphFull => 1,
            DbColumn::Settings => 2,
        }
    }

    /// The column with the given number, if there is one.
    pub open spec fn spec_from_repr(id: u8) -> Option<DbColumn> {
        if id == 0 {
            Some(DbColumn::GraphDagCborBlake2b256)
        } else if id == 1 {
            Some(DbColumn::GraphFull)
        } else if id == 2 {
            Some(DbColumn::Settings)
        } else {
            None
        }
    }

    /// The column with the given number, if there is one.
    #[verifier::when_used_as_spec(spec_from_repr)]
    pub fn from_repr(id: u8) -> (r: Option<DbColumn>)
        ensures
            r == Self::spec_from_repr(id),
            r matches Some(column) ==> column.spec_id() == id,
            r is Some <==> id < COLUMN_COUNT,
    {
        if id == 0 {
            Some(DbColumn::GraphDagCborBlake2b256)
        } else if id == 1 {
            Some(DbColumn::GraphFull)
        } else if id == 2 {
            Some(DbColumn::Settings)
        } else {
            None
        }
    }

    /// All columns, in the order of their numbers.
    pub open spec fn all() -> Seq<DbColumn> {
        seq![DbColumn::GraphDagCborBlake2b256, DbColumn::GraphFull, DbColumn::Settings]
    }

    /// All columns, in the order of their numbers.
    pub fn iter() -> (r: Vec<DbColumn>)
        ensures
            r@ == Self::all(),
    {
        let r = vec![DbColumn::GraphDagCborBlake2b256, DbColumn::GraphFull, DbColumn::Settings];
        assert(r@ =~= Self::all());
        r
    }

    /// The name of the column.
    pub open spec fn spec_name(self) -> Seq<char> {
        match self {
            DbColumn::GraphDagCborBlake2b256 => "GraphDagCborBlake2b256"@,
            DbColumn::GraphFull => "GraphFull"@,
            DbColumn::Settings => "Settings"@,
        }
    }

    /// The name of the column, as it stands in messages.
    pub fn name(self) -> (r: &'static str)
        ensures
            r@ == self.spec_name(),
    {
        match self {
            DbColumn::GraphDagCborBlake2b256 => "GraphDagCborBlake2b256",
            DbColumn::GraphFull => "GraphFull",
            DbColumn::Settings => "Settings",
        }
    }

    /// Whether the column holds blocks of the graph.
    pub open spec fn is_graph(self) -> bool {
        self != DbColumn::Settings
    }

    /// The configuration of the column. Both graph columns hold values that
    /// determine their keys. The settings column does not, or its entries
    /// could not be overwritten. Every column but the canonical one keeps an
    /// index of its keys.
    pub open spec fn options(self, compression: CompressionType) -> ColumnOptions {
        match self {
            DbColumn::GraphDagCborBlake2b256 => ColumnOptions {
                preimage: true,
                compression,
                ..ColumnOptions::plain()
            },
            DbColumn::GraphFull => ColumnOptions {
                preimage: true,
                btree_index: true,
                compression,
                ..ColumnOptions::plain()
            },
            DbColumn::Settings => ColumnOptions {
                preimage: false,
                btree_index: true,
                compression,
                ..ColumnOptions::plain()
            },
        }
    }

    /// The configuration of the column.
    pub fn column_options(self, compression: CompressionType) -> (r: ColumnOptions)
        ensures
            r == self.options(compression),
    {
        match self {
            DbColumn::GraphDagCborBlake2b256 => ColumnOptions {
                preimage: true,
                compression,
                ..Default::default()
            },
            DbColumn::GraphFull => ColumnOptions {
                preimage: true,
                btree_index: true,
                compression,
                ..Default::default()
            },
            DbColumn::Settings => ColumnOptions {
                preimage: false,
                btree_index: true,
                compression,
                ..Default::default()
            },
        }
    }

    /// The configurations of all columns, each at the place of its number.
    pub fn create_column_options(compression: CompressionType) -> (r: Vec<ColumnOptions>)
        ensures
            r@.len() == COLUMN_COUNT,
            forall|column: DbColumn| #[trigger]
                r@[column.spec_id() as int] == column.options(compression),
            r@ == Self::all().map_values(|column: DbColumn| column.options(compression)),
    {
        let columns = Self::iter();
        let mut r: Vec<ColumnOptions> = Vec::new();
        let mut i: usize = 0;
        while i < columns.len()
            invariant
                columns@ == Self::all(),
                i <= columns.len(),
                r@.len() == i,
                forall|j: int| 0 <= j < i ==> #[trigger] r@[j] == columns@[j].options(compression),
            decreases columns.len() - i,
        {
            r.push(columns[i].column_options(compression));
            i += 1;
        }
        assert(r@ =~= Self::all().map_values(|column: DbColumn| column.options(compression)));
        assert forall|column: DbColumn| #[trigger]
            r@[column.spec_id() as int] == column.options(compression) by {
            assert(columns@[column.spec_id() as int] == column);
        }
        r
    }
}

/// The column of the block that `cid` names: the canonical column where the
/// codec is DAG-CBOR and the hash function BLAKE2b-256, the indexed column
/// otherwise.
pub open spec fn column_of(cid: CidView) -> DbColumn {
    if cid.codec == DAG_CBOR && cid.hash.code == BLAKE2B_256 {
        DbColumn::GraphDagCborBlake2b256
    } else {
        DbColumn::GraphFull
    }
}

/// What the caller chooses of the engine's configuration.
#[derive(Clone, Copy, Debug, PartialEq, Eq, Structural)]
pub struct ParityDbConfig {
    /// Whether the engine collects statistics.
    pub enable_statistics: bool,
}

impl Default for ParityDbConfig {
    /// No statistics.
    fn default() -> (r: ParityDbConfig)
        ensures
            r.enable_statistics == false,
    {
        ParityDbConfig { enable_statistics: false }
    }
}

/// The options with which the engine is opened.
pub struct Options {
    /// Where the engine keeps its files.
    pub path: String,
    /// The configuration of each column, at the place of its number.
    pub columns: Vec<ColumnOptions>,
    /// Whether the write-ahead log is synced before a commit counts.
    pub sync_wal: bool,
    /// Whether data is synced before the logs are removed.
    pub sync_data: bool,
    /// Whether the engine collects statistics.
    pub stats: bool,
    /// A salt to use in place of the one the engine makes or has stored.
    pub salt: Option<[u8; 32]>,
    /// For a column's number, the size from which its values are compressed.
    pub compression_threshold: Vec<(u8, u32)>,
}

/// What [`Options`] are.
pub struct OptionsView {
    pub path: Seq<char>,
    pub columns: Seq<ColumnOptions>,
    pub sync_wal: bool,
    pub sync_data: bool,
    pub stats: bool,
    pub salt: Option<[u8; 32]>,
    pub compression_threshold: Seq<(u8, u32)>,
}

impl View for Options {
    type V = OptionsView;

    open spec fn view(&self) -> OptionsView {
        OptionsView {
            path: self.path@,
            columns: self.columns@,
            sync_wal: self.sync_wal,
            sync_data: self.sync_data,
            stats: self.stats,
            salt: self.salt,
            compression_threshold: self.compression_threshold@,
        }
    }
}

/// The size from which the values of the canonical column are compressed.
pub const COMPRESSION_THRESHOLD: u32 = 128;

/// The options of the store's engine at `path`: both syncs on, statistics as
/// `config` says, the salt left to the engine, every column configured as
/// its kind asks and compressed with LZ4, and the values of the canonical
/// column compressed from [`COMPRESSION_THRESHOLD`] bytes on.
pub open spec fn options_at(path: Seq<char>, config: ParityDbConfig) -> OptionsView {
    OptionsView {
        path,
        columns: DbColumn::all().map_values(
            |column: DbColumn| column.options(CompressionType::Lz4),
        ),
        sync_wal: true,
        sync_data: true,
        stats: config.enable_statistics,
        salt: None,
        compression_threshold: seq![
            (DbColumn::GraphDagCborBlake2b256.spec_id(), COMPRESSION_THRESHOLD),
        ],
    }
}

} // verus!
