use forest_db::column::{
    ColumnOptions, CompressionType, DbColumn, ParityDbConfig, COLUMN_COUNT, COMPRESSION_THRESHOLD,
};
use forest_db::content::{Cid, Multihash, CBOR, DAG_CBOR, IPLD_RAW, SHA2_256};
use forest_db::store::ParityDb;
use multihash_codetable::{Code, MultihashDigest};

/// The SHA2-256 multihash of `data`.
fn sha2_256(data: &[u8]) -> Multihash {
    let hash = Code::Sha2_256.digest(data);
    Multihash::wrap(hash.code(), hash.digest()).unwrap()
}

/// SHA2-256 of 32 zero bytes.
const SHA2_256_OF_ZEROS: [u8; 32] = [
    0x66, 0x68, 0x7a, 0xad, 0xf8, 0x62, 0xbd, 0x77, 0x6c, 0x8f, 0xc1, 0x8b, 0x8e, 0x9f, 0x8e, 0x20,
    0x08, 0x97, 0x14, 0x85, 0x6e, 0xe2, 0x33, 0xb3, 0x90, 0x2a, 0x59, 0x1d, 0x0d, 0x5f, 0x29, 0x25,
];

#[test]
fn choose_column_test() {
    let data = [0u8; 32];
    let cases = [
        (
            Cid::new_v1(DAG_CBOR, Multihash::blake2b_256(&data)),
            DbColumn::GraphDagCborBlake2b256,
        ),
        (
            Cid::new_v1(CBOR, Multihash::blake2b_256(&data)),
            DbColumn::GraphFull,
        ),
        (
            Cid::new_v1(DAG_CBOR, sha2_256(&data)),
            DbColumn::GraphFull,
        ),
    ];

    for (cid, expected) in cases {
        let actual = ParityDb::choose_column(&cid);
        assert_eq!(expected, actual);
    }
}

#[test]
fn sha2_256_known_digest() {
    let hash = sha2_256(&[0u8; 32]);
    assert_eq!(hash.code(), SHA2_256);
    assert_eq!(hash.digest(), SHA2_256_OF_ZEROS);
}

#[test]
fn choose_column_never_picks_settings() {
    let digests: [&[u8]; 3] = [&[], &[1, 2, 3], &SHA2_256_OF_ZEROS];
    for codec in [0u64, CBOR, IPLD_RAW, DAG_CBOR, u64::MAX] {
        for code in [0u64, SHA2_256, 0xb220, u64::MAX] {
            for digest in digests {
                let cid = Cid::new_v1(codec, Multihash::wrap(code, digest).unwrap());
                let column = ParityDb::choose_column(&cid);
                let canonical = codec == DAG_CBOR && code == 0xb220;
                assert_eq!(column == DbColumn::GraphDagCborBlake2b256, canonical);
                assert_eq!(column == DbColumn::GraphFull, !canonical);
                assert_ne!(column, DbColumn::Settings);
            }
        }
    }
}

#[test]
fn version_0_identifier_goes_to_the_indexed_column() {
    let cid = Cid::new_v0(Multihash::wrap(SHA2_256, &SHA2_256_OF_ZEROS).unwrap()).unwrap();
    assert_eq!(ParityDb::choose_column(&cid), DbColumn::GraphFull);
}

#[test]
fn column_numbers_and_names() {
    assert_eq!(COLUMN_COUNT, 3);
    assert_eq!(DbColumn::GraphDagCborBlake2b256.id(), 0);
    assert_eq!(DbColumn::GraphFull.id(), 1);
    assert_eq!(DbColumn::Settings.id(), 2);
    assert_eq!(
        DbColumn::iter(),
        vec![
            DbColumn::GraphDagCborBlake2b256,
            DbColumn::GraphFull,
            DbColumn::Settings
        ]
    );
    for column in DbColumn::iter() {
        assert_eq!(DbColumn::from_repr(column.id()), Some(column));
    }
    assert_eq!(DbColumn::from_repr(3), None);
    assert_eq!(DbColumn::from_repr(255), None);
    assert_eq!(
        DbColumn::GraphDagCborBlake2b256.name(),
        "GraphDagCborBlake2b256"
    );
    assert_eq!(DbColumn::GraphFull.name(), "GraphFull");
    assert_eq!(DbColumn::Settings.name(), "Settings");
}

#[test]
fn default_column_options_are_plain() {
    assert_eq!(
        ColumnOptions::default(),
        ColumnOptions {
            preimage: false,
            uniform: false,
            ref_counted: false,
            compression: CompressionType::NoCompression,
            btree_index: false,
        }
    );
}

#[test]
fn create_column_options_per_column() {
    for compression in [
        CompressionType::NoCompression,
        CompressionType::Lz4,
        CompressionType::Snappy,
    ] {
        let options = DbColumn::create_column_options(compression);
        assert_eq!(
            options,
            vec![
                ColumnOptions {
                    preimage: true,
                    uniform: false,
                    ref_counted: false,
                    compression,
                    btree_index: false,
                },
                ColumnOptions {
                    preimage: true,
                    uniform: false,
                    ref_counted: false,
                    compression,
                    btree_index: true,
                },
                ColumnOptions {
                    preimage: false,
                    uniform: false,
                    ref_counted: false,
                    compression,
                    btree_index: true,
                },
            ]
        );
        for column in DbColumn::iter() {
            assert_eq!(
                options[column.id() as usize],
                column.column_options(compression)
            );
        }
    }
}

#[test]
fn to_options_fixes_everything_but_path_and_statistics() {
    for enable_statistics in [false, true] {
        let config = ParityDbConfig { enable_statistics };
        let options = ParityDb::to_options("some/where".to_string(), &config);
        assert_eq!(options.path, "some/where");
        assert!(options.sync_wal);
        assert!(options.sync_data);
        assert_eq!(options.stats, enable_statistics);
        assert_eq!(options.salt, None);
        assert_eq!(
            options.columns,
            DbColumn::create_column_options(CompressionType::Lz4)
        );
        assert_eq!(options.compression_threshold, vec![(0u8, 128u32)]);
        assert_eq!(COMPRESSION_THRESHOLD, 128);
    }
}

#[test]
fn open_and_wrap_remember_statistics() {
    assert!(!ParityDbConfig::default().enable_statistics);
    for enable_statistics in [false, true] {
        let config = ParityDbConfig { enable_statistics };
        let (store, options) = ParityDb::open("db".to_string(), &config);
        assert_eq!(store.statistics_enabled(), enable_statistics);
        assert_eq!(options.stats, enable_statistics);
        assert_eq!(options.path, "db");
        assert_eq!(
            options.columns,
            DbColumn::create_column_options(CompressionType::Lz4)
        );
        assert_eq!(
            ParityDb::wrap(enable_statistics).statistics_enabled(),
            enable_statistics
        );
    }
}
