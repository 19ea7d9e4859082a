use forest_db::beacon::{BeaconEntry, MockBeacon};

/// BLAKE2b-256 of the eight bytes 00 00 00 00 00 00 00 01.
const ENTRY_OF_ROUND_1: [u8; 32] = [
    0x12, 0xdd, 0x0a, 0x6a, 0x7d, 0x0e, 0x22, 0x2a, 0x97, 0x92, 0x6d, 0xa0, 0x3a, 0xdb, 0x5a, 0x77,
    0x68, 0xd3, 0x1c, 0xc7, 0xc5, 0xc2, 0xbd, 0x68, 0x28, 0xe1, 0x4a, 0x7d, 0x25, 0xfa, 0x3a, 0x60,
];

/// BLAKE2b-256 of the eight bytes 01 02 03 04 05 06 07 08.
const ENTRY_OF_ROUND_0X0102030405060708: [u8; 32] = [
    0xea, 0x2d, 0x4b, 0xc2, 0x1f, 0x53, 0x19, 0xfc, 0x5c, 0x97, 0xb2, 0x26, 0x6e, 0x50, 0x23, 0xb9,
    0x43, 0x96, 0xcd, 0x2d, 0x1a, 0xf9, 0x01, 0xba, 0xcd, 0x2b, 0xe5, 0x96, 0x2a, 0x70, 0xb4, 0xe5,
];

#[test]
fn beacon_entry_keeps_round_and_data() {
    let entry = BeaconEntry::new(42, vec![1, 2, 3]);
    assert_eq!(entry.round(), 42);
    assert_eq!(entry.data(), [1, 2, 3]);
    assert_eq!(entry.clone(), entry);
    assert_ne!(entry, BeaconEntry::new(42, vec![1, 2]));
    assert_ne!(entry, BeaconEntry::new(43, vec![1, 2, 3]));

    let none = BeaconEntry::default();
    assert_eq!(none.round(), 0);
    assert_eq!(none.data(), &[] as &[u8]);
}

#[test]
fn mock_entry_hashes_the_round_most_significant_byte_first() {
    let first = MockBeacon::entry_for_index(1);
    assert_eq!(first.round(), 1);
    assert_eq!(first.data(), ENTRY_OF_ROUND_1);

    let other = MockBeacon::entry_for_index(0x0102_0304_0506_0708);
    assert_eq!(other.round(), 0x0102_0304_0506_0708);
    assert_eq!(other.data(), ENTRY_OF_ROUND_0X0102030405060708);

    let beacon = MockBeacon::default();
    assert_eq!(beacon.entry(1), first);
}

#[test]
fn mock_beacon_verifies_the_entry_of_the_previous_round() {
    let beacon = MockBeacon::default();
    let prev = BeaconEntry::new(1, vec![]);
    let curr = BeaconEntry::new(2, ENTRY_OF_ROUND_1.to_vec());
    assert!(beacon.verify_entry(&curr, &prev));
    assert!(beacon.verify_entry(&beacon.entry(1), &prev));

    let wrong = BeaconEntry::new(2, beacon.entry(2).data().to_vec());
    assert!(!beacon.verify_entry(&wrong, &prev));
    assert!(!beacon.verify_entry(&BeaconEntry::new(2, vec![]), &prev));
}

#[test]
fn max_beacon_round_is_the_epoch() {
    let beacon = MockBeacon::default();
    assert_eq!(beacon.max_beacon_round_for_epoch(0, 0), 0);
    assert_eq!(beacon.max_beacon_round_for_epoch(16, 12345), 12345);
    assert_eq!(
        beacon.max_beacon_round_for_epoch(1, i64::MAX),
        i64::MAX as u64
    );
    assert_eq!(beacon.max_beacon_round_for_epoch(1, -1), u64::MAX);
    assert_eq!(beacon.max_beacon_round_for_epoch(1, i64::MIN), 1u64 << 63);
}
