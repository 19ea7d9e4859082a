//! Entries of a randomness beacon, and a beacon whose entries anyone can
//! compute, for use where no real beacon is at hand.

use crate::content::{bytes_equal, BLAKE2B_256_LEN};
use byteorder::ByteOrder;
use vstd::prelude::*;

verus! {

/// An entry of a randomness beacon: a round and the data of that round.
#[derive(Debug)]
pub struct BeaconEntry {
    round: u64,
    data: Vec<u8>,
}

/// What a [`BeaconEntry`] is.
pub struct BeaconEntryView {
    pub round: u64,
    pub data: Seq<u8>,
}

impl View for BeaconEntry {
    type V = BeaconEntryView;

    closed spec fn view(&self) -> BeaconEntryView {
        BeaconEntryView { round: self.round, data: self.data@ }
    }
}

impl BeaconEntry {
    /// The entry of `round` with `data`.
    pub fn new(round: u64, data: Vec<u8>) -> (r: BeaconEntry)
        ensures
            r@ == (BeaconEntryView { round, data: data@ }),
    {
        BeaconEntry { round, data }
    }

    /// The round of the entry.
    pub fn round(&self) -> (r: u64)
        ensures
            r == self@.round,
    {
        self.round
    }

    /// The data of the entry.
    pub fn data(&self) -> (r: &[u8])
        ensures
            r@ == self@.data,
    {
        self.data.as_slice()
    }
}

impl Clone for BeaconEntry {
    fn clone(&self) -> (r: Self)
        ensures
            r@ == self@,
    {
        BeaconEntry { round: self.round, data: self.data.clone() }
    }
}

impl PartialEq for BeaconEntry {
    fn eq(&self, other: &Self) -> (r: bool) {
        self.round == other.round && bytes_equal(self.data.as_slice(), other.data.as_slice())
    }
}

impl vstd::std_specs::cmp::PartialEqSpecImpl for BeaconEntry {
    open spec fn obeys_eq_spec() -> bool {
        true
    }

    open spec fn eq_spec(&self, other: &Self) -> bool {
        self@ == other@
    }
}

impl Eq for BeaconEntry {

}

impl Default for BeaconEntry {
    /// Round 0 with no data.
    fn default() -> (r: BeaconEntry)
        ensures
            r@ == (BeaconEntryView { round: 0, data: Seq::empty() }),
    {
        BeaconEntry { round: 0, data: Vec::new() }
    }
}

/// The byte of `n` that stands at place `i` when the most significant byte
/// comes first.
pub open spec fn be_byte(n: u64, i: int) -> u8 {
    ((n as int / pow256(7 - i)) % 256) as u8
}

/// 256 to the power of `e`.
pub open spec fn pow256(e: int) -> int
    decreases e,
{
    if e <= 0 {
        1
    } else {
        256 * pow256(e - 1)
    }
}

/// The eight bytes of `n`, the most significant first.
pub open spec fn be_bytes(n: u64) -> Seq<u8> {
    Seq::new(8, |i: int| be_byte(n, i))
}

/// The BLAKE2b digest of `data` with `length` output bytes, as
/// `blake2b_simd::Params::hash` computes it.
pub uninterp spec fn blake2b(length: usize, data: Seq<u8>) -> Seq<u8>;

/// Calls `blake2b_simd::Params::new().hash_length(length).hash(data)` and
/// copies the digest out. The contract names the digest and states its
/// length, which is the `length` asked for.
#[verifier::external_body]
fn blake2b_digest(length: usize, data: &[u8]) -> (digest: Vec<u8>)
    requires
        1 <= length <= 64,
    ensures
        digest@ == blake2b(length, data@),
        digest@.len() == length,
{
    blake2b_simd::Params::new().hash_length(length).hash(data).as_bytes().to_vec()
}

/// Calls `byteorder::BigEndian::write_u64` on a buffer of eight bytes and
/// copies the buffer out. The bytes are those of `n`, the most significant
/// first.
#[verifier::external_body]
fn write_u64_be(n: u64) -> (bytes: Vec<u8>)
    ensures
        bytes@ == be_bytes(n),
{
    let mut buf = [0u8; 8];
    byteorder::BigEndian::write_u64(&mut buf, n);
    buf.to_vec()
}

/// What the mock beacon gives for a round: the BLAKE2b-256 digest of the
/// round's number in eight bytes, the most significant first.
pub open spec fn mock_entry(index: u64) -> BeaconEntryView {
    BeaconEntryView { round: index, data: blake2b(BLAKE2B_256_LEN, be_bytes(index)) }
}

/// The number of an epoch as a round: the same number where it is not
/// negative, and 2^64 more where it is.
pub open spec fn epoch_as_round(fil_epoch: i64) -> u64 {
    if fil_epoch >= 0 {
        fil_epoch as u64
    } else {
        (fil_epoch + 0x1_0000_0000_0000_0000) as u64
    }
}

/// A beacon that needs no network: the entry of a round is computed from
/// the round's number alone.
#[derive(Debug)]
pub struct MockBeacon {}

impl Default for MockBeacon {
    fn default() -> (r: MockBeacon) {
        MockBeacon {  }
    }
}

impl MockBeacon {
    /// The entry of the round `index`.
    pub fn entry_for_index(index: u64) -> (r: BeaconEntry)
        ensures
            r@ == mock_entry(index),
    {
        let buf = write_u64_be(index);
        let rval = blake2b_digest(BLAKE2B_256_LEN, buf.as_slice());
        BeaconEntry::new(index, rval)
    }

    /// Whether `curr` follows `prev`: it does where its data is that of the
    /// entry that this beacon gives for the round of `prev`.
    pub fn verify_entry(&self, curr: &BeaconEntry, prev: &BeaconEntry) -> (r: bool)
        ensures
            r == (curr@.data == mock_entry(prev@.round).data),
    {
        let oe = Self::entry_for_index(prev.round());
        bytes_equal(oe.data(), curr.data())
    }

    /// The entry of `round`.
    pub fn entry(&self, round: u64) -> (r: BeaconEntry)
        ensures
            r@ == mock_entry(round),
    {
        Self::entry_for_index(round)
    }

    /// The last round of the beacon at the epoch `fil_epoch`: the number of
    /// the epoch, whatever the version of the network.
    pub fn max_beacon_round_for_epoch(&self, _network_version: u32, fil_epoch: i64) -> (r: u64)
        ensures
            r == epoch_as_round(fil_epoch),
    {
        assert(fil_epoch >= 0 ==> fil_epoch as u64 == fil_epoch) by (bit_vector);
        assert(fil_epoch < 0 ==> fil_epoch as u64 == fil_epoch + 0x1_0000_0000_0000_0000)
            by (bit_vector);
        fil_epoch as u64
    }
}

} // verus!
