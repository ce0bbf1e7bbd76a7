//! Raw event logs as they arrive from a node, in plain values.

use vstd::prelude::*;

verus! {

/// An unsigned 256-bit integer as four 64-bit limbs, least significant first.
#[derive(Clone, Copy, Debug)]
pub struct U256(pub [u64; 4]);

/// A raw event log. The four identifying fields are absent on a log of a
/// pending transaction.
#[derive(Clone, Debug)]
pub struct RawLog {
    /// Number of the containing block.
    pub block_number: Option<u64>,
    /// Hash of the emitting transaction.
    pub transaction_hash: Option<[u8; 32]>,
    /// Position of the transaction in its block.
    pub transaction_index: Option<u64>,
    /// Position of the log in its block.
    pub log_index: Option<U256>,
    /// Indexed event arguments. Only the first four are ever stored.
    pub topics: Vec<[u8; 32]>,
    /// Address of the emitting contract.
    pub address: [u8; 20],
    /// Unindexed payload.
    pub data: Vec<u8>,
}

/// One row of the log table: what a stored log contributes to each column.
pub struct LogRow {
    pub block_number: u32,
    pub transaction_index: u32,
    pub log_index: u32,
    pub transaction_hash: Seq<u8>,
    pub address: Seq<u8>,
    pub topic0: Option<Seq<u8>>,
    pub topic1: Option<Seq<u8>>,
    pub topic2: Option<Seq<u8>>,
    pub topic3: Option<Seq<u8>>,
    pub data: Seq<u8>,
}

/// Number of topic slots of the log table.
pub const TOPIC_SLOTS: usize = 4;

/// The low 32 bits of a number.
pub open spec fn low_32_bits(value: nat) -> u32 {
    (value % 0x1_0000_0000) as u32
}

/// The view of an optional byte string.
pub open spec fn optional_bytes(bytes: Option<Vec<u8>>) -> Option<Seq<u8>> {
    match bytes {
        Some(b) => Some(b@),
        None => None,
    }
}

/// Narrows a 64-bit number to its low 32 bits.
pub fn narrow_u64(value: u64) -> (low: u32)
    ensures
        low == low_32_bits(value as nat),
{
    assert(value & 0xffff_ffff == value % 0x1_0000_0000) by (bit_vector);
    (value & 0xffff_ffff) as u32
}

/// Copies a fixed-size byte string into a vector.
pub fn bytes_to_vec<const N: usize>(bytes: &[u8; N]) -> (copy: Vec<u8>)
    ensures
        copy@ == bytes@,
{
    let mut copy: Vec<u8> = Vec::with_capacity(N);
    let mut i: usize = 0;
    while i < N
        invariant
            i <= N,
            bytes@.len() == N,
            copy@ == bytes@.take(i as int),
        decreases N - i,
    {
        copy.push(bytes[i]);
        assert(bytes@.take(i + 1) == bytes@.take(i as int).push(bytes@[i as int]));
        i += 1;
    }
    copy
}

/// Copies a byte vector.
pub fn copy_bytes(bytes: &Vec<u8>) -> (copy: Vec<u8>)
    ensures
        copy@ == bytes@,
{
    let mut copy: Vec<u8> = Vec::with_capacity(bytes.len());
    let mut i: usize = 0;
    while i < bytes.len()
        invariant
            i <= bytes.len(),
            copy@ == bytes@.take(i as int),
        decreases bytes.len() - i,
    {
        copy.push(bytes[i]);
        assert(bytes@.take(i + 1) == bytes@.take(i as int).push(bytes@[i as int]));
        i += 1;
    }
    copy
}

impl U256 {
    /// The number that the limbs stand for.
    pub open spec fn value(&self) -> nat {
        (self.0[0] as nat) + (self.0[1] as nat) * 0x1_0000_0000_0000_0000
            + (self.0[2] as nat) * 0x1_0000_0000_0000_0000_0000_0000_0000_0000
            + (self.0[3] as nat)
            * 0x1_0000_0000_0000_0000_0000_0000_0000_0000_0000_0000_0000_0000
    }

    /// Narrows the number to its low 32 bits.
    pub fn low_u32(&self) -> (low: u32)
        ensures
            low == low_32_bits(self.value()),
    {
        let low: u32 = narrow_u64(self.0[0]);
        proof {
            let a = self.0[0] as nat;
            let b = self.0[1] as nat;
            let c = self.0[2] as nat;
            let d = self.0[3] as nat;
            let high = b * 0x1_0000_0000 + c * 0x1_0000_0000_0000_0000_0000_0000
                + d * 0x1_0000_0000_0000_0000_0000_0000_0000_0000_0000_0000;
            assert(self.value() == a + high * 0x1_0000_0000) by (nonlinear_arith)
                requires
                    self.value() == a + b * 0x1_0000_0000_0000_0000 + c
                        * 0x1_0000_0000_0000_0000_0000_0000_0000_0000 + d
                        * 0x1_0000_0000_0000_0000_0000_0000_0000_0000_0000_0000_0000_0000,
                    high == b * 0x1_0000_0000 + c * 0x1_0000_0000_0000_0000_0000_0000 + d
                        * 0x1_0000_0000_0000_0000_0000_0000_0000_0000_0000_0000,
            ;
            assert((a + high * 0x1_0000_0000) % 0x1_0000_0000 == a % 0x1_0000_0000) by (nonlinear_arith);
        }
        low
    }
}

impl RawLog {
    /// Whether the log carries all four identifying fields. Only such a log is stored.
    pub open spec fn is_identified(&self) -> bool {
        &&& self.block_number is Some
        &&& self.transaction_hash is Some
        &&& self.transaction_index is Some
        &&& self.log_index is Some
    }

    /// The value of a topic slot: the topic at that position, if the log has one.
    pub open spec fn topic_slot(&self, slot: int) -> Option<Seq<u8>> {
        if 0 <= slot < self.topics@.len() {
            Some(self.topics@[slot]@)
        } else {
            None
        }
    }

    /// The row that the log contributes to the table: none unless it is identified.
    pub open spec fn row(&self) -> Option<LogRow> {
        if self.is_identified() {
            Some(
                LogRow {
                    block_number: low_32_bits(self.block_number->0 as nat),
                    transaction_index: low_32_bits(self.transaction_index->0 as nat),
                    log_index: low_32_bits(self.log_index->0.value()),
                    transaction_hash: self.transaction_hash->0@,
                    address: self.address@,
                    topic0: self.topic_slot(0),
                    topic1: self.topic_slot(1),
                    topic2: self.topic_slot(2),
                    topic3: self.topic_slot(3),
                    data: self.data@,
                },
            )
        } else {
            None
        }
    }

    /// Whether the log carries all four identifying fields.
    pub fn has_identity(&self) -> (identified: bool)
        ensures
            identified == self.is_identified(),
    {
        self.block_number.is_some() && self.transaction_hash.is_some()
            && self.transaction_index.is_some() && self.log_index.is_some()
    }

    /// Reads a topic slot: the topic at that position, or nothing where the log
    /// has fewer topics.
    pub fn topic(&self, slot: usize) -> (topic: Option<Vec<u8>>)
        requires
            slot < TOPIC_SLOTS,
        ensures
            optional_bytes(topic) == self.topic_slot(slot as int),
    {
        if slot < self.topics.len() {
            Some(bytes_to_vec(&self.topics[slot]))
        } else {
            None
        }
    }
}

} // verus!
