//! Records of the chain data that the import reads.

use vstd::prelude::*;

verus! {

/// A transaction as the chain data holds it: hashes, addresses and the
/// fields that later forks added (absent before them).
#[derive(Debug)]
pub struct Transaction {
    pub parent_hash: [u8; 32],
    pub uncle_hash: [u8; 32],
    pub coinbase: [u8; 20],
    pub root: [u8; 32],
    pub tx_hash: [u8; 32],
    pub receipt_hash: [u8; 32],
    pub bloom: [u8; 256],
    pub difficulty: [u8; 32],
    pub number: [u8; 32],
    pub gas_limit: u64,
    pub gas_used: u64,
    pub time: u64,
    pub extra: Vec<u8>,
    pub mix_digest: [u8; 32],
    pub nonce: [u8; 8],
    pub base_fee: Option<[u8; 32]>,
    pub withdrawals_hash: Option<[u8; 32]>,
    pub blob_gas_used: Option<u64>,
    pub excess_blob_gas: Option<u64>,
    pub parent_beacon_root: Option<[u8; 32]>,
    pub requests_hash: Option<[u8; 32]>,
}

} // verus!
