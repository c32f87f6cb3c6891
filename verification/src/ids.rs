//! Deterministic 256-bit identifiers for orders, fills and escrow records,
//! derived by hashing the defining parameters of each.

use vstd::prelude::*;

use crate::bytes::{append_bytes, append_le_bytes, le_bytes};
use crate::hash::{compute_sha256, sha256_of};
use crate::types::Address;

verus! {

/// The bytes hashed to derive an order identifier: maker, net amount,
/// hashlock, timelock, swap id, and the post-increment order counter.
pub open spec fn order_id_material(
    maker: Seq<u8>,
    amount: u128,
    hashlock: Seq<u8>,
    timelock: u32,
    swap_id: Seq<u8>,
    counter: u64,
) -> Seq<u8> {
    maker + le_bytes(amount as int, 16) + hashlock + le_bytes(timelock as int, 4) + swap_id
        + le_bytes(counter as int, 8)
}

/// The order identifier those parameters derive.
pub open spec fn spec_order_id(
    maker: Seq<u8>,
    amount: u128,
    hashlock: Seq<u8>,
    timelock: u32,
    swap_id: Seq<u8>,
    counter: u64,
) -> Seq<u8> {
    sha256_of(order_id_material(maker, amount, hashlock, timelock, swap_id, counter))
}

/// The bytes hashed to derive a fill identifier: owning order, taker, fill
/// amount, and the timestamp and block height of the call.
pub open spec fn fill_id_material(
    order_id: Seq<u8>,
    taker: Seq<u8>,
    fill_amount: u128,
    timestamp: u64,
    height: u32,
) -> Seq<u8> {
    order_id + taker + le_bytes(fill_amount as int, 16) + le_bytes(timestamp as int, 8) + le_bytes(
        height as int,
        4,
    )
}

/// The fill identifier those parameters derive.
pub open spec fn spec_fill_id(
    order_id: Seq<u8>,
    taker: Seq<u8>,
    fill_amount: u128,
    timestamp: u64,
    height: u32,
) -> Seq<u8> {
    sha256_of(fill_id_material(order_id, taker, fill_amount, timestamp, height))
}

/// The bytes hashed to derive an escrow-record identifier: the order, the
/// fill, the timestamp, and the post-increment fill counter.
pub open spec fn contract_id_material(
    order_id: Seq<u8>,
    fill_id: Seq<u8>,
    timestamp: u64,
    counter: u64,
) -> Seq<u8> {
    order_id + fill_id + le_bytes(timestamp as int, 8) + le_bytes(counter as int, 8)
}

/// The escrow-record identifier those parameters derive.
pub open spec fn spec_contract_id(
    order_id: Seq<u8>,
    fill_id: Seq<u8>,
    timestamp: u64,
    counter: u64,
) -> Seq<u8> {
    sha256_of(contract_id_material(order_id, fill_id, timestamp, counter))
}

/// Derive an order identifier; `counter` is the already-incremented order
/// counter that keeps identifiers unique across identical parameters.
pub fn generate_order_id(
    maker: &Address,
    amount: u128,
    hashlock: &[u8; 32],
    timelock: u32,
    swap_id: &[u8; 32],
    counter: u64,
) -> (r: [u8; 32])
    ensures
        r@ == spec_order_id(maker.bytes(), amount, hashlock@, timelock, swap_id@, counter),
{
    let mut data: Vec<u8> = Vec::new();
    append_bytes(&mut data, maker.0.as_slice());
    append_le_bytes(&mut data, amount, 16);
    append_bytes(&mut data, hashlock.as_slice());
    append_le_bytes(&mut data, timelock as u128, 4);
    append_bytes(&mut data, swap_id.as_slice());
    append_le_bytes(&mut data, counter as u128, 8);
    proof {
        assert(data@ =~= order_id_material(
            maker.bytes(),
            amount,
            hashlock@,
            timelock,
            swap_id@,
            counter,
        ));
    }
    compute_sha256(data.as_slice())
}

/// Derive a fill identifier from the owning order, the taker, the amount and
/// the moment of the call.
pub fn generate_fill_id(
    order_id: &[u8; 32],
    taker: &Address,
    fill_amount: u128,
    timestamp: u64,
    height: u32,
) -> (r: [u8; 32])
    ensures
        r@ == spec_fill_id(order_id@, taker.bytes(), fill_amount, timestamp, height),
{
    let mut data: Vec<u8> = Vec::new();
    append_bytes(&mut data, order_id.as_slice());
    append_bytes(&mut data, taker.0.as_slice());
    append_le_bytes(&mut data, fill_amount, 16);
    append_le_bytes(&mut data, timestamp as u128, 8);
    append_le_bytes(&mut data, height as u128, 4);
    proof {
        assert(data@ =~= fill_id_material(
            order_id@,
            taker.bytes(),
            fill_amount,
            timestamp,
            height,
        ));
    }
    compute_sha256(data.as_slice())
}

/// Derive an escrow-record identifier correlating a fill with its external
/// escrow; `counter` is the already-incremented fill counter.
pub fn generate_contract_id(
    order_id: &[u8; 32],
    fill_id: &[u8; 32],
    timestamp: u64,
    counter: u64,
) -> (r: [u8; 32])
    ensures
        r@ == spec_contract_id(order_id@, fill_id@, timestamp, counter),
{
    let mut data: Vec<u8> = Vec::new();
    append_bytes(&mut data, order_id.as_slice());
    append_bytes(&mut data, fill_id.as_slice());
    append_le_bytes(&mut data, timestamp as u128, 8);
    append_le_bytes(&mut data, counter as u128, 8);
    proof {
        assert(data@ =~= contract_id_material(order_id@, fill_id@, timestamp, counter));
    }
    compute_sha256(data.as_slice())
}

} // verus!
