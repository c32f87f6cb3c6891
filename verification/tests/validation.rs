// Parameter validation, fee accounting, fill-size policy, admin operations,
// the address registry, and the hash function itself.

use polkadotrelayer::engine::PolkadotPartialFills;
use polkadotrelayer::hash::compute_sha256;
use polkadotrelayer::types::{Address, CrossChainAddress, Error};

fn addr(tag: u8) -> Address {
    Address([tag; 20])
}

const RATE_1_TO_1: u128 = 1_000_000_000_000;

fn try_create(
    engine: &mut PolkadotPartialFills,
    now: u32,
    transferred: u128,
    total: u128,
    min_fill: u128,
    timelock: u32,
    source_chain: u32,
    dest_chain: u32,
    max_fills: u32,
) -> Result<[u8; 32], Error> {
    engine
        .create_partial_fill_order(
            addr(1),
            now,
            transferred,
            total,
            min_fill,
            [0x01; 32],
            timelock,
            [0x02; 32],
            source_chain,
            dest_chain,
            RATE_1_TO_1,
            true,
            max_fills,
            None,
            None,
        )
        .map(|ev| ev.order_id)
}

#[test]
fn test_creation_rejections() {
    let mut engine = PolkadotPartialFills::new(addr(9));

    // timelock <= now
    assert_eq!(
        try_create(&mut engine, 100, 1000, 1000, 100, 100, 1, 2, 5).unwrap_err(),
        Error::InvalidTimelock
    );
    // timelock - now below the minimum bound (100)
    assert_eq!(
        try_create(&mut engine, 100, 1000, 1000, 100, 199, 1, 2, 5).unwrap_err(),
        Error::TimelockTooShort
    );
    // timelock - now above the maximum bound (14400)
    assert_eq!(
        try_create(&mut engine, 100, 1000, 1000, 100, 14501, 1, 2, 5).unwrap_err(),
        Error::TimelockTooLong
    );
    // a swap must be cross-domain
    assert_eq!(
        try_create(&mut engine, 100, 1000, 1000, 100, 500, 2, 2, 5).unwrap_err(),
        Error::InvalidChainId
    );
    // min fill amount of zero
    assert_eq!(
        try_create(&mut engine, 100, 1000, 1000, 0, 500, 1, 2, 5).unwrap_err(),
        Error::InvalidFillAmount
    );
    // min fill amount above the total
    assert_eq!(
        try_create(&mut engine, 100, 1000, 1000, 1001, 500, 1, 2, 5).unwrap_err(),
        Error::InvalidFillAmount
    );
    // zero max fills
    assert_eq!(
        try_create(&mut engine, 100, 1000, 1000, 100, 500, 1, 2, 0).unwrap_err(),
        Error::InvalidFillAmount
    );
    // no deposit attached
    assert_eq!(
        try_create(&mut engine, 100, 0, 1000, 100, 500, 1, 2, 5).unwrap_err(),
        Error::InsufficientFunds
    );
    // deposit below the requested total
    assert_eq!(
        try_create(&mut engine, 100, 999, 1000, 100, 500, 1, 2, 5).unwrap_err(),
        Error::InsufficientFunds
    );

    // No order was stored and no fee accumulated by any rejection.
    assert_eq!(engine.orders.len(), 0);
    assert_eq!(engine.get_protocol_fees(), 0);
    assert_eq!(engine.order_counter, 0);
}

#[test]
fn test_excess_deposit_accepted() {
    let mut engine = PolkadotPartialFills::new(addr(9));
    // A deposit above the requested total is accepted; the fee is still
    // computed from the requested total, not the deposit.
    let id = try_create(&mut engine, 100, 1500, 1000, 100, 500, 1, 2, 5).unwrap();
    let order = engine.get_order(id).unwrap();
    assert_eq!(order.fee, 3);
    assert_eq!(order.total_amount, 997);
}

#[test]
fn test_fee_formula_exact() {
    let admin = addr(9);
    let mut engine = PolkadotPartialFills::new(admin);
    assert_eq!(engine.get_protocol_fee_bps(), 30);

    // gross 1000 at 30 bps: fee 3, net 997
    let id = try_create(&mut engine, 100, 1000, 1000, 100, 500, 1, 2, 5).unwrap();
    let order = engine.get_order(id).unwrap();
    assert_eq!(order.fee, 3);
    assert_eq!(order.total_amount, 997);
    assert_eq!(order.total_amount + order.fee, 1000);
    assert_eq!(engine.get_protocol_fees(), 3);

    // gross 12345 at 250 bps: fee floor(12345 * 250 / 10000) = 308
    engine.update_protocol_fee(admin, 250).unwrap();
    let id2 = try_create(&mut engine, 100, 12345, 12345, 100, 500, 1, 2, 5).unwrap();
    let order2 = engine.get_order(id2).unwrap();
    assert_eq!(order2.fee, 308);
    assert_eq!(order2.total_amount, 12037);
    assert_eq!(engine.get_protocol_fees(), 3 + 308);

    // a zero rate keeps the whole deposit in escrow
    engine.update_protocol_fee(admin, 0).unwrap();
    let id3 = try_create(&mut engine, 100, 1000, 1000, 100, 500, 1, 2, 5).unwrap();
    let order3 = engine.get_order(id3).unwrap();
    assert_eq!(order3.fee, 0);
    assert_eq!(order3.total_amount, 1000);
}

#[test]
fn test_fill_rejections() {
    let alice = addr(1);
    let bob = addr(2);
    let mut engine = PolkadotPartialFills::new(addr(9));
    let id = try_create(&mut engine, 100, 1000, 1000, 100, 500, 1, 2, 1).unwrap();

    // unknown order
    assert_eq!(
        engine.fill_order(bob, 100, 1_000, [0x55; 32], 100, alice).unwrap_err(),
        Error::OrderNotFound
    );
    // zero amount
    assert_eq!(
        engine.fill_order(bob, 100, 1_000, id, 0, alice).unwrap_err(),
        Error::InvalidFillAmount
    );
    // below the minimum while at least the minimum remains
    assert_eq!(
        engine.fill_order(bob, 100, 1_000, id, 99, alice).unwrap_err(),
        Error::FillAmountTooSmall
    );
    // at or past the timelock
    assert_eq!(
        engine.fill_order(bob, 500, 1_000, id, 100, alice).unwrap_err(),
        Error::TimelockExpired
    );

    // max_fills is 1: the first fill exhausts the fill slots
    engine.fill_order(bob, 100, 1_000, id, 100, alice).unwrap();
    assert_eq!(
        engine.fill_order(bob, 100, 2_000, id, 100, alice).unwrap_err(),
        Error::MaxFillsReached
    );
}

#[test]
fn test_fill_on_completed_order_rejected() {
    let alice = addr(1);
    let bob = addr(2);
    let mut engine = PolkadotPartialFills::new(addr(9));
    let id = try_create(&mut engine, 100, 1000, 1000, 100, 500, 1, 2, 5).unwrap();

    engine.fill_order(bob, 100, 1_000, id, 997, alice).unwrap();
    assert!(engine.is_order_complete(id));
    assert_eq!(
        engine.fill_order(bob, 100, 2_000, id, 100, alice).unwrap_err(),
        Error::OrderCompleted
    );
}

#[test]
fn test_fill_clamped_to_remaining() {
    let alice = addr(1);
    let bob = addr(2);
    let mut engine = PolkadotPartialFills::new(addr(9));
    let id = try_create(&mut engine, 100, 1000, 1000, 100, 500, 1, 2, 5).unwrap();

    // A request above the remainder claims exactly the remainder.
    let ev = engine.fill_order(bob, 100, 1_000, id, 5000, alice).unwrap();
    assert_eq!(ev.fill_amount, 997);
    assert!(engine.is_order_complete(id));
    assert_eq!(engine.get_remaining_amount(id), 0);
}

#[test]
fn test_final_dust_fill_allowed() {
    let alice = addr(1);
    let bob = addr(2);
    let mut engine = PolkadotPartialFills::new(addr(9));
    let id = try_create(&mut engine, 100, 1000, 1000, 100, 500, 1, 2, 5).unwrap();

    // Leave a remainder of 97, below the minimum fill of 100.
    engine.fill_order(bob, 100, 1_000, id, 900, alice).unwrap();
    assert_eq!(engine.get_remaining_amount(id), 97);

    // A fill below the minimum is accepted only against such a remainder.
    let ev = engine.fill_order(bob, 100, 2_000, id, 97, alice).unwrap();
    assert_eq!(ev.fill_amount, 97);
    assert!(engine.is_order_complete(id));
}

#[test]
fn test_dust_fill_boundary_at_minimum() {
    let alice = addr(1);
    let bob = addr(2);
    let mut engine = PolkadotPartialFills::new(addr(9));
    let id = try_create(&mut engine, 100, 1000, 1000, 100, 500, 1, 2, 5).unwrap();

    // Leave a remainder of exactly the minimum (100).
    engine.fill_order(bob, 100, 1_000, id, 897, alice).unwrap();
    assert_eq!(engine.get_remaining_amount(id), 100);

    // While a full minimum fill is still possible, dust is rejected.
    assert_eq!(
        engine.fill_order(bob, 100, 2_000, id, 50, alice).unwrap_err(),
        Error::FillAmountTooSmall
    );
    // Claiming the full remainder succeeds.
    let ev = engine.fill_order(bob, 100, 3_000, id, 100, alice).unwrap();
    assert_eq!(ev.fill_amount, 100);
}

#[test]
fn test_partial_fills_not_allowed_policy() {
    let alice = addr(1);
    let bob = addr(2);
    let mut engine = PolkadotPartialFills::new(addr(9));
    let id = engine
        .create_partial_fill_order(
            alice,
            100,
            1000,
            1000,
            100,
            [0x01; 32],
            500,
            [0x02; 32],
            1,
            2,
            RATE_1_TO_1,
            false, // every fill must consume the whole remainder
            5,
            None,
            None,
        )
        .unwrap()
        .order_id;

    // 500 of the remaining 997 is a genuine partial fill: rejected.
    assert_eq!(
        engine.fill_order(bob, 100, 1_000, id, 500, alice).unwrap_err(),
        Error::PartialFillsNotAllowed
    );
    // 997 consumes the whole remainder and completes the order.
    let ev = engine.fill_order(bob, 100, 2_000, id, 997, alice).unwrap();
    assert_eq!(ev.fill_amount, 997);
    assert!(engine.is_order_complete(id));
}

#[test]
fn test_dest_amount_reporting() {
    let alice = addr(1);
    let bob = addr(2);
    let mut engine = PolkadotPartialFills::new(addr(9));
    let id = engine
        .create_partial_fill_order(
            alice,
            100,
            1000,
            1000,
            100,
            [0x01; 32],
            500,
            [0x02; 32],
            1,
            2,
            2 * RATE_1_TO_1, // 2 destination units per source unit
            true,
            5,
            None,
            None,
        )
        .unwrap()
        .order_id;

    let ev = engine.fill_order(bob, 100, 1_000, id, 200, alice).unwrap();
    assert_eq!(ev.dest_amount, 400);
}

#[test]
fn test_admin_operations() {
    let admin = addr(9);
    let alice = addr(1);
    let mut engine = PolkadotPartialFills::new(admin);
    assert_eq!(engine.get_admin().0, admin.0);

    // fee configuration is admin-only and capped
    assert_eq!(
        engine.update_protocol_fee(alice, 100).unwrap_err(),
        Error::Unauthorized
    );
    assert_eq!(
        engine.update_protocol_fee(admin, 1001).unwrap_err(),
        Error::InvalidFee
    );
    engine.update_protocol_fee(admin, 1000).unwrap();
    assert_eq!(engine.get_protocol_fee_bps(), 1000);

    // handing over the admin role
    assert_eq!(
        engine.update_admin(alice, alice).unwrap_err(),
        Error::Unauthorized
    );
    engine.update_admin(admin, alice).unwrap();
    assert_eq!(engine.get_admin().0, alice.0);
    engine.update_protocol_fee(alice, 30).unwrap();
}

#[test]
fn test_fee_sweep() {
    let admin = addr(9);
    let alice = addr(1);
    let mut engine = PolkadotPartialFills::new(admin);

    assert_eq!(
        engine.withdraw_protocol_fees(alice).unwrap_err(),
        Error::Unauthorized
    );
    // nothing accumulated yet
    assert_eq!(
        engine.withdraw_protocol_fees(admin).unwrap_err(),
        Error::InsufficientFunds
    );

    try_create(&mut engine, 100, 1000, 1000, 100, 500, 1, 2, 5).unwrap();
    assert_eq!(engine.get_protocol_fees(), 3);

    let transfer = engine.withdraw_protocol_fees(admin).unwrap();
    assert_eq!(transfer.to.0, admin.0);
    assert_eq!(transfer.amount, 3);
    assert_eq!(engine.get_protocol_fees(), 0);

    // the accumulator was zeroed: a second sweep has nothing to take
    assert_eq!(
        engine.withdraw_protocol_fees(admin).unwrap_err(),
        Error::InsufficientFunds
    );
}

#[test]
fn test_address_registry() {
    let alice = addr(1);
    let bob = addr(2);
    let mut engine = PolkadotPartialFills::new(addr(9));

    assert!(engine.get_cross_address(alice).is_none());

    let ev = engine
        .map_address(alice, CrossChainAddress::Ethereum([0xEE; 20]))
        .unwrap();
    assert_eq!(ev.account.0, alice.0);

    match engine.get_cross_address(alice) {
        Some(CrossChainAddress::Ethereum(bytes)) => assert_eq!(*bytes, [0xEE; 20]),
        _ => panic!("expected the registered Ethereum address"),
    }

    // re-mapping replaces the entry; other accounts are untouched
    engine
        .map_address(alice, CrossChainAddress::Raw(vec![1, 2, 3]))
        .unwrap();
    match engine.get_cross_address(alice) {
        Some(CrossChainAddress::Raw(bytes)) => assert_eq!(bytes.as_slice(), &[1, 2, 3]),
        _ => panic!("expected the re-registered raw address"),
    }
    assert!(engine.get_cross_address(bob).is_none());

    engine
        .map_address(bob, CrossChainAddress::Substrate([0x05; 32]))
        .unwrap();
    match engine.get_cross_address(bob) {
        Some(CrossChainAddress::Substrate(bytes)) => assert_eq!(*bytes, [0x05; 32]),
        _ => panic!("expected the registered Substrate address"),
    }
}

#[test]
fn test_accessors_on_unknown_ids() {
    let engine = PolkadotPartialFills::new(addr(9));
    let id = [0x77; 32];
    assert!(engine.get_order(id).is_none());
    assert!(engine.get_fill(id).is_none());
    assert!(engine.get_fill_secret(id).is_none());
    assert!(engine.get_order_fills(id).is_empty());
    assert!(!engine.order_exists(id));
    assert!(!engine.is_order_complete(id));
    assert_eq!(engine.get_remaining_amount(id), 0);
}

#[test]
fn test_sha256_known_vectors() {
    // SHA-256 of the empty input.
    let empty: [u8; 0] = [];
    assert_eq!(
        compute_sha256(&empty),
        [
            0xe3, 0xb0, 0xc4, 0x42, 0x98, 0xfc, 0x1c, 0x14, 0x9a, 0xfb, 0xf4, 0xc8, 0x99, 0x6f,
            0xb9, 0x24, 0x27, 0xae, 0x41, 0xe4, 0x64, 0x9b, 0x93, 0x4c, 0xa4, 0x95, 0x99, 0x1b,
            0x78, 0x52, 0xb8, 0x55,
        ]
    );
    // SHA-256 of b"abc".
    assert_eq!(
        compute_sha256(b"abc"),
        [
            0xba, 0x78, 0x16, 0xbf, 0x8f, 0x01, 0xcf, 0xea, 0x41, 0x41, 0x40, 0xde, 0x5d, 0xae,
            0x22, 0x23, 0xb0, 0x03, 0x61, 0xa3, 0x96, 0x17, 0x7a, 0x9c, 0xb4, 0x10, 0xff, 0x61,
            0xf2, 0x00, 0x15, 0xad,
        ]
    );
}
