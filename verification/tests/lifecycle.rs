// Order/fill lifecycle: creation, partial fills, secret-reveal withdrawal,
// timelock refund and cancellation, driven as the hosting ledger would.

use polkadotrelayer::engine::PolkadotPartialFills;
use polkadotrelayer::hash::compute_sha256;
use polkadotrelayer::types::{Address, Error};

fn addr(tag: u8) -> Address {
    Address([tag; 20])
}

const RATE_1_TO_1: u128 = 1_000_000_000_000;

fn create_default_order(
    engine: &mut PolkadotPartialFills,
    maker: Address,
    hashlock: [u8; 32],
    allow_partial_fills: bool,
    max_fills: u32,
) -> [u8; 32] {
    engine
        .create_partial_fill_order(
            maker,
            100,            // now
            1000,           // transferred value
            1000,           // total (gross) amount
            100,            // min fill amount
            hashlock,
            500,            // timelock
            [0x02; 32],     // swap id
            1,              // source chain
            2,              // dest chain
            RATE_1_TO_1,    // dest amount per unit
            allow_partial_fills,
            max_fills,
            None,
            None,
        )
        .unwrap()
        .order_id
}

#[test]
fn test_partial_fill_order_creation() {
    let alice = addr(1);
    let mut contract = PolkadotPartialFills::new(alice);

    let result = contract.create_partial_fill_order(
        alice,
        100,
        1000,
        1000,
        100,
        [0x01; 32],
        500,
        [0x02; 32],
        1,
        2,
        RATE_1_TO_1,
        true,
        5,
        None,
        None,
    );

    assert!(result.is_ok());

    let order_id = result.unwrap().order_id;
    assert!(contract.order_exists(order_id));

    let order = contract.get_order(order_id).unwrap();
    assert_eq!(order.maker.0, alice.0);
    assert_eq!(order.total_amount, 997); // 1000 - 3 (fee)
    assert_eq!(order.filled_amount, 0);
    assert_eq!(order.min_fill_amount, 100);
    assert!(order.allow_partial_fills);
    assert_eq!(order.max_fills, 5);
    assert_eq!(order.current_fills, 0);
}

#[test]
fn test_partial_fill_execution() {
    let alice = addr(1);
    let bob = addr(2);
    let charlie = addr(3);
    let mut contract = PolkadotPartialFills::new(alice);

    let order_id = create_default_order(&mut contract, alice, [0x01; 32], true, 5);

    let fill_result = contract.fill_order(bob, 100, 1_000, order_id, 200, charlie);
    assert!(fill_result.is_ok());

    let fill_id = fill_result.unwrap().fill_id;
    let fill = contract.get_fill(fill_id).unwrap();
    assert_eq!(fill.taker.0, bob.0);
    assert_eq!(fill.fill_amount, 200);
    assert!(!fill.withdrawn);
    assert!(!fill.refunded);

    let order = contract.get_order(order_id).unwrap();
    assert_eq!(order.filled_amount, 200);
    assert_eq!(order.current_fills, 1);
    assert_eq!(contract.get_remaining_amount(order_id), 797); // 997 - 200
}

#[test]
fn test_multiple_partial_fills() {
    let alice = addr(1);
    let bob = addr(2);
    let charlie = addr(3);
    let mut contract = PolkadotPartialFills::new(alice);

    let order_id = create_default_order(&mut contract, alice, [0x01; 32], true, 3);

    let fill1_id = contract
        .fill_order(bob, 100, 1_000, order_id, 200, charlie)
        .unwrap()
        .fill_id;
    let fill2_id = contract
        .fill_order(charlie, 100, 2_000, order_id, 300, bob)
        .unwrap()
        .fill_id;

    let order = contract.get_order(order_id).unwrap();
    assert_eq!(order.filled_amount, 500); // 200 + 300
    assert_eq!(order.current_fills, 2);
    assert_eq!(contract.get_remaining_amount(order_id), 497); // 997 - 500

    let order_fills = contract.get_order_fills(order_id);
    assert_eq!(order_fills.len(), 2);
    assert!(order_fills.contains(&fill1_id));
    assert!(order_fills.contains(&fill2_id));
}

#[test]
fn test_fill_withdrawal_with_secret() {
    let alice = addr(1);
    let bob = addr(2);
    let charlie = addr(3);
    let mut contract = PolkadotPartialFills::new(alice);

    let secret = [0x42; 32];
    let hashlock = compute_sha256(&secret);

    let order_id = create_default_order(&mut contract, alice, hashlock, true, 5);
    let fill_id = contract
        .fill_order(bob, 100, 1_000, order_id, 200, charlie)
        .unwrap()
        .fill_id;

    let withdraw_result = contract.withdraw_fill(bob, 100, fill_id, secret);
    assert!(withdraw_result.is_ok());

    let fill = contract.get_fill(fill_id).unwrap();
    assert!(fill.withdrawn);
    assert_eq!(fill.preimage, Some(secret));
}

#[test]
fn test_withdrawal_transfer_and_secret_accessor() {
    let alice = addr(1);
    let bob = addr(2);
    let mut contract = PolkadotPartialFills::new(alice);

    let secret = [0x42; 32];
    let hashlock = compute_sha256(&secret);
    let order_id = create_default_order(&mut contract, alice, hashlock, true, 5);
    let fill_id = contract
        .fill_order(bob, 100, 1_000, order_id, 200, alice)
        .unwrap()
        .fill_id;

    assert_eq!(contract.get_fill_secret(fill_id), None);

    let (event, transfer) = contract.withdraw_fill(bob, 100, fill_id, secret).unwrap();
    assert_eq!(event.fill_id, fill_id);
    assert_eq!(event.secret, secret);
    assert_eq!(event.taker.0, bob.0);
    assert_eq!(transfer.to.0, bob.0);
    assert_eq!(transfer.amount, 200);

    assert_eq!(contract.get_fill_secret(fill_id), Some(secret));

    // The order's accounting does not shrink on withdrawal.
    let order = contract.get_order(order_id).unwrap();
    assert_eq!(order.filled_amount, 200);
    assert_eq!(order.current_fills, 1);
}

#[test]
fn test_second_withdrawal_rejected() {
    let alice = addr(1);
    let bob = addr(2);
    let mut contract = PolkadotPartialFills::new(alice);

    let secret = [0x42; 32];
    let hashlock = compute_sha256(&secret);
    let order_id = create_default_order(&mut contract, alice, hashlock, true, 5);
    let fill_id = contract
        .fill_order(bob, 100, 1_000, order_id, 200, alice)
        .unwrap()
        .fill_id;

    assert!(contract.withdraw_fill(bob, 100, fill_id, secret).is_ok());
    // A second attempt fails regardless of secret correctness.
    assert_eq!(
        contract.withdraw_fill(bob, 100, fill_id, secret).unwrap_err(),
        Error::AlreadyProcessed
    );
    assert_eq!(
        contract.withdraw_fill(bob, 100, fill_id, [0xAA; 32]).unwrap_err(),
        Error::AlreadyProcessed
    );
}

#[test]
fn test_wrong_secret_rejected() {
    let alice = addr(1);
    let bob = addr(2);
    let mut contract = PolkadotPartialFills::new(alice);

    let secret = [0x42; 32];
    let hashlock = compute_sha256(&secret);
    let order_id = create_default_order(&mut contract, alice, hashlock, true, 5);
    let fill_id = contract
        .fill_order(bob, 100, 1_000, order_id, 200, alice)
        .unwrap()
        .fill_id;

    assert_eq!(
        contract.withdraw_fill(bob, 100, fill_id, [0xAA; 32]).unwrap_err(),
        Error::InvalidHashlock
    );
    // No state change: the fill is still open and withdrawable.
    let fill = contract.get_fill(fill_id).unwrap();
    assert!(!fill.withdrawn);
    assert_eq!(fill.preimage, None);
    assert!(contract.withdraw_fill(bob, 100, fill_id, secret).is_ok());
}

#[test]
fn test_withdrawal_authorization_and_timing() {
    let alice = addr(1);
    let bob = addr(2);
    let charlie = addr(3);
    let mut contract = PolkadotPartialFills::new(alice);

    let secret = [0x42; 32];
    let hashlock = compute_sha256(&secret);
    let order_id = create_default_order(&mut contract, alice, hashlock, true, 5);
    let fill_id = contract
        .fill_order(bob, 100, 1_000, order_id, 200, alice)
        .unwrap()
        .fill_id;

    // Only the taker may withdraw.
    assert_eq!(
        contract.withdraw_fill(charlie, 100, fill_id, secret).unwrap_err(),
        Error::UnauthorizedWithdraw
    );
    // Withdrawal needs the timelock (500) not to have passed.
    assert_eq!(
        contract.withdraw_fill(bob, 500, fill_id, secret).unwrap_err(),
        Error::TimelockExpired
    );
    // Unknown fill.
    assert_eq!(
        contract.withdraw_fill(bob, 100, [0x77; 32], secret).unwrap_err(),
        Error::FillNotFound
    );
}

#[test]
fn test_refund_restores_capacity() {
    let alice = addr(1);
    let bob = addr(2);
    let mut contract = PolkadotPartialFills::new(alice);

    let order_id = create_default_order(&mut contract, alice, [0x01; 32], true, 5);
    let fill_id = contract
        .fill_order(bob, 100, 1_000, order_id, 200, alice)
        .unwrap()
        .fill_id;

    // Refund is only legal once the timelock (500) has passed.
    assert_eq!(
        contract.refund_fill(alice, 499, fill_id).unwrap_err(),
        Error::TimelockNotExpired
    );
    // Only the maker may refund.
    assert_eq!(
        contract.refund_fill(bob, 500, fill_id).unwrap_err(),
        Error::UnauthorizedRefund
    );

    let (event, transfer) = contract.refund_fill(alice, 500, fill_id).unwrap();
    assert_eq!(event.fill_id, fill_id);
    assert_eq!(event.maker.0, alice.0);
    assert_eq!(transfer.to.0, alice.0);
    assert_eq!(transfer.amount, 200);

    // Capacity is restored: the fill count drops and the amount is freed.
    let order = contract.get_order(order_id).unwrap();
    assert_eq!(order.filled_amount, 0);
    assert_eq!(order.current_fills, 0);
    let fill = contract.get_fill(fill_id).unwrap();
    assert!(fill.refunded);
    assert!(!fill.withdrawn);

    // But refund is only possible after expiry, so a new fill is rejected
    // as expired: the freed capacity is unreachable by design.
    assert_eq!(
        contract.fill_order(bob, 500, 2_000, order_id, 100, alice).unwrap_err(),
        Error::TimelockExpired
    );

    // The refunded fill is closed for good.
    assert_eq!(
        contract.refund_fill(alice, 500, fill_id).unwrap_err(),
        Error::AlreadyProcessed
    );
    assert_eq!(
        contract.withdraw_fill(bob, 100, fill_id, [0x42; 32]).unwrap_err(),
        Error::AlreadyProcessed
    );
}

#[test]
fn test_cancel_order_flow() {
    let alice = addr(1);
    let bob = addr(2);
    let mut contract = PolkadotPartialFills::new(alice);

    let order_id = create_default_order(&mut contract, alice, [0x01; 32], true, 5);
    contract
        .fill_order(bob, 100, 1_000, order_id, 200, alice)
        .unwrap();

    // Only the maker may cancel.
    assert_eq!(
        contract.cancel_order(bob, order_id).unwrap_err(),
        Error::UnauthorizedRefund
    );

    let (event, transfer) = contract.cancel_order(alice, order_id).unwrap();
    assert_eq!(event.order_id, order_id);
    let transfer = transfer.unwrap();
    assert_eq!(transfer.to.0, alice.0);
    assert_eq!(transfer.amount, 797); // the never-claimed remainder

    assert!(contract.get_order(order_id).unwrap().cancelled);
    assert_eq!(contract.get_remaining_amount(order_id), 0);

    // Cancellation is terminal and blocks further fills.
    assert_eq!(
        contract.cancel_order(alice, order_id).unwrap_err(),
        Error::OrderCancelled
    );
    assert_eq!(
        contract.fill_order(bob, 100, 3_000, order_id, 100, alice).unwrap_err(),
        Error::OrderCancelled
    );
}

#[test]
fn test_cancel_completed_order_transfers_nothing() {
    let alice = addr(1);
    let bob = addr(2);
    let mut contract = PolkadotPartialFills::new(alice);

    let order_id = create_default_order(&mut contract, alice, [0x01; 32], true, 5);
    contract
        .fill_order(bob, 100, 1_000, order_id, 997, alice)
        .unwrap();
    assert!(contract.is_order_complete(order_id));

    let (_, transfer) = contract.cancel_order(alice, order_id).unwrap();
    assert!(transfer.is_none());
}

#[test]
fn test_order_ids_distinct_for_identical_parameters() {
    let alice = addr(1);
    let mut contract = PolkadotPartialFills::new(alice);

    let first = create_default_order(&mut contract, alice, [0x01; 32], true, 5);
    let second = create_default_order(&mut contract, alice, [0x01; 32], true, 5);
    assert_ne!(first, second); // the order counter keeps identifiers unique
    assert!(contract.order_exists(first));
    assert!(contract.order_exists(second));
}
