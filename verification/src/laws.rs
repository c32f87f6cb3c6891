//! Engine-wide laws: properties of every reachable state and of the
//! operations' acceptance conditions, stated on their own and proved from
//! the invariant and the contracts' spec functions.

use vstd::prelude::*;

use crate::engine::{fill_entry_ok, order_entry_ok, PolkadotPartialFills};
use crate::hash::sha256_of;
use crate::store::{
    spec_find_fill, spec_find_order, sum_active, lemma_find_fill_found, lemma_find_order_found,
};
use crate::types::{Address, Error};

verus! {

/// The fee split of a deposit is exact: the fee is the floored
/// basis-point share of the gross amount, it never exceeds the gross
/// amount, and net amount and fee add back up to the deposit.
pub proof fn lemma_fee_splits_deposit(gross: u128, bps: u16)
    requires
        bps <= 1000,
    ensures
        ({
            let fee = PolkadotPartialFills::spec_fee(gross, bps);
            let net = gross - fee;
            &&& fee == ((gross as int) * (bps as int)) / 10000
            &&& 0 <= fee <= gross
            &&& net + fee == gross
        }),
{
    let a = gross as int;
    let b = bps as int;
    vstd::arithmetic::mul::lemma_mul_inequality(b, 10000, a);
    vstd::arithmetic::mul::lemma_mul_is_commutative(b, a);
    vstd::arithmetic::mul::lemma_mul_is_commutative(10000, a);
    vstd::arithmetic::div_mod::lemma_div_is_ordered(a * b, a * 10000, 10000);
    vstd::arithmetic::div_mod::lemma_div_by_multiple(a, 10000);
    vstd::arithmetic::mul::lemma_mul_nonnegative(a, b);
    vstd::arithmetic::div_mod::lemma_div_pos_is_pos(a * b, 10000);
}

/// In every well-formed state, an order's filled amount equals the sum of
/// `fill_amount` over its not-refunded fills, and never exceeds its total
/// amount. Every operation preserves well-formedness, so this holds across
/// any sequence of fills, withdrawals and refunds.
pub proof fn lemma_filled_amount_accounting(s: PolkadotPartialFills, order_id: Seq<u8>)
    requires
        s.wf(),
        spec_find_order(s.orders@, order_id) is Some,
    ensures
        spec_find_order(s.orders@, order_id) matches Some(e) && e.order.filled_amount as int
            == sum_active(s.fills@, order_id) && e.order.filled_amount <= e.order.total_amount,
{
    lemma_find_order_found(s.orders@, order_id);
    let e = spec_find_order(s.orders@, order_id)->Some_0;
    let i = choose|i: int| 0 <= i < s.orders@.len() && s.orders@[i] == e;
    assert(order_entry_ok(s.orders@[i], s.fills@));
}

/// In every well-formed state, a fill is closed in at most one way: it is
/// never both withdrawn and refunded. A withdrawal or refund of an already
/// closed fill is rejected with `AlreadyProcessed`, so each can happen at
/// most once, and never both.
pub proof fn lemma_fill_closed_at_most_once(s: PolkadotPartialFills, fill_id: Seq<u8>)
    requires
        s.wf(),
        spec_find_fill(s.fills@, fill_id) is Some,
    ensures
        spec_find_fill(s.fills@, fill_id) matches Some(e) && !(e.fill.withdrawn
            && e.fill.refunded),
{
    lemma_find_fill_found(s.fills@, fill_id);
    let e = spec_find_fill(s.fills@, fill_id)->Some_0;
    let i = choose|i: int| 0 <= i < s.fills@.len() && s.fills@[i] == e;
    assert(fill_entry_ok(s.fills@[i], s.orders@));
}

/// A withdrawal is accepted exactly when the caller is the fill's taker,
/// the fill is still open, the order's timelock has not passed, and the
/// revealed preimage hashes to the order's hashlock; a wrong preimage that
/// passes every other check is rejected with `InvalidHashlock`.
pub proof fn lemma_withdrawal_needs_secret_before_deadline(
    s: PolkadotPartialFills,
    fill_id: [u8; 32],
    preimage: [u8; 32],
    caller: Address,
    now: u32,
)
    requires
        spec_find_fill(s.fills@, fill_id@) is Some,
        spec_find_fill(s.fills@, fill_id@) matches Some(fe) && spec_find_order(
            s.orders@,
            fe.fill.order_id@,
        ) is Some,
    ensures
        spec_find_fill(s.fills@, fill_id@) matches Some(fe) && spec_find_order(
            s.orders@,
            fe.fill.order_id@,
        ) matches Some(oe) && ({
            &&& (PolkadotPartialFills::spec_withdraw_err(s, fill_id, preimage, caller, now)
                is None) <==> (caller.bytes() == fe.fill.taker.bytes() && !fe.fill.withdrawn
                && !fe.fill.refunded && now < oe.order.timelock && sha256_of(preimage@)
                == oe.order.hashlock@)
            &&& (caller.bytes() == fe.fill.taker.bytes() && !fe.fill.withdrawn
                && !fe.fill.refunded && now < oe.order.timelock && sha256_of(preimage@)
                != oe.order.hashlock@) ==> PolkadotPartialFills::spec_withdraw_err(
                s,
                fill_id,
                preimage,
                caller,
                now,
            ) == Some(Error::InvalidHashlock)
        }),
{
}

/// A refund is accepted exactly when the caller is the order's maker, the
/// fill is still open, and the order's timelock has passed; symmetrically
/// to withdrawal, which demands the timelock not yet passed, so on any one
/// fill the two windows never overlap.
pub proof fn lemma_refund_only_after_deadline(
    s: PolkadotPartialFills,
    fill_id: [u8; 32],
    caller: Address,
    now: u32,
)
    requires
        spec_find_fill(s.fills@, fill_id@) is Some,
        spec_find_fill(s.fills@, fill_id@) matches Some(fe) && spec_find_order(
            s.orders@,
            fe.fill.order_id@,
        ) is Some,
    ensures
        spec_find_fill(s.fills@, fill_id@) matches Some(fe) && spec_find_order(
            s.orders@,
            fe.fill.order_id@,
        ) matches Some(oe) && ({
            &&& (PolkadotPartialFills::spec_refund_err(s, fill_id, caller, now) is None) <==> (
            caller.bytes() == oe.order.maker.bytes() && !fe.fill.withdrawn && !fe.fill.refunded
                && now >= oe.order.timelock)
            &&& (PolkadotPartialFills::spec_refund_err(s, fill_id, caller, now) is None)
                ==> forall|p: [u8; 32]|
                    !(#[trigger] PolkadotPartialFills::spec_withdraw_err(s, fill_id, p, caller, now)
                        is None)
        }),
{
}

} // verus!
