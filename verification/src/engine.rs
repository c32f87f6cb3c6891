//! The settlement engine: protocol state, its invariant, and the operations
//! the hosting ledger drives it with.
//!
//! Every operation takes what the host environment supplies (caller
//! identity, current block, attached value, timestamp) as plain arguments,
//! mutates the stores, and returns the event to emit and, where value
//! leaves escrow, the transfer the host must perform. An operation that
//! returns an error changes nothing; if the host cannot perform a returned
//! transfer it must discard the mutated state, so that state and escrowed
//! balance never part ways.

use vstd::prelude::*;

use crate::bytes::copy_bytes;
use crate::store::{
    addr_accounts_unique, count_active, fill_ids_for, fill_ids_unique, find_addr_index,
    find_fill_index, find_order_index, order_ids_unique, spec_find_addr, spec_find_fill,
    spec_find_order, sum_active, AddrEntry, FillEntry, OrderEntry,
};
use crate::store::{addr_at_mut, fill_at_mut, order_at_mut};
use crate::types::{
    Address, AddressMapped, CrossChainAddress, Error, FillExecution, FillRefunded,
    FillWithdrawn, OrderCancelled as OrderCancelledEvent, OrderFilled, PartialFillOrder,
    PartialFillOrderCreated, Transfer,
};

verus! {

/// An order entry is consistent with the fill store: its filled amount is
/// the sum over its not-refunded fills, never above the total; its fill
/// count counts them; and its fill list names every fill ever created
/// against it, in creation order.
pub open spec fn order_entry_ok(e: OrderEntry, fills: Seq<FillEntry>) -> bool {
    &&& e.order.filled_amount as int == sum_active(fills, e.id@)
    &&& e.order.filled_amount <= e.order.total_amount
    &&& e.order.current_fills as int == count_active(fills, e.id@)
    &&& e.fill_ids@.map_values(|b: [u8; 32]| b@) == fill_ids_for(fills, e.id@)
}

/// A fill entry is consistent: it is closed in at most one way, and its
/// owning order exists.
pub open spec fn fill_entry_ok(e: FillEntry, orders: Seq<OrderEntry>) -> bool {
    &&& !(e.fill.withdrawn && e.fill.refunded)
    &&& spec_find_order(orders, e.fill.order_id@) is Some
}

/// The protocol state: the order, fill and address stores, the authorized
/// admin, fee configuration, timelock bounds, and the identifier counters.
pub struct PolkadotPartialFills {
    pub orders: Vec<OrderEntry>,
    pub fills: Vec<FillEntry>,
    pub address_mappings: Vec<AddrEntry>,
    pub admin: Address,
    pub protocol_fee_bps: u16,
    pub protocol_fees: u128,
    pub min_timelock: u32,
    pub max_timelock: u32,
    pub order_counter: u64,
    pub fill_counter: u64,
}

impl PolkadotPartialFills {
    /// Well-formedness: identifiers are unique, the fee rate is within its
    /// cap, and order and fill records agree with each other. Established
    /// by `new` and preserved by every operation.
    pub open spec fn wf(self) -> bool {
        &&& order_ids_unique(self.orders@)
        &&& fill_ids_unique(self.fills@)
        &&& addr_accounts_unique(self.address_mappings@)
        &&& self.protocol_fee_bps <= 1000
        &&& forall|i: int|
            0 <= i < self.orders@.len() ==> order_entry_ok(
                #[trigger] self.orders@[i],
                self.fills@,
            )
        &&& forall|j: int|
            0 <= j < self.fills@.len() ==> fill_entry_ok(#[trigger] self.fills@[j], self.orders@)
    }

    /// Fresh engine: empty stores, the given admin, a 30 bps fee, timelock
    /// bounds of 100 and 14400 blocks, counters at zero.
    pub fn new(admin: Address) -> (r: Self)
        ensures
            r.wf(),
            r.orders@.len() == 0,
            r.fills@.len() == 0,
            r.address_mappings@.len() == 0,
            r.admin == admin,
            r.protocol_fee_bps == 30,
            r.protocol_fees == 0,
            r.min_timelock == 100,
            r.max_timelock == 14400,
            r.order_counter == 0,
            r.fill_counter == 0,
    {
        PolkadotPartialFills {
            orders: Vec::new(),
            fills: Vec::new(),
            address_mappings: Vec::new(),
            admin,
            protocol_fee_bps: 30,
            protocol_fees: 0,
            min_timelock: 100,
            max_timelock: 14400,
            order_counter: 0,
            fill_counter: 0,
        }
    }

    /// Register (or replace) the caller's cross-chain address.
    pub fn map_address(&mut self, caller: Address, cross_address: CrossChainAddress) -> (r: Result<
        AddressMapped,
        Error,
    >)
        requires
            old(self).wf(),
        ensures
            final(self).wf(),
            r matches Ok(ev) && ev.account == caller && ev.cross_address == cross_address,
            spec_find_addr(final(self).address_mappings@, caller.bytes()) matches Some(c)
                && c.tag() == cross_address.tag() && c.payload() == cross_address.payload(),
            forall|k: Seq<u8>|
                k != caller.bytes() ==> spec_find_addr(final(self).address_mappings@, k)
                    == spec_find_addr(old(self).address_mappings@, k),
            final(self).orders == old(self).orders,
            final(self).fills == old(self).fills,
            final(self).admin == old(self).admin,
            final(self).protocol_fee_bps == old(self).protocol_fee_bps,
            final(self).protocol_fees == old(self).protocol_fees,
            final(self).min_timelock == old(self).min_timelock,
            final(self).max_timelock == old(self).max_timelock,
            final(self).order_counter == old(self).order_counter,
            final(self).fill_counter == old(self).fill_counter,
    {
        let stored = copy_cross_address(&cross_address);
        match find_addr_index(&self.address_mappings, &caller) {
            Some(i) => {
                let ghost pre = self.address_mappings@;
                let e = addr_at_mut(&mut self.address_mappings, i);
                e.value = stored;
                proof {
                    let post_entry = AddrEntry { account: pre[i as int].account, value: stored };
                    assert(self.address_mappings@ =~= pre.update(i as int, post_entry));
                    crate::store::lemma_find_addr_update(
                        pre,
                        i as int,
                        post_entry,
                        caller.bytes(),
                    );
                    assert forall|k: Seq<u8>| k != caller.bytes() implies spec_find_addr(
                        self.address_mappings@,
                        k,
                    ) == spec_find_addr(pre, k) by {
                        crate::store::lemma_find_addr_update(pre, i as int, post_entry, k);
                    }
                }
            },
            None => {
                let ghost pre = self.address_mappings@;
                self.address_mappings.push(AddrEntry { account: caller, value: stored });
                proof {
                    let entry = AddrEntry { account: caller, value: stored };
                    crate::store::lemma_find_addr_push(pre, entry, caller.bytes());
                    assert forall|k: Seq<u8>| k != caller.bytes() implies spec_find_addr(
                        self.address_mappings@,
                        k,
                    ) == spec_find_addr(pre, k) by {
                        crate::store::lemma_find_addr_push(pre, entry, k);
                    }
                    crate::store::lemma_find_addr_none_iff(pre, caller.bytes());
                    assert forall|m: int, n: int|
                        0 <= m < n < self.address_mappings@.len() implies self.address_mappings@[m].account.bytes()
                        != self.address_mappings@[n].account.bytes() by {
                        if n < pre.len() {
                            assert(self.address_mappings@[m] == pre[m]);
                            assert(self.address_mappings@[n] == pre[n]);
                        } else {
                            assert(self.address_mappings@[m] == pre[m]);
                            assert(self.address_mappings@[n] == entry);
                        }
                    }
                }
            },
        }
        Ok(AddressMapped { account: caller, cross_address })
    }

    /// Whether `caller` is the admin; any other caller is `Unauthorized`.
    fn ensure_admin(&self, caller: &Address) -> (r: Result<(), Error>)
        ensures
            r == (if caller.bytes() == self.admin.bytes() {
                Ok::<(), Error>(())
            } else {
                Err::<(), Error>(Error::Unauthorized)
            }),
    {
        if crate::bytes::bytes_eq(&caller.0, &self.admin.0) {
            Ok(())
        } else {
            Err(Error::Unauthorized)
        }
    }

    /// Hand the admin role to `new_admin`; admin only.
    pub fn update_admin(&mut self, caller: Address, new_admin: Address) -> (r: Result<(), Error>)
        requires
            old(self).wf(),
        ensures
            final(self).wf(),
            match r {
                Ok(_) => caller.bytes() == old(self).admin.bytes() && *final(self)
                    == (PolkadotPartialFills { admin: new_admin, ..*old(self) }),
                Err(e) => e == Error::Unauthorized && caller.bytes() != old(self).admin.bytes()
                    && *final(self) == *old(self),
            },
    {
        match self.ensure_admin(&caller) {
            Ok(_) => {
                self.admin = new_admin;
                Ok(())
            },
            Err(e) => Err(e),
        }
    }

    /// Set the protocol fee rate; admin only, capped at 1000 bps.
    pub fn update_protocol_fee(&mut self, caller: Address, new_fee_bps: u16) -> (r: Result<
        (),
        Error,
    >)
        requires
            old(self).wf(),
        ensures
            final(self).wf(),
            match r {
                Ok(_) => caller.bytes() == old(self).admin.bytes() && new_fee_bps <= 1000
                    && *final(self) == (PolkadotPartialFills { protocol_fee_bps: new_fee_bps, ..*old(self) }),
                Err(e) => *final(self) == *old(self) && e == (if caller.bytes()
                    != old(self).admin.bytes() {
                    Error::Unauthorized
                } else {
                    Error::InvalidFee
                }) && (caller.bytes() != old(self).admin.bytes() || new_fee_bps > 1000),
            },
    {
        match self.ensure_admin(&caller) {
            Ok(_) => {
                if new_fee_bps > 1000 {
                    return Err(Error::InvalidFee);
                }
                self.protocol_fee_bps = new_fee_bps;
                Ok(())
            },
            Err(e) => Err(e),
        }
    }

    /// Sweep the accumulated protocol fees to the admin; admin only, and
    /// only when something has accumulated. The returned transfer is the
    /// host's to perform; on its failure the host discards the operation,
    /// which restores the accumulator.
    pub fn withdraw_protocol_fees(&mut self, caller: Address) -> (r: Result<Transfer, Error>)
        requires
            old(self).wf(),
        ensures
            final(self).wf(),
            match r {
                Ok(t) => caller.bytes() == old(self).admin.bytes() && old(self).protocol_fees > 0
                    && t.to == old(self).admin && t.amount == old(self).protocol_fees
                    && *final(self) == (PolkadotPartialFills { protocol_fees: 0, ..*old(self) }),
                Err(e) => *final(self) == *old(self) && e == (if caller.bytes()
                    != old(self).admin.bytes() {
                    Error::Unauthorized
                } else {
                    Error::InsufficientFunds
                }) && (caller.bytes() != old(self).admin.bytes() || old(self).protocol_fees == 0),
            },
    {
        match self.ensure_admin(&caller) {
            Ok(_) => {
                let fees = self.protocol_fees;
                if fees == 0 {
                    return Err(Error::InsufficientFunds);
                }
                self.protocol_fees = 0;
                Ok(Transfer { to: self.admin, amount: fees })
            },
            Err(e) => Err(e),
        }
    }

    /// Protocol fee for a gross amount at rate `bps`, in basis points,
    /// rounded down.
    pub open spec fn spec_fee(amount: u128, bps: u16) -> int {
        ((amount as int) * (bps as int)) / 10000
    }

    /// Net escrowed amount and protocol fee for a gross deposit, at the
    /// stored fee rate; overflow of the intermediate product is an error.
    pub fn calculate_fees(&self, amount: u128) -> (r: Result<(u128, u128), Error>)
        requires
            self.protocol_fee_bps <= 1000,
        ensures
            match r {
                Ok((net, fee)) => (amount as int) * (self.protocol_fee_bps as int) <= u128::MAX
                    && fee as int == Self::spec_fee(amount, self.protocol_fee_bps) && net as int
                    == amount - Self::spec_fee(amount, self.protocol_fee_bps),
                Err(e) => e == Error::ArithmeticOverflow && (amount as int) * (
                self.protocol_fee_bps as int) > u128::MAX,
            },
    {
        match amount.checked_mul(self.protocol_fee_bps as u128) {
            Some(prod) => {
                let fee = prod / 10000;
                proof {
                    Self::lemma_fee_le_amount(amount, self.protocol_fee_bps);
                }
                let net = amount - fee;
                Ok((net, fee))
            },
            None => Err(Error::ArithmeticOverflow),
        }
    }

    /// The fee never exceeds the gross amount (the rate is at most 100%).
    proof fn lemma_fee_le_amount(amount: u128, bps: u16)
        requires
            bps <= 10000,
        ensures
            0 <= Self::spec_fee(amount, bps) <= amount,
    {
        let a = amount as int;
        let b = bps as int;
        vstd::arithmetic::mul::lemma_mul_inequality(b, 10000, a);
        vstd::arithmetic::mul::lemma_mul_is_commutative(b, a);
        vstd::arithmetic::mul::lemma_mul_is_commutative(10000, a);
        vstd::arithmetic::div_mod::lemma_div_is_ordered(a * b, a * 10000, 10000);
        vstd::arithmetic::div_mod::lemma_div_by_multiple(a, 10000);
        vstd::arithmetic::mul::lemma_mul_nonnegative(a, b);
        vstd::arithmetic::div_mod::lemma_div_pos_is_pos(a * b, 10000);
    }

    /// First rejection, if any, among the order-creation parameter checks:
    /// timelock bounds, distinct chains, fill-amount bounds.
    pub open spec fn spec_order_params_err(
        min_timelock: u32,
        max_timelock: u32,
        total_amount: u128,
        min_fill_amount: u128,
        timelock: u32,
        source_chain: u32,
        dest_chain: u32,
        max_fills: u32,
        now: u32,
    ) -> Option<Error> {
        if timelock <= now {
            Some(Error::InvalidTimelock)
        } else if (timelock as int) < now + min_timelock {
            Some(Error::TimelockTooShort)
        } else if (timelock as int) > now + max_timelock {
            Some(Error::TimelockTooLong)
        } else if source_chain == dest_chain {
            Some(Error::InvalidChainId)
        } else if min_fill_amount == 0 || min_fill_amount > total_amount {
            Some(Error::InvalidFillAmount)
        } else if max_fills == 0 {
            Some(Error::InvalidFillAmount)
        } else {
            None
        }
    }

    /// Check the order-creation parameters against the stored timelock
    /// bounds, at ledger time `now`.
    pub fn validate_order_params(
        &self,
        total_amount: u128,
        min_fill_amount: u128,
        timelock: u32,
        source_chain: u32,
        dest_chain: u32,
        max_fills: u32,
        now: u32,
    ) -> (r: Result<(), Error>)
        ensures
            r == (match Self::spec_order_params_err(
                self.min_timelock,
                self.max_timelock,
                total_amount,
                min_fill_amount,
                timelock,
                source_chain,
                dest_chain,
                max_fills,
                now,
            ) {
                Some(e) => Err::<(), Error>(e),
                None => Ok::<(), Error>(()),
            }),
    {
        if timelock <= now {
            return Err(Error::InvalidTimelock);
        }
        let too_short = match now.checked_add(self.min_timelock) {
            Some(lo) => timelock < lo,
            None => true,
        };
        if too_short {
            return Err(Error::TimelockTooShort);
        }
        let too_long = match now.checked_add(self.max_timelock) {
            Some(hi) => timelock > hi,
            None => false,
        };
        if too_long {
            return Err(Error::TimelockTooLong);
        }
        if source_chain == dest_chain {
            return Err(Error::InvalidChainId);
        }
        if min_fill_amount == 0 || min_fill_amount > total_amount {
            return Err(Error::InvalidFillAmount);
        }
        if max_fills == 0 {
            return Err(Error::InvalidFillAmount);
        }
        Ok(())
    }

    /// The identifier a creation call would store its order under.
    pub open spec fn spec_created_order_id(
        pre: Self,
        caller: Address,
        total_amount: u128,
        hashlock: [u8; 32],
        timelock: u32,
        swap_id: [u8; 32],
    ) -> Seq<u8> {
        crate::ids::spec_order_id(
            caller.bytes(),
            (total_amount - Self::spec_fee(total_amount, pre.protocol_fee_bps)) as u128,
            hashlock@,
            timelock,
            swap_id@,
            (pre.order_counter + 1) as u64,
        )
    }

    /// First rejection, if any, of an order creation, in the order the
    /// checks are made: missing deposit, parameter checks, deposit below
    /// the total, counter or fee overflow, identifier collision, fee
    /// accumulator overflow.
    pub open spec fn spec_create_err(
        pre: Self,
        caller: Address,
        now: u32,
        transferred_value: u128,
        total_amount: u128,
        min_fill_amount: u128,
        hashlock: [u8; 32],
        timelock: u32,
        swap_id: [u8; 32],
        source_chain: u32,
        dest_chain: u32,
        max_fills: u32,
    ) -> Option<Error> {
        let params = Self::spec_order_params_err(
            pre.min_timelock,
            pre.max_timelock,
            total_amount,
            min_fill_amount,
            timelock,
            source_chain,
            dest_chain,
            max_fills,
            now,
        );
        if transferred_value == 0 {
            Some(Error::InsufficientFunds)
        } else if params is Some {
            params
        } else if transferred_value < total_amount {
            Some(Error::InsufficientFunds)
        } else if pre.order_counter == u64::MAX {
            Some(Error::ArithmeticOverflow)
        } else if (total_amount as int) * (pre.protocol_fee_bps as int) > u128::MAX {
            Some(Error::ArithmeticOverflow)
        } else if spec_find_order(
            pre.orders@,
            Self::spec_created_order_id(pre, caller, total_amount, hashlock, timelock, swap_id),
        ) is Some {
            Some(Error::OrderAlreadyExists)
        } else if pre.protocol_fees + Self::spec_fee(total_amount, pre.protocol_fee_bps)
            > u128::MAX {
            Some(Error::ArithmeticOverflow)
        } else {
            None
        }
    }

    /// Create a new order. `caller` is the maker, `now` the current block,
    /// and `transferred_value` the deposit attached to the call, of which
    /// the protocol fee is kept and the rest escrowed. On success the
    /// stored order carries the net amount, the fee is accumulated, and the
    /// creation event is returned; on any rejection nothing changes.
    pub fn create_partial_fill_order(
        &mut self,
        caller: Address,
        now: u32,
        transferred_value: u128,
        total_amount: u128,
        min_fill_amount: u128,
        hashlock: [u8; 32],
        timelock: u32,
        swap_id: [u8; 32],
        source_chain: u32,
        dest_chain: u32,
        dest_amount_per_unit: u128,
        allow_partial_fills: bool,
        max_fills: u32,
        sender_cross_address: Option<Vec<u8>>,
        receiver_cross_address: Option<Vec<u8>>,
    ) -> (r: Result<PartialFillOrderCreated, Error>)
        requires
            old(self).wf(),
        ensures
            final(self).wf(),
            match r {
                Err(e) => *final(self) == *old(self) && Self::spec_create_err(
                    *old(self),
                    caller,
                    now,
                    transferred_value,
                    total_amount,
                    min_fill_amount,
                    hashlock,
                    timelock,
                    swap_id,
                    source_chain,
                    dest_chain,
                    max_fills,
                ) == Some(e),
                Ok(ev) => Self::spec_create_err(
                    *old(self),
                    caller,
                    now,
                    transferred_value,
                    total_amount,
                    min_fill_amount,
                    hashlock,
                    timelock,
                    swap_id,
                    source_chain,
                    dest_chain,
                    max_fills,
                ) is None && ({
                    let fee = Self::spec_fee(total_amount, old(self).protocol_fee_bps);
                    let net = total_amount - fee;
                    let oid = Self::spec_created_order_id(
                        *old(self),
                        caller,
                        total_amount,
                        hashlock,
                        timelock,
                        swap_id,
                    );
                    &&& ev.order_id@ == oid
                    &&& ev.maker == caller
                    &&& ev.total_amount as int == net
                    &&& ev.min_fill_amount == min_fill_amount
                    &&& ev.hashlock == hashlock
                    &&& ev.timelock == timelock
                    &&& ev.swap_id == swap_id
                    &&& ev.source_chain == source_chain
                    &&& ev.dest_chain == dest_chain
                    &&& ev.dest_amount_per_unit == dest_amount_per_unit
                    &&& ev.allow_partial_fills == allow_partial_fills
                    &&& ev.max_fills == max_fills
                    &&& final(self).order_counter == old(self).order_counter + 1
                    &&& final(self).protocol_fees == old(self).protocol_fees + fee
                    &&& final(self).fills == old(self).fills
                    &&& final(self).address_mappings == old(self).address_mappings
                    &&& final(self).admin == old(self).admin
                    &&& final(self).protocol_fee_bps == old(self).protocol_fee_bps
                    &&& final(self).min_timelock == old(self).min_timelock
                    &&& final(self).max_timelock == old(self).max_timelock
                    &&& final(self).fill_counter == old(self).fill_counter
                    &&& spec_find_order(final(self).orders@, oid) matches Some(entry)
                        && entry.id@ == oid && entry.fill_ids@.len() == 0 && entry.order
                        == (PartialFillOrder {
                        maker: caller,
                        total_amount: net as u128,
                        filled_amount: 0,
                        min_fill_amount,
                        hashlock,
                        timelock,
                        cancelled: false,
                        swap_id,
                        source_chain,
                        dest_chain,
                        dest_amount_per_unit,
                        fee: fee as u128,
                        allow_partial_fills,
                        max_fills,
                        current_fills: 0,
                        sender_cross_address,
                        receiver_cross_address,
                    })
                    &&& forall|k: Seq<u8>|
                        k != oid ==> spec_find_order(final(self).orders@, k) == spec_find_order(
                            old(self).orders@,
                            k,
                        )
                }),
            },
    {
        if transferred_value == 0 {
            return Err(Error::InsufficientFunds);
        }
        match self.validate_order_params(
            total_amount,
            min_fill_amount,
            timelock,
            source_chain,
            dest_chain,
            max_fills,
            now,
        ) {
            Err(e) => {
                return Err(e);
            },
            Ok(_) => {},
        }
        if transferred_value < total_amount {
            return Err(Error::InsufficientFunds);
        }
        if self.order_counter == u64::MAX {
            return Err(Error::ArithmeticOverflow);
        }
        let new_counter = self.order_counter + 1;
        let (net_amount, fee) = match self.calculate_fees(total_amount) {
            Ok(p) => p,
            Err(e) => {
                return Err(e);
            },
        };
        let order_id = crate::ids::generate_order_id(
            &caller,
            net_amount,
            &hashlock,
            timelock,
            &swap_id,
            new_counter,
        );
        match find_order_index(&self.orders, &order_id) {
            Some(_) => {
                return Err(Error::OrderAlreadyExists);
            },
            None => {},
        }
        let new_fees = match self.protocol_fees.checked_add(fee) {
            Some(nf) => nf,
            None => {
                return Err(Error::ArithmeticOverflow);
            },
        };
        self.order_counter = new_counter;
        self.protocol_fees = new_fees;
        let order = PartialFillOrder {
            maker: caller,
            total_amount: net_amount,
            filled_amount: 0,
            min_fill_amount,
            hashlock,
            timelock,
            cancelled: false,
            swap_id,
            source_chain,
            dest_chain,
            dest_amount_per_unit,
            fee,
            allow_partial_fills,
            max_fills,
            current_fills: 0,
            sender_cross_address,
            receiver_cross_address,
        };
        let ghost pre = *old(self);
        let ghost pre_orders = self.orders@;
        let ghost oid = order_id@;
        let entry = OrderEntry { id: order_id, order, fill_ids: Vec::new() };
        let ghost entry_g = entry;
        self.orders.push(entry);
        proof {
            crate::store::lemma_find_order_push(pre_orders, entry_g, oid);
            assert forall|k: Seq<u8>| k != oid implies spec_find_order(self.orders@, k)
                == spec_find_order(pre_orders, k) by {
                crate::store::lemma_find_order_push(pre_orders, entry_g, k);
            }
            crate::store::lemma_find_order_none_iff(pre_orders, oid);
            assert forall|m: int, n: int| 0 <= m < n < self.orders@.len() implies self.orders@[m].id@
                != self.orders@[n].id@ by {
                if n < pre_orders.len() {
                    assert(self.orders@[m] == pre_orders[m]);
                    assert(self.orders@[n] == pre_orders[n]);
                } else {
                    assert(self.orders@[m] == pre_orders[m]);
                    assert(self.orders@[n] == entry_g);
                }
            }
            assert forall|j: int| 0 <= j < self.fills@.len() implies self.fills@[j].fill.order_id@
                != oid by {
                assert(fill_entry_ok(self.fills@[j], pre_orders));
            }
            crate::store::lemma_accounting_no_match(self.fills@, oid);
            assert(entry_g.fill_ids@.map_values(|b: [u8; 32]| b@) =~= fill_ids_for(
                self.fills@,
                oid,
            ));
            assert(order_entry_ok(entry_g, self.fills@));
            assert forall|i: int| 0 <= i < self.orders@.len() implies order_entry_ok(
                #[trigger] self.orders@[i],
                self.fills@,
            ) by {
                if i < pre_orders.len() {
                    assert(self.orders@[i] == pre_orders[i]);
                    assert(order_entry_ok(pre_orders[i], self.fills@));
                }
            }
            assert forall|j: int| 0 <= j < self.fills@.len() implies fill_entry_ok(
                #[trigger] self.fills@[j],
                self.orders@,
            ) by {
                assert(fill_entry_ok(self.fills@[j], pre_orders));
                crate::store::lemma_find_order_push(
                    pre_orders,
                    entry_g,
                    self.fills@[j].fill.order_id@,
                );
            }
        }
        Ok(PartialFillOrderCreated {
            order_id,
            maker: caller,
            total_amount: net_amount,
            min_fill_amount,
            hashlock,
            timelock,
            swap_id,
            source_chain,
            dest_chain,
            dest_amount_per_unit,
            allow_partial_fills,
            max_fills,
        })
    }

    /// First rejection, if any, among the fill-eligibility checks: order
    /// open, timelock not expired, capacity left, a positive request.
    pub open spec fn spec_fill_request_err(
        o: PartialFillOrder,
        fill_amount: u128,
        now: u32,
    ) -> Option<Error> {
        if o.cancelled {
            Some(Error::OrderCancelled)
        } else if now >= o.timelock {
            Some(Error::TimelockExpired)
        } else if o.filled_amount >= o.total_amount {
            Some(Error::OrderCompleted)
        } else if o.current_fills >= o.max_fills {
            Some(Error::MaxFillsReached)
        } else if fill_amount == 0 {
            Some(Error::InvalidFillAmount)
        } else {
            None
        }
    }

    /// Check a fill request against the order, at ledger time `now`.
    pub fn validate_fill_request(
        &self,
        order: &PartialFillOrder,
        fill_amount: u128,
        now: u32,
    ) -> (r: Result<(), Error>)
        ensures
            r == (match Self::spec_fill_request_err(*order, fill_amount, now) {
                Some(e) => Err::<(), Error>(e),
                None => Ok::<(), Error>(()),
            }),
    {
        if order.cancelled {
            return Err(Error::OrderCancelled);
        }
        if now >= order.timelock {
            return Err(Error::TimelockExpired);
        }
        if order.filled_amount >= order.total_amount {
            return Err(Error::OrderCompleted);
        }
        if order.current_fills >= order.max_fills {
            return Err(Error::MaxFillsReached);
        }
        if fill_amount == 0 {
            return Err(Error::InvalidFillAmount);
        }
        Ok(())
    }

    /// The amount a fill request actually claims: the request, clamped down
    /// to the order's remaining amount.
    pub open spec fn spec_clamped(o: PartialFillOrder, fill_amount: u128) -> int {
        let remaining = o.total_amount - o.filled_amount;
        if fill_amount > remaining {
            remaining
        } else {
            fill_amount as int
        }
    }

    /// First rejection, if any, of a fill, in the order the checks are
    /// made: unknown order, eligibility, fill-size policy, identifier
    /// collision, counter overflow, destination-amount overflow.
    pub open spec fn spec_fill_err(
        pre: Self,
        order_id: [u8; 32],
        fill_amount: u128,
        caller: Address,
        now: u32,
        timestamp: u64,
    ) -> Option<Error> {
        match spec_find_order(pre.orders@, order_id@) {
            None => Some(Error::OrderNotFound),
            Some(e) => {
                let o = e.order;
                let req = Self::spec_fill_request_err(o, fill_amount, now);
                if req is Some {
                    req
                } else {
                    let remaining = o.total_amount - o.filled_amount;
                    let actual = Self::spec_clamped(o, fill_amount);
                    if actual < o.min_fill_amount && remaining >= o.min_fill_amount {
                        Some(Error::FillAmountTooSmall)
                    } else if !o.allow_partial_fills && actual < remaining {
                        Some(Error::PartialFillsNotAllowed)
                    } else if spec_find_fill(
                        pre.fills@,
                        crate::ids::spec_fill_id(
                            order_id@,
                            caller.bytes(),
                            actual as u128,
                            timestamp,
                            now,
                        ),
                    ) is Some {
                        Some(Error::OrderAlreadyExists)
                    } else if pre.fill_counter == u64::MAX {
                        Some(Error::ArithmeticOverflow)
                    } else if actual * (o.dest_amount_per_unit as int) > u128::MAX {
                        Some(Error::ArithmeticOverflow)
                    } else {
                        None
                    }
                }
            },
        }
    }

    /// Fill an order. `caller` is the taker, `now` the current block and
    /// `timestamp` the current ledger timestamp; both feed identifier
    /// derivation. A request above the remaining amount is clamped down to
    /// it; below the order's minimum it is accepted only as a final fill of
    /// a remainder already under that minimum. On success the fill is
    /// recorded, the order's accounting grows by the claimed amount, and
    /// the fill event is returned; on any rejection nothing changes. The
    /// `receiver` is the counterparty address reported to the destination
    /// side; this ledger does not act on it.
    #[verifier::rlimit(30)]
    pub fn fill_order(
        &mut self,
        caller: Address,
        now: u32,
        timestamp: u64,
        order_id: [u8; 32],
        fill_amount: u128,
        receiver: Address,
    ) -> (r: Result<OrderFilled, Error>)
        requires
            old(self).wf(),
        ensures
            final(self).wf(),
            match r {
                Err(e) => *final(self) == *old(self) && Self::spec_fill_err(
                    *old(self),
                    order_id,
                    fill_amount,
                    caller,
                    now,
                    timestamp,
                ) == Some(e),
                Ok(ev) => ({
                    &&& Self::spec_fill_err(
                        *old(self),
                        order_id,
                        fill_amount,
                        caller,
                        now,
                        timestamp,
                    ) is None
                    &&& spec_find_order(old(self).orders@, order_id@) matches Some(oe) && ({
                    let o = oe.order;
                    let remaining = o.total_amount - o.filled_amount;
                    let actual = Self::spec_clamped(o, fill_amount);
                    &&& ev.order_id == order_id
                    &&& ev.taker == caller
                    &&& ev.fill_amount as int == actual
                    &&& ev.fill_id@ == crate::ids::spec_fill_id(
                        order_id@,
                        caller.bytes(),
                        actual as u128,
                        timestamp,
                        now,
                    )
                    &&& ev.contract_id@ == crate::ids::spec_contract_id(
                        order_id@,
                        ev.fill_id@,
                        timestamp,
                        (old(self).fill_counter + 1) as u64,
                    )
                    &&& ev.dest_amount as int == (actual * o.dest_amount_per_unit)
                        / 1000000000000
                    &&& final(self).fill_counter == old(self).fill_counter + 1
                    &&& final(self).order_counter == old(self).order_counter
                    &&& final(self).protocol_fees == old(self).protocol_fees
                    &&& final(self).protocol_fee_bps == old(self).protocol_fee_bps
                    &&& final(self).admin == old(self).admin
                    &&& final(self).min_timelock == old(self).min_timelock
                    &&& final(self).max_timelock == old(self).max_timelock
                    &&& final(self).address_mappings == old(self).address_mappings
                    &&& spec_find_fill(final(self).fills@, ev.fill_id@) matches Some(fe)
                        && fe.id == ev.fill_id && fe.fill == (FillExecution {
                        order_id,
                        taker: caller,
                        fill_amount: actual as u128,
                        contract_id: ev.contract_id,
                        withdrawn: false,
                        refunded: false,
                        preimage: None,
                        timestamp,
                    })
                    &&& forall|k: Seq<u8>|
                        k != ev.fill_id@ ==> spec_find_fill(final(self).fills@, k)
                            == spec_find_fill(old(self).fills@, k)
                    &&& spec_find_order(final(self).orders@, order_id@) matches Some(ne)
                        && ne.id == oe.id && ne.order == (PartialFillOrder {
                        filled_amount: (o.filled_amount + actual) as u128,
                        current_fills: (o.current_fills + 1) as u32,
                        ..o
                    }) && ne.fill_ids@ == oe.fill_ids@.push(ev.fill_id)
                    &&& forall|k: Seq<u8>|
                        k != order_id@ ==> spec_find_order(final(self).orders@, k)
                            == spec_find_order(old(self).orders@, k)
                })
                }),
            },
    {
        let oi = match find_order_index(&self.orders, &order_id) {
            Some(i) => i,
            None => {
                return Err(Error::OrderNotFound);
            },
        };
        match self.validate_fill_request(&self.orders[oi].order, fill_amount, now) {
            Err(e) => {
                return Err(e);
            },
            Ok(_) => {},
        }
        proof {
            assert(order_entry_ok(self.orders@[oi as int], self.fills@));
        }
        let o_total = self.orders[oi].order.total_amount;
        let o_filled = self.orders[oi].order.filled_amount;
        let o_min_fill = self.orders[oi].order.min_fill_amount;
        let o_current = self.orders[oi].order.current_fills;
        let o_allow_partial = self.orders[oi].order.allow_partial_fills;
        let o_rate = self.orders[oi].order.dest_amount_per_unit;
        let remaining = o_total - o_filled;
        let actual = if fill_amount > remaining {
            remaining
        } else {
            fill_amount
        };
        if actual < o_min_fill && remaining >= o_min_fill {
            return Err(Error::FillAmountTooSmall);
        }
        if !o_allow_partial && actual < remaining {
            return Err(Error::PartialFillsNotAllowed);
        }
        let fill_id = crate::ids::generate_fill_id(&order_id, &caller, actual, timestamp, now);
        match find_fill_index(&self.fills, &fill_id) {
            Some(_) => {
                return Err(Error::OrderAlreadyExists);
            },
            None => {},
        }
        if self.fill_counter == u64::MAX {
            return Err(Error::ArithmeticOverflow);
        }
        let new_counter = self.fill_counter + 1;
        let contract_id = crate::ids::generate_contract_id(
            &order_id,
            &fill_id,
            timestamp,
            new_counter,
        );
        let dest_amount = match actual.checked_mul(o_rate) {
            Some(p) => p / 1000000000000u128,
            None => {
                return Err(Error::ArithmeticOverflow);
            },
        };
        self.fill_counter = new_counter;
        let fe = FillEntry {
            id: fill_id,
            fill: FillExecution {
                order_id,
                taker: caller,
                fill_amount: actual,
                contract_id,
                withdrawn: false,
                refunded: false,
                preimage: None,
                timestamp,
            },
        };
        let ghost fe_g = fe;
        let ghost pre_fills = self.fills@;
        let ghost pre_orders = self.orders@;
        let ghost oid = order_id@;
        self.fills.push(fe);
        let e = order_at_mut(&mut self.orders, oi);
        e.order.filled_amount = o_filled + actual;
        e.order.current_fills = o_current + 1;
        e.fill_ids.push(fill_id);
        proof {
            let post_fills = self.fills@;
            let post_orders = self.orders@;
            let ghost ne = post_orders[oi as int];
            assert(post_fills == pre_fills.push(fe_g));
            assert(post_orders =~= pre_orders.update(oi as int, ne));
            assert(ne.id@ == oid);
            // fill-store uniqueness and lookup
            crate::store::lemma_find_fill_none_iff(pre_fills, fill_id@);
            assert forall|m: int, n: int| 0 <= m < n < post_fills.len() implies post_fills[m].id@
                != post_fills[n].id@ by {
                if n < pre_fills.len() {
                    assert(post_fills[m] == pre_fills[m]);
                    assert(post_fills[n] == pre_fills[n]);
                } else {
                    assert(post_fills[m] == pre_fills[m]);
                    assert(post_fills[n] == fe_g);
                }
            }
            crate::store::lemma_find_fill_push(pre_fills, fe_g, fill_id@);
            assert forall|k: Seq<u8>| k != fill_id@ implies spec_find_fill(post_fills, k)
                == spec_find_fill(pre_fills, k) by {
                crate::store::lemma_find_fill_push(pre_fills, fe_g, k);
            }
            // order-store uniqueness and lookup
            crate::store::lemma_find_order_update(pre_orders, oi as int, ne, oid);
            assert forall|k: Seq<u8>| k != oid implies spec_find_order(post_orders, k)
                == spec_find_order(pre_orders, k) by {
                crate::store::lemma_find_order_update(pre_orders, oi as int, ne, k);
            }
            // accounting of the filled order
            crate::store::lemma_accounting_push(pre_fills, fe_g, oid);
            assert(ne.fill_ids@ == pre_orders[oi as int].fill_ids@.push(fill_id));
            assert(ne.fill_ids@.map_values(|b: [u8; 32]| b@) =~= pre_orders[oi as int].fill_ids@.map_values(
                |b: [u8; 32]| b@,
            ).push(fill_id@));
            assert(fill_ids_for(post_fills, oid) =~= fill_ids_for(pre_fills, oid).push(fill_id@));
            assert(order_entry_ok(ne, post_fills));
            // accounting of the other orders
            assert forall|i: int| 0 <= i < post_orders.len() implies order_entry_ok(
                #[trigger] post_orders[i],
                post_fills,
            ) by {
                if i != oi as int {
                    assert(post_orders[i] == pre_orders[i]);
                    assert(order_entry_ok(pre_orders[i], pre_fills));
                    assert(pre_orders[i].id@ != oid);
                    crate::store::lemma_accounting_push(pre_fills, fe_g, pre_orders[i].id@);
                    assert(fill_ids_for(post_fills, pre_orders[i].id@) =~= fill_ids_for(
                        pre_fills,
                        pre_orders[i].id@,
                    ));
                }
            }
            // every fill still points at a stored order
            assert forall|j: int| 0 <= j < post_fills.len() implies fill_entry_ok(
                #[trigger] post_fills[j],
                post_orders,
            ) by {
                if j < pre_fills.len() {
                    assert(post_fills[j] == pre_fills[j]);
                    assert(fill_entry_ok(pre_fills[j], pre_orders));
                    crate::store::lemma_find_order_update(
                        pre_orders,
                        oi as int,
                        ne,
                        pre_fills[j].fill.order_id@,
                    );
                } else {
                    assert(post_fills[j] == fe_g);
                }
            }
        }
        Ok(OrderFilled {
            order_id,
            fill_id,
            taker: caller,
            fill_amount: actual,
            dest_amount,
            contract_id,
        })
    }

    /// First rejection, if any, among the withdrawal checks: the caller
    /// must be the taker, the fill still open, the timelock not expired.
    pub open spec fn spec_withdrawal_auth_err(
        f: FillExecution,
        o: PartialFillOrder,
        caller: Address,
        now: u32,
    ) -> Option<Error> {
        if caller.bytes() != f.taker.bytes() {
            Some(Error::UnauthorizedWithdraw)
        } else if f.withdrawn || f.refunded {
            Some(Error::AlreadyProcessed)
        } else if now >= o.timelock {
            Some(Error::TimelockExpired)
        } else {
            None
        }
    }

    /// Check withdrawal authorization and timing.
    pub fn validate_fill_withdrawal(
        &self,
        fill: &FillExecution,
        order: &PartialFillOrder,
        caller: &Address,
        now: u32,
    ) -> (r: Result<(), Error>)
        ensures
            r == (match Self::spec_withdrawal_auth_err(*fill, *order, *caller, now) {
                Some(e) => Err::<(), Error>(e),
                None => Ok::<(), Error>(()),
            }),
    {
        if !crate::bytes::bytes_eq(&caller.0, &fill.taker.0) {
            return Err(Error::UnauthorizedWithdraw);
        }
        if fill.withdrawn || fill.refunded {
            return Err(Error::AlreadyProcessed);
        }
        if now >= order.timelock {
            return Err(Error::TimelockExpired);
        }
        Ok(())
    }

    /// First rejection, if any, among the refund checks: the caller must be
    /// the order's maker, the fill still open, the timelock expired.
    pub open spec fn spec_refund_auth_err(
        f: FillExecution,
        o: PartialFillOrder,
        caller: Address,
        now: u32,
    ) -> Option<Error> {
        if caller.bytes() != o.maker.bytes() {
            Some(Error::UnauthorizedRefund)
        } else if f.withdrawn || f.refunded {
            Some(Error::AlreadyProcessed)
        } else if now < o.timelock {
            Some(Error::TimelockNotExpired)
        } else {
            None
        }
    }

    /// Check refund authorization and timing.
    pub fn validate_fill_refund(
        &self,
        fill: &FillExecution,
        order: &PartialFillOrder,
        caller: &Address,
        now: u32,
    ) -> (r: Result<(), Error>)
        ensures
            r == (match Self::spec_refund_auth_err(*fill, *order, *caller, now) {
                Some(e) => Err::<(), Error>(e),
                None => Ok::<(), Error>(()),
            }),
    {
        if !crate::bytes::bytes_eq(&caller.0, &order.maker.0) {
            return Err(Error::UnauthorizedRefund);
        }
        if fill.withdrawn || fill.refunded {
            return Err(Error::AlreadyProcessed);
        }
        if now < order.timelock {
            return Err(Error::TimelockNotExpired);
        }
        Ok(())
    }

    /// Check a revealed secret against the order's hashlock, by exact
    /// equality of the hash of the preimage.
    pub fn validate_preimage(&self, order: &PartialFillOrder, preimage: &[u8; 32]) -> (r: Result<
        (),
        Error,
    >)
        ensures
            r == (if crate::hash::sha256_of(preimage@) == order.hashlock@ {
                Ok::<(), Error>(())
            } else {
                Err::<(), Error>(Error::InvalidHashlock)
            }),
    {
        let digest = crate::hash::compute_sha256(preimage.as_slice());
        if crate::bytes::bytes_eq(&digest, &order.hashlock) {
            Ok(())
        } else {
            Err(Error::InvalidHashlock)
        }
    }

    /// First rejection, if any, of a withdrawal, in the order the checks
    /// are made: unknown fill or order, authorization and timing, then the
    /// secret.
    pub open spec fn spec_withdraw_err(
        pre: Self,
        fill_id: [u8; 32],
        preimage: [u8; 32],
        caller: Address,
        now: u32,
    ) -> Option<Error> {
        match spec_find_fill(pre.fills@, fill_id@) {
            None => Some(Error::FillNotFound),
            Some(fe) => match spec_find_order(pre.orders@, fe.fill.order_id@) {
                None => Some(Error::OrderNotFound),
                Some(oe) => {
                    let auth = Self::spec_withdrawal_auth_err(fe.fill, oe.order, caller, now);
                    if auth is Some {
                        auth
                    } else if crate::hash::sha256_of(preimage@) != oe.order.hashlock@ {
                        Some(Error::InvalidHashlock)
                    } else {
                        None
                    }
                },
            },
        }
    }

    /// Withdraw a fill by revealing the secret. Succeeds exactly for the
    /// fill's taker, on an open fill, strictly before the order's timelock,
    /// with a preimage whose hash equals the hashlock; the fill is then
    /// closed as withdrawn, the secret recorded, and the fill amount is
    /// handed to the host to transfer to the taker. On any rejection
    /// nothing changes.
    pub fn withdraw_fill(
        &mut self,
        caller: Address,
        now: u32,
        fill_id: [u8; 32],
        preimage: [u8; 32],
    ) -> (r: Result<(FillWithdrawn, Transfer), Error>)
        requires
            old(self).wf(),
        ensures
            final(self).wf(),
            match r {
                Err(e) => *final(self) == *old(self) && Self::spec_withdraw_err(
                    *old(self),
                    fill_id,
                    preimage,
                    caller,
                    now,
                ) == Some(e),
                Ok((ev, t)) => ({
                    &&& Self::spec_withdraw_err(*old(self), fill_id, preimage, caller, now)
                        is None
                    &&& spec_find_fill(old(self).fills@, fill_id@) matches Some(fe) && ({
                        &&& t.to == fe.fill.taker
                        &&& t.amount == fe.fill.fill_amount
                        &&& ev.fill_id == fill_id
                        &&& ev.secret == preimage
                        &&& ev.taker == fe.fill.taker
                        &&& spec_find_fill(final(self).fills@, fill_id@) matches Some(nf)
                            && nf.id == fe.id && nf.fill == (FillExecution {
                            withdrawn: true,
                            preimage: Some(preimage),
                            ..fe.fill
                        })
                        &&& forall|k: Seq<u8>|
                            k != fill_id@ ==> spec_find_fill(final(self).fills@, k)
                                == spec_find_fill(old(self).fills@, k)
                    })
                    &&& final(self).orders == old(self).orders
                    &&& final(self).address_mappings == old(self).address_mappings
                    &&& final(self).admin == old(self).admin
                    &&& final(self).protocol_fee_bps == old(self).protocol_fee_bps
                    &&& final(self).protocol_fees == old(self).protocol_fees
                    &&& final(self).min_timelock == old(self).min_timelock
                    &&& final(self).max_timelock == old(self).max_timelock
                    &&& final(self).order_counter == old(self).order_counter
                    &&& final(self).fill_counter == old(self).fill_counter
                }),
            },
    {
        let fi = match find_fill_index(&self.fills, &fill_id) {
            Some(i) => i,
            None => {
                return Err(Error::FillNotFound);
            },
        };
        let owner_id = self.fills[fi].fill.order_id;
        let oi = match find_order_index(&self.orders, &owner_id) {
            Some(i) => i,
            None => {
                return Err(Error::OrderNotFound);
            },
        };
        match self.validate_fill_withdrawal(
            &self.fills[fi].fill,
            &self.orders[oi].order,
            &caller,
            now,
        ) {
            Err(e) => {
                return Err(e);
            },
            Ok(_) => {},
        }
        match self.validate_preimage(&self.orders[oi].order, &preimage) {
            Err(e) => {
                return Err(e);
            },
            Ok(_) => {},
        }
        let taker = self.fills[fi].fill.taker;
        let amount = self.fills[fi].fill.fill_amount;
        let ghost pre_fills = self.fills@;
        let e = fill_at_mut(&mut self.fills, fi);
        e.fill.withdrawn = true;
        e.fill.preimage = Some(preimage);
        proof {
            let post_fills = self.fills@;
            let nf = post_fills[fi as int];
            assert(post_fills =~= pre_fills.update(fi as int, nf));
            crate::store::lemma_find_fill_update(pre_fills, fi as int, nf, fill_id@);
            assert forall|k: Seq<u8>| k != fill_id@ implies spec_find_fill(post_fills, k)
                == spec_find_fill(pre_fills, k) by {
                crate::store::lemma_find_fill_update(pre_fills, fi as int, nf, k);
            }
            assert forall|i: int| 0 <= i < self.orders@.len() implies order_entry_ok(
                #[trigger] self.orders@[i],
                post_fills,
            ) by {
                assert(order_entry_ok(self.orders@[i], pre_fills));
                crate::store::lemma_accounting_update(pre_fills, fi as int, nf, self.orders@[i].id@);
            }
            assert forall|j: int| 0 <= j < post_fills.len() implies fill_entry_ok(
                #[trigger] post_fills[j],
                self.orders@,
            ) by {
                if j != fi as int {
                    assert(post_fills[j] == pre_fills[j]);
                }
                assert(fill_entry_ok(pre_fills[j], self.orders@));
            }
        }
        Ok((FillWithdrawn { fill_id, secret: preimage, taker }, Transfer { to: taker, amount }))
    }

    /// First rejection, if any, of a refund, in the order the checks are
    /// made: unknown fill or order, then authorization and timing.
    pub open spec fn spec_refund_err(
        pre: Self,
        fill_id: [u8; 32],
        caller: Address,
        now: u32,
    ) -> Option<Error> {
        match spec_find_fill(pre.fills@, fill_id@) {
            None => Some(Error::FillNotFound),
            Some(fe) => match spec_find_order(pre.orders@, fe.fill.order_id@) {
                None => Some(Error::OrderNotFound),
                Some(oe) => Self::spec_refund_auth_err(fe.fill, oe.order, caller, now),
            },
        }
    }

    /// Refund a fill after the timelock has expired. Succeeds exactly for
    /// the order's maker, on an open fill, at or after the timelock; the
    /// fill is then closed as refunded, the order's filled amount and fill
    /// count shrink back (restoring capacity), and the fill amount is
    /// handed to the host to transfer to the maker. On any rejection
    /// nothing changes.
    pub fn refund_fill(&mut self, caller: Address, now: u32, fill_id: [u8; 32]) -> (r: Result<
        (FillRefunded, Transfer),
        Error,
    >)
        requires
            old(self).wf(),
        ensures
            final(self).wf(),
            match r {
                Err(e) => *final(self) == *old(self) && Self::spec_refund_err(
                    *old(self),
                    fill_id,
                    caller,
                    now,
                ) == Some(e),
                Ok((ev, t)) => ({
                    &&& Self::spec_refund_err(*old(self), fill_id, caller, now) is None
                    &&& spec_find_fill(old(self).fills@, fill_id@) matches Some(fe) && ({
                        &&& spec_find_order(old(self).orders@, fe.fill.order_id@) matches Some(
                            oe,
                        ) && ({
                            &&& t.to == oe.order.maker
                            &&& t.amount == fe.fill.fill_amount
                            &&& ev.fill_id == fill_id
                            &&& ev.maker == oe.order.maker
                            &&& spec_find_fill(final(self).fills@, fill_id@) matches Some(nf)
                                && nf.id == fe.id && nf.fill == (FillExecution {
                                refunded: true,
                                ..fe.fill
                            })
                            &&& forall|k: Seq<u8>|
                                k != fill_id@ ==> spec_find_fill(final(self).fills@, k)
                                    == spec_find_fill(old(self).fills@, k)
                            &&& spec_find_order(final(self).orders@, fe.fill.order_id@) matches Some(
                                ne,
                            ) && ne.id == oe.id && ne.order == (PartialFillOrder {
                                filled_amount: (oe.order.filled_amount - fe.fill.fill_amount)
                                    as u128,
                                current_fills: (oe.order.current_fills - 1) as u32,
                                ..oe.order
                            }) && ne.fill_ids@ == oe.fill_ids@
                            &&& forall|k: Seq<u8>|
                                k != fe.fill.order_id@ ==> spec_find_order(
                                    final(self).orders@,
                                    k,
                                ) == spec_find_order(old(self).orders@, k)
                        })
                    })
                    &&& final(self).address_mappings == old(self).address_mappings
                    &&& final(self).admin == old(self).admin
                    &&& final(self).protocol_fee_bps == old(self).protocol_fee_bps
                    &&& final(self).protocol_fees == old(self).protocol_fees
                    &&& final(self).min_timelock == old(self).min_timelock
                    &&& final(self).max_timelock == old(self).max_timelock
                    &&& final(self).order_counter == old(self).order_counter
                    &&& final(self).fill_counter == old(self).fill_counter
                }),
            },
    {
        let fi = match find_fill_index(&self.fills, &fill_id) {
            Some(i) => i,
            None => {
                return Err(Error::FillNotFound);
            },
        };
        let owner_id = self.fills[fi].fill.order_id;
        let oi = match find_order_index(&self.orders, &owner_id) {
            Some(i) => i,
            None => {
                return Err(Error::OrderNotFound);
            },
        };
        match self.validate_fill_refund(&self.fills[fi].fill, &self.orders[oi].order, &caller, now)
        {
            Err(e) => {
                return Err(e);
            },
            Ok(_) => {},
        }
        let amount = self.fills[fi].fill.fill_amount;
        let maker = self.orders[oi].order.maker;
        let o_filled = self.orders[oi].order.filled_amount;
        let o_current = self.orders[oi].order.current_fills;
        proof {
            assert(order_entry_ok(self.orders@[oi as int], self.fills@));
            crate::store::lemma_accounting_member(self.fills@, fi as int, self.orders@[oi as int].id@);
        }
        let ghost pre_fills = self.fills@;
        let ghost pre_orders = self.orders@;
        let ghost oid = owner_id@;
        let e = fill_at_mut(&mut self.fills, fi);
        e.fill.refunded = true;
        let oe_mut = order_at_mut(&mut self.orders, oi);
        oe_mut.order.filled_amount = o_filled - amount;
        oe_mut.order.current_fills = o_current - 1;
        proof {
            let post_fills = self.fills@;
            let post_orders = self.orders@;
            let nf = post_fills[fi as int];
            let ne = post_orders[oi as int];
            assert(post_fills =~= pre_fills.update(fi as int, nf));
            assert(post_orders =~= pre_orders.update(oi as int, ne));
            crate::store::lemma_find_fill_update(pre_fills, fi as int, nf, fill_id@);
            assert forall|k: Seq<u8>| k != fill_id@ implies spec_find_fill(post_fills, k)
                == spec_find_fill(pre_fills, k) by {
                crate::store::lemma_find_fill_update(pre_fills, fi as int, nf, k);
            }
            crate::store::lemma_find_order_update(pre_orders, oi as int, ne, oid);
            assert forall|k: Seq<u8>| k != oid implies spec_find_order(post_orders, k)
                == spec_find_order(pre_orders, k) by {
                crate::store::lemma_find_order_update(pre_orders, oi as int, ne, k);
            }
            assert forall|i: int| 0 <= i < post_orders.len() implies order_entry_ok(
                #[trigger] post_orders[i],
                post_fills,
            ) by {
                assert(order_entry_ok(pre_orders[i], pre_fills));
                crate::store::lemma_accounting_update(pre_fills, fi as int, nf, pre_orders[i].id@);
                if i != oi as int {
                    assert(post_orders[i] == pre_orders[i]);
                    assert(pre_orders[i].id@ != oid);
                }
            }
            assert forall|j: int| 0 <= j < post_fills.len() implies fill_entry_ok(
                #[trigger] post_fills[j],
                post_orders,
            ) by {
                if j != fi as int {
                    assert(post_fills[j] == pre_fills[j]);
                }
                assert(fill_entry_ok(pre_fills[j], pre_orders));
                crate::store::lemma_find_order_update(
                    pre_orders,
                    oi as int,
                    ne,
                    pre_fills[j].fill.order_id@,
                );
            }
        }
        Ok((FillRefunded { fill_id, maker }, Transfer { to: maker, amount }))
    }

    /// First rejection, if any, of a cancellation: unknown order, a caller
    /// other than the maker, or an order already cancelled.
    pub open spec fn spec_cancel_err(pre: Self, order_id: [u8; 32], caller: Address) -> Option<
        Error,
    > {
        match spec_find_order(pre.orders@, order_id@) {
            None => Some(Error::OrderNotFound),
            Some(oe) => {
                if caller.bytes() != oe.order.maker.bytes() {
                    Some(Error::UnauthorizedRefund)
                } else if oe.order.cancelled {
                    Some(Error::OrderCancelled)
                } else {
                    None
                }
            },
        }
    }

    /// Cancel an order; maker only, once. The never-claimed remainder, if
    /// any, is handed to the host to transfer back to the maker. Fills
    /// already created keep their own withdraw/refund life cycle. On any
    /// rejection nothing changes.
    pub fn cancel_order(&mut self, caller: Address, order_id: [u8; 32]) -> (r: Result<
        (OrderCancelledEvent, Option<Transfer>),
        Error,
    >)
        requires
            old(self).wf(),
        ensures
            final(self).wf(),
            match r {
                Err(e) => *final(self) == *old(self) && Self::spec_cancel_err(
                    *old(self),
                    order_id,
                    caller,
                ) == Some(e),
                Ok((ev, t)) => ({
                    &&& Self::spec_cancel_err(*old(self), order_id, caller) is None
                    &&& ev.order_id == order_id
                    &&& spec_find_order(old(self).orders@, order_id@) matches Some(oe) && ({
                        &&& t == (if oe.order.total_amount > oe.order.filled_amount {
                            Some(
                                Transfer {
                                    to: oe.order.maker,
                                    amount: (oe.order.total_amount - oe.order.filled_amount)
                                        as u128,
                                },
                            )
                        } else {
                            None::<Transfer>
                        })
                        &&& spec_find_order(final(self).orders@, order_id@) matches Some(ne)
                            && ne.id == oe.id && ne.order == (PartialFillOrder {
                            cancelled: true,
                            ..oe.order
                        }) && ne.fill_ids@ == oe.fill_ids@
                        &&& forall|k: Seq<u8>|
                            k != order_id@ ==> spec_find_order(final(self).orders@, k)
                                == spec_find_order(old(self).orders@, k)
                    })
                    &&& final(self).fills == old(self).fills
                    &&& final(self).address_mappings == old(self).address_mappings
                    &&& final(self).admin == old(self).admin
                    &&& final(self).protocol_fee_bps == old(self).protocol_fee_bps
                    &&& final(self).protocol_fees == old(self).protocol_fees
                    &&& final(self).min_timelock == old(self).min_timelock
                    &&& final(self).max_timelock == old(self).max_timelock
                    &&& final(self).order_counter == old(self).order_counter
                    &&& final(self).fill_counter == old(self).fill_counter
                }),
            },
    {
        let oi = match find_order_index(&self.orders, &order_id) {
            Some(i) => i,
            None => {
                return Err(Error::OrderNotFound);
            },
        };
        if !crate::bytes::bytes_eq(&caller.0, &self.orders[oi].order.maker.0) {
            return Err(Error::UnauthorizedRefund);
        }
        if self.orders[oi].order.cancelled {
            return Err(Error::OrderCancelled);
        }
        proof {
            assert(order_entry_ok(self.orders@[oi as int], self.fills@));
        }
        let maker = self.orders[oi].order.maker;
        let o_total = self.orders[oi].order.total_amount;
        let o_filled = self.orders[oi].order.filled_amount;
        let ghost pre_orders = self.orders@;
        let ghost oid = order_id@;
        let e = order_at_mut(&mut self.orders, oi);
        e.order.cancelled = true;
        proof {
            let post_orders = self.orders@;
            let ne = post_orders[oi as int];
            assert(post_orders =~= pre_orders.update(oi as int, ne));
            crate::store::lemma_find_order_update(pre_orders, oi as int, ne, oid);
            assert forall|k: Seq<u8>| k != oid implies spec_find_order(post_orders, k)
                == spec_find_order(pre_orders, k) by {
                crate::store::lemma_find_order_update(pre_orders, oi as int, ne, k);
            }
            assert forall|i: int| 0 <= i < post_orders.len() implies order_entry_ok(
                #[trigger] post_orders[i],
                self.fills@,
            ) by {
                assert(order_entry_ok(pre_orders[i], self.fills@));
                if i != oi as int {
                    assert(post_orders[i] == pre_orders[i]);
                }
            }
            assert forall|j: int| 0 <= j < self.fills@.len() implies fill_entry_ok(
                #[trigger] self.fills@[j],
                post_orders,
            ) by {
                assert(fill_entry_ok(self.fills@[j], pre_orders));
                crate::store::lemma_find_order_update(
                    pre_orders,
                    oi as int,
                    ne,
                    self.fills@[j].fill.order_id@,
                );
            }
        }
        let transfer = if o_total > o_filled {
            Some(Transfer { to: maker, amount: o_total - o_filled })
        } else {
            None
        };
        Ok((OrderCancelledEvent { order_id }, transfer))
    }

    /// The order stored under `order_id`, if any.
    pub fn get_order(&self, order_id: [u8; 32]) -> (r: Option<&PartialFillOrder>)
        ensures
            match r {
                Some(o) => spec_find_order(self.orders@, order_id@) matches Some(e) && *o
                    == e.order,
                None => spec_find_order(self.orders@, order_id@) is None,
            },
    {
        match find_order_index(&self.orders, &order_id) {
            Some(i) => Some(&self.orders[i].order),
            None => None,
        }
    }

    /// The fill stored under `fill_id`, if any.
    pub fn get_fill(&self, fill_id: [u8; 32]) -> (r: Option<&FillExecution>)
        ensures
            match r {
                Some(f) => spec_find_fill(self.fills@, fill_id@) matches Some(e) && *f == e.fill,
                None => spec_find_fill(self.fills@, fill_id@) is None,
            },
    {
        match find_fill_index(&self.fills, &fill_id) {
            Some(i) => Some(&self.fills[i].fill),
            None => None,
        }
    }

    /// The identifiers of every fill created against `order_id`, in
    /// creation order; empty if the order is unknown.
    pub fn get_order_fills(&self, order_id: [u8; 32]) -> (r: Vec<[u8; 32]>)
        ensures
            r@ == (match spec_find_order(self.orders@, order_id@) {
                Some(e) => e.fill_ids@,
                None => Seq::<[u8; 32]>::empty(),
            }),
    {
        match find_order_index(&self.orders, &order_id) {
            Some(i) => {
                let list = &self.orders[i].fill_ids;
                let n = list.len();
                let mut out: Vec<[u8; 32]> = Vec::new();
                let mut j: usize = 0;
                while j < n
                    invariant
                        0 <= j <= n,
                        n == list@.len(),
                        out@ =~= list@.subrange(0, j as int),
                    decreases n - j,
                {
                    out.push(list[j]);
                    j += 1;
                }
                proof {
                    assert(out@ =~= list@);
                }
                out
            },
            None => Vec::new(),
        }
    }

    /// Whether an order is stored under `order_id`.
    pub fn order_exists(&self, order_id: [u8; 32]) -> (r: bool)
        ensures
            r == (spec_find_order(self.orders@, order_id@) is Some),
    {
        match find_order_index(&self.orders, &order_id) {
            Some(_) => true,
            None => false,
        }
    }

    /// The amount still open on an order: zero for an unknown, cancelled or
    /// completed order, the unfilled remainder otherwise.
    pub fn get_remaining_amount(&self, order_id: [u8; 32]) -> (r: u128)
        requires
            self.wf(),
        ensures
            r as int == (match spec_find_order(self.orders@, order_id@) {
                Some(e) => if e.order.cancelled || e.order.filled_amount >= e.order.total_amount {
                    0
                } else {
                    e.order.total_amount - e.order.filled_amount
                },
                None => 0,
            }),
    {
        match find_order_index(&self.orders, &order_id) {
            Some(i) => {
                let o = &self.orders[i].order;
                if o.cancelled || o.filled_amount >= o.total_amount {
                    0
                } else {
                    o.total_amount - o.filled_amount
                }
            },
            None => 0,
        }
    }

    /// Whether the order's total amount has been fully claimed.
    pub fn is_order_complete(&self, order_id: [u8; 32]) -> (r: bool)
        ensures
            r == (spec_find_order(self.orders@, order_id@) matches Some(e)
                && e.order.filled_amount >= e.order.total_amount),
    {
        match find_order_index(&self.orders, &order_id) {
            Some(i) => self.orders[i].order.filled_amount >= self.orders[i].order.total_amount,
            None => false,
        }
    }

    /// The secret revealed on withdrawal of a fill, if any.
    pub fn get_fill_secret(&self, fill_id: [u8; 32]) -> (r: Option<[u8; 32]>)
        ensures
            r == (match spec_find_fill(self.fills@, fill_id@) {
                Some(e) => e.fill.preimage,
                None => None::<[u8; 32]>,
            }),
    {
        match find_fill_index(&self.fills, &fill_id) {
            Some(i) => self.fills[i].fill.preimage,
            None => None,
        }
    }

    /// The registered cross-chain address of `account`, if any.
    pub fn get_cross_address(&self, account: Address) -> (r: Option<&CrossChainAddress>)
        ensures
            match r {
                Some(c) => spec_find_addr(self.address_mappings@, account.bytes()) == Some(*c),
                None => spec_find_addr(self.address_mappings@, account.bytes()) is None,
            },
    {
        match find_addr_index(&self.address_mappings, &account) {
            Some(i) => Some(&self.address_mappings[i].value),
            None => None,
        }
    }

    /// The current admin.
    pub fn get_admin(&self) -> (r: Address)
        ensures
            r == self.admin,
    {
        self.admin
    }

    /// The current fee rate in basis points.
    pub fn get_protocol_fee_bps(&self) -> (r: u16)
        ensures
            r == self.protocol_fee_bps,
    {
        self.protocol_fee_bps
    }

    /// The fees accumulated and not yet swept.
    pub fn get_protocol_fees(&self) -> (r: u128)
        ensures
            r == self.protocol_fees,
    {
        self.protocol_fees
    }
}

/// A copy of a cross-chain address with the same variant and payload.
fn copy_cross_address(c: &CrossChainAddress) -> (r: CrossChainAddress)
    ensures
        r.tag() == c.tag(),
        r.payload() == c.payload(),
{
    match c {
        CrossChainAddress::Ethereum(a) => CrossChainAddress::Ethereum(*a),
        CrossChainAddress::Substrate(a) => CrossChainAddress::Substrate(*a),
        CrossChainAddress::Raw(v) => CrossChainAddress::Raw(copy_bytes(v)),
    }
}

} // verus!
