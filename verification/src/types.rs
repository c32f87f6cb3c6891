//! Records of the settlement engine: orders, fills, identities, events and
//! errors.

use vstd::prelude::*;

verus! {

/// Identity of an account on the hosting ledger (a 20-byte address).
#[derive(Clone, Copy, Debug)]
pub struct Address(pub [u8; 20]);

impl Address {
    /// The bytes of the address, as contracts speak of them.
    pub open spec fn bytes(self) -> Seq<u8> {
        self.0@
    }
}

/// Cross-chain address representation, passed through unvalidated.
#[derive(Debug)]
pub enum CrossChainAddress {
    Ethereum([u8; 20]),
    Substrate([u8; 32]),
    Raw(Vec<u8>),
}

impl CrossChainAddress {
    /// Which variant this is, as a plain number, so that contracts can state
    /// that two values agree without matching on them.
    pub open spec fn tag(self) -> int {
        match self {
            CrossChainAddress::Ethereum(_) => 0,
            CrossChainAddress::Substrate(_) => 1,
            CrossChainAddress::Raw(_) => 2,
        }
    }

    /// The payload bytes of the value.
    pub open spec fn payload(self) -> Seq<u8> {
        match self {
            CrossChainAddress::Ethereum(a) => a@,
            CrossChainAddress::Substrate(a) => a@,
            CrossChainAddress::Raw(v) => v@,
        }
    }
}

/// An escrow order: value deposited by `maker`, claimable piecewise under
/// `hashlock` before `timelock`, refundable after.
#[derive(Debug)]
pub struct PartialFillOrder {
    pub maker: Address,
    pub total_amount: u128,
    pub filled_amount: u128,
    pub min_fill_amount: u128,
    pub hashlock: [u8; 32],
    pub timelock: u32,
    pub cancelled: bool,
    pub swap_id: [u8; 32],
    pub source_chain: u32,
    pub dest_chain: u32,
    /// Destination amount per source unit, scaled by 1e12; informational.
    pub dest_amount_per_unit: u128,
    pub fee: u128,
    pub allow_partial_fills: bool,
    pub max_fills: u32,
    pub current_fills: u32,
    pub sender_cross_address: Option<Vec<u8>>,
    pub receiver_cross_address: Option<Vec<u8>>,
}

/// One claim against an order, by one taker.
#[derive(Clone, Copy, Debug)]
pub struct FillExecution {
    pub order_id: [u8; 32],
    pub taker: Address,
    pub fill_amount: u128,
    pub contract_id: [u8; 32],
    pub withdrawn: bool,
    pub refunded: bool,
    pub preimage: Option<[u8; 32]>,
    pub timestamp: u64,
}

/// An instruction to the hosting ledger: move `amount` of escrowed value to
/// `to`. The engine emits it as the last step of an operation; if the host
/// cannot perform it, the host must discard the whole operation.
#[derive(Clone, Copy, Debug)]
pub struct Transfer {
    pub to: Address,
    pub amount: u128,
}

/// Event: a new order was stored.
#[derive(Debug)]
pub struct PartialFillOrderCreated {
    pub order_id: [u8; 32],
    pub maker: Address,
    pub total_amount: u128,
    pub min_fill_amount: u128,
    pub hashlock: [u8; 32],
    pub timelock: u32,
    pub swap_id: [u8; 32],
    pub source_chain: u32,
    pub dest_chain: u32,
    pub dest_amount_per_unit: u128,
    pub allow_partial_fills: bool,
    pub max_fills: u32,
}

/// Event: a fill was recorded against an order.
#[derive(Debug)]
pub struct OrderFilled {
    pub order_id: [u8; 32],
    pub fill_id: [u8; 32],
    pub taker: Address,
    pub fill_amount: u128,
    pub dest_amount: u128,
    pub contract_id: [u8; 32],
}

/// Event: a fill was withdrawn by revealing the secret.
#[derive(Debug)]
pub struct FillWithdrawn {
    pub fill_id: [u8; 32],
    pub secret: [u8; 32],
    pub taker: Address,
}

/// Event: a fill was refunded to the order's maker.
#[derive(Debug)]
pub struct FillRefunded {
    pub fill_id: [u8; 32],
    pub maker: Address,
}

/// Event: an order was cancelled.
#[derive(Debug)]
pub struct OrderCancelled {
    pub order_id: [u8; 32],
}

/// Event: a cross-chain address was registered for an account.
#[derive(Debug)]
pub struct AddressMapped {
    pub account: Address,
    pub cross_address: CrossChainAddress,
}

/// Everything an operation of the engine can fail with.
#[derive(Clone, Copy, Debug, PartialEq, Eq, Structural)]
pub enum Error {
    OrderAlreadyExists,
    OrderNotFound,
    FillNotFound,
    InvalidTimelock,
    InsufficientFunds,
    UnauthorizedFill,
    UnauthorizedWithdraw,
    UnauthorizedRefund,
    InvalidHashlock,
    AlreadyProcessed,
    TimelockNotExpired,
    TimelockExpired,
    TransferFailed,
    InvalidChainId,
    InvalidFillAmount,
    OrderCancelled,
    OrderCompleted,
    PartialFillsNotAllowed,
    MaxFillsReached,
    FillAmountTooSmall,
    InvalidFee,
    Unauthorized,
    ConversionError,
    TimelockTooShort,
    TimelockTooLong,
    ArithmeticOverflow,
}

} // verus!
