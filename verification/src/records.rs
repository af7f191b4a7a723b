//! Records shared by the payments ledger: account and asset identifiers,
//! escrow records, the events that successful operations emit, the token
//! transfers that money-moving operations ask the host to perform, and the
//! error enum.
use vstd::prelude::*;

verus! {

/// An account (a user, or a token contract) as the ledger identifies it.
pub type AccountId = u64;

/// An asset symbol as the ledger identifies it.
pub type AssetId = u64;

/// Maximum number of escrow records returned by `list_escrows`.
pub const MAX_ESCROWS_RETURN: u32 = 200;

/// Lifecycle status of an escrow.
#[derive(Clone, Copy, Debug, PartialEq, Eq, Structural)]
pub enum EscrowStatus {
    /// Funds are locked and waiting for release or refund.
    Active,
    /// Funds were released to the receiver.
    Released,
    /// Funds were refunded to the depositor.
    Refunded,
}

/// A two-party escrow holding tokens until released or refunded.
#[derive(Clone, Copy, Debug, PartialEq, Eq, Structural)]
pub struct EscrowRecord {
    /// Unique escrow id.
    pub escrow_id: u64,
    /// The asset this escrow is denominated in.
    pub asset: AssetId,
    /// The account that funded the escrow.
    pub depositor: AccountId,
    /// The account entitled to receive the funds on release.
    pub receiver: AccountId,
    /// Amount locked, in base units.
    pub amount: i128,
    /// Current lifecycle status.
    pub status: EscrowStatus,
    /// Ledger timestamp at creation.
    pub created_at: u64,
    /// Ledger timestamp at release/refund (0 while active).
    pub settled_at: u64,
}

/// One side of a token transfer: the payments contract itself, or an account.
#[derive(Clone, Copy, Debug, PartialEq, Eq, Hash, Structural)]
pub enum Party {
    /// The payments contract's own address.
    Contract,
    /// Any other account.
    Account(AccountId),
}

/// A transfer that the host must perform on the token contract `token`
/// for an operation to take effect: `amount` moves from `from` to `to`.
#[derive(Clone, Copy, Debug, PartialEq, Eq, Structural)]
pub struct TokenTransfer {
    pub token: AccountId,
    pub from: Party,
    pub to: Party,
    pub amount: i128,
}

/// Event emitted on a successful deposit.
#[derive(Clone, Copy, Debug, PartialEq, Eq, Structural)]
pub struct DepositEvent {
    pub asset: AssetId,
    pub from: AccountId,
    pub amount: i128,
    pub new_balance: i128,
}

/// Event emitted on a successful withdrawal.
#[derive(Clone, Copy, Debug, PartialEq, Eq, Structural)]
pub struct WithdrawEvent {
    pub asset: AssetId,
    pub to: AccountId,
    pub amount: i128,
    pub new_balance: i128,
}

/// Event emitted on an internal transfer between two accounts.
#[derive(Clone, Copy, Debug, PartialEq, Eq, Structural)]
pub struct TransferEvent {
    pub asset: AssetId,
    pub from: AccountId,
    pub to: AccountId,
    pub amount: i128,
    pub from_balance: i128,
    pub to_balance: i128,
}

/// Event emitted when escrow funds are locked.
#[derive(Clone, Copy, Debug, PartialEq, Eq, Structural)]
pub struct EscrowCreatedEvent {
    pub escrow_id: u64,
    pub asset: AssetId,
    pub depositor: AccountId,
    pub receiver: AccountId,
    pub amount: i128,
}

/// How an escrow was settled.
#[derive(Clone, Copy, Debug, PartialEq, Eq, Structural)]
pub enum SettlementOutcome {
    /// Paid out to the receiver.
    Release,
    /// Paid back to the depositor.
    Refund,
}

/// Event emitted when escrow funds are released or refunded.
#[derive(Clone, Copy, Debug, PartialEq, Eq, Structural)]
pub struct EscrowSettledEvent {
    pub escrow_id: u64,
    pub outcome: SettlementOutcome,
    pub to: AccountId,
    pub amount: i128,
}

/// Event emitted when the admin role changes.
#[derive(Clone, Copy, Debug, PartialEq, Eq, Structural)]
pub struct AdminSetEvent {
    pub old_admin: AccountId,
    pub new_admin: AccountId,
}

/// Event emitted when a spending cap changes. `asset` is `None` for the
/// global cap; `cap == 0` means the cap was disabled.
#[derive(Clone, Copy, Debug, PartialEq, Eq, Structural)]
pub struct CapSetEvent {
    pub asset: Option<AssetId>,
    pub cap: i128,
}

/// Errors returned by the payments ledger.
#[derive(Clone, Copy, Debug, PartialEq, Eq, PartialOrd, Ord, Structural)]
pub enum Error {
    /// Contract has already been initialized.
    AlreadyInitialized,
    /// Contract has not been initialized yet.
    NotInitialized,
    /// Caller is not the admin.
    Unauthorized,
    /// Amount must be positive.
    InvalidAmount,
    /// The asset has no registered token contract.
    TokenNotRegistered,
    /// The caller's internal balance is insufficient.
    InsufficientBalance,
    /// Arithmetic overflow or underflow.
    ArithmeticOverflow,
    /// The requested transfer exceeds the applicable spending cap.
    CapExceeded,
    /// Escrow id not found.
    EscrowNotFound,
    /// Escrow is not in the `Active` state.
    EscrowNotActive,
    /// Only the escrow depositor or receiver may perform this action.
    NotEscrowParty,
    /// The token list is full or a limit was exceeded.
    LimitExceeded,
}

/// The sum of `amounts`, added from the left, where each addition saturates
/// at the bounds of `i128`.
pub open spec fn saturating_total(amounts: Seq<i128>) -> int
    decreases amounts.len(),
{
    if amounts.len() == 0 {
        0
    } else {
        let t = saturating_total(amounts.drop_last()) + amounts.last();
        if t > i128::MAX {
            i128::MAX as int
        } else if t < i128::MIN {
            i128::MIN as int
        } else {
            t
        }
    }
}

/// The amounts of `records`, in order.
pub open spec fn escrow_amounts(records: Seq<EscrowRecord>) -> Seq<i128> {
    records.map_values(|r: EscrowRecord| r.amount)
}

/// Sum the escrow amounts in `records`, saturating at the bounds of `i128`.
pub fn sum_escrow_amounts(records: &Vec<EscrowRecord>) -> (total: i128)
    ensures
        total == saturating_total(escrow_amounts(records@)),
{
    let mut total: i128 = 0;
    let mut i: usize = 0;
    while i < records.len()
        invariant
            i <= records.len(),
            total == saturating_total(escrow_amounts(records@.subrange(0, i as int))),
        decreases records.len() - i,
    {
        let amount = records[i].amount;
        proof {
            let pre = records@.subrange(0, i as int);
            let next = records@.subrange(0, i + 1);
            assert(escrow_amounts(next).drop_last() =~= escrow_amounts(pre));
            assert(escrow_amounts(next).last() == amount);
        }
        total = match total.checked_add(amount) {
            Some(t) => t,
            None => if amount > 0 {
                i128::MAX
            } else {
                i128::MIN
            },
        };
        i = i + 1;
    }
    assert(records@.subrange(0, records.len() as int) =~= records@);
    total
}

} // verus!
