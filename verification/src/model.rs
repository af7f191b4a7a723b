//! The abstract state of the payments ledger and what each operation does
//! to it. Every operation is a function from a state and its arguments to
//! either an error (the state is then left as it was) or the next state
//! together with what the operation hands back.
use vstd::prelude::*;
use crate::records::{
    AccountId, AdminSetEvent, AssetId, CapSetEvent, DepositEvent, Error, EscrowCreatedEvent,
    EscrowRecord, EscrowSettledEvent, EscrowStatus, Party, SettlementOutcome, TokenTransfer,
    TransferEvent, WithdrawEvent, MAX_ESCROWS_RETURN,
};
use crate::rules::{debit, exceeds_cap, stricter_cap};

verus! {

/// The whole ledger, as mathematical values.
#[verifier::ext_equal]
pub struct PaymentsModel {
    /// The administrator, once initialized.
    pub admin: Option<AccountId>,
    /// The token contract registered for each asset.
    pub tokens: Map<AssetId, AccountId>,
    /// The stored internal balances; a pair that is absent has balance 0.
    pub balances: Map<(AccountId, AssetId), i128>,
    /// The global per-transaction cap, when set.
    pub global_cap: Option<i128>,
    /// The per-asset per-transaction caps that are set.
    pub asset_caps: Map<AssetId, i128>,
    /// How many escrows were ever created; also the last id handed out.
    pub escrow_count: u64,
    /// The escrow records by id.
    pub escrows: Map<u64, EscrowRecord>,
}

/// What an operation hands back, given what its specification says: on
/// success the state becomes the specified one and the output is returned;
/// on an error the state is unchanged and that error is returned.
pub open spec fn follows<T>(
    pre: PaymentsModel,
    post: PaymentsModel,
    result: Result<T, Error>,
    spec: Result<(PaymentsModel, T), Error>,
) -> bool {
    match spec {
        Ok((next, out)) => post == next && result == Ok::<T, Error>(out),
        Err(e) => post == pre && result == Err::<T, Error>(e),
    }
}

impl PaymentsModel {
    /// The ledger of a freshly deployed contract.
    pub open spec fn empty() -> PaymentsModel {
        PaymentsModel {
            admin: None,
            tokens: Map::empty(),
            balances: Map::empty(),
            global_cap: None,
            asset_caps: Map::empty(),
            escrow_count: 0,
            escrows: Map::empty(),
        }
    }

    /// The internal balance of `owner` in `asset` (0 when none is stored).
    pub open spec fn balance(self, owner: AccountId, asset: AssetId) -> i128 {
        if self.balances.contains_key((owner, asset)) {
            self.balances[(owner, asset)]
        } else {
            0
        }
    }

    /// The cap set for `asset` alone, if any.
    pub open spec fn asset_cap(self, asset: AssetId) -> Option<i128> {
        if self.asset_caps.contains_key(asset) {
            Some(self.asset_caps[asset])
        } else {
            None
        }
    }

    /// The per-transaction cap that applies to `asset`: the smaller of the
    /// global cap and the asset cap, where set.
    pub open spec fn effective_cap(self, asset: AssetId) -> Option<i128> {
        stricter_cap(self.global_cap, self.asset_cap(asset))
    }

    /// Whether `r` is a consistent record for escrow id `id`.
    pub open spec fn record_ok(self, id: u64, r: EscrowRecord) -> bool {
        &&& 1 <= id <= self.escrow_count
        &&& r.escrow_id == id
        &&& r.amount > 0
        &&& r.depositor != r.receiver
        &&& (r.status == EscrowStatus::Active ==> r.settled_at == 0)
    }

    /// What holds of every ledger, also of one that holds only part of the
    /// stored entries: finitely many tokens, balances and escrows are
    /// stored, balances are never negative, caps that are set are positive,
    /// and every escrow record is consistent with its id (at most
    /// `escrow_count`) and its status.
    pub open spec fn valid(self) -> bool {
        &&& self.tokens.dom().finite()
        &&& self.balances.dom().finite()
        &&& self.escrows.dom().finite()
        &&& forall|k: (AccountId, AssetId)| #[trigger]
            self.balances.contains_key(k) ==> self.balances[k] >= 0
        &&& (self.global_cap matches Some(c) ==> c > 0)
        &&& forall|a: AssetId| #[trigger] self.asset_caps.contains_key(a) ==> self.asset_caps[a] > 0
        &&& forall|id: u64| #[trigger]
            self.escrows.contains_key(id) ==> self.record_ok(id, self.escrows[id])
    }

    /// The invariant of the whole ledger, as the operations build it from
    /// `empty()`: it is valid, every id in `1..=escrow_count` has its escrow,
    /// and every asset in which something is owed (a positive balance or an
    /// active escrow) has a registered token.
    pub open spec fn wf(self) -> bool {
        &&& self.valid()
        &&& forall|id: u64| 1 <= id <= self.escrow_count ==> #[trigger] self.escrows.contains_key(id)
        &&& forall|k: (AccountId, AssetId)| #[trigger]
            self.balances.contains_key(k) && self.balances[k] > 0 ==> self.tokens.contains_key(k.1)
        &&& forall|id: u64| #[trigger]
            self.escrows.contains_key(id) && self.escrows[id].status == EscrowStatus::Active
                ==> self.tokens.contains_key(self.escrows[id].asset)
    }

    /// The ledger with the balance of `owner` in `asset` set to `amount`.
    pub open spec fn with_balance(self, owner: AccountId, asset: AssetId, amount: i128) -> Self {
        PaymentsModel { balances: self.balances.insert((owner, asset), amount), ..self }
    }

    /// The admin, or `NotInitialized`.
    pub open spec fn current_admin(self) -> Result<AccountId, Error> {
        match self.admin {
            Some(a) => Ok(a),
            None => Err(Error::NotInitialized),
        }
    }

    /// Whether `caller` may act as admin: `Ok(())`, `NotInitialized` or
    /// `Unauthorized`.
    pub open spec fn authorize(self, caller: AccountId) -> Result<(), Error> {
        match self.admin {
            None => Err(Error::NotInitialized),
            Some(a) => if caller == a {
                Ok(())
            } else {
                Err(Error::Unauthorized)
            },
        }
    }

    /// The registered token contract for `asset`, or `TokenNotRegistered`.
    pub open spec fn token_of(self, asset: AssetId) -> Result<AccountId, Error> {
        if self.tokens.contains_key(asset) {
            Ok(self.tokens[asset])
        } else {
            Err(Error::TokenNotRegistered)
        }
    }

    /// One-time initialization with `admin`.
    pub open spec fn initialize(self, admin: AccountId) -> Result<(Self, ()), Error> {
        if self.admin is Some {
            Err(Error::AlreadyInitialized)
        } else {
            Ok((PaymentsModel { admin: Some(admin), ..self }, ()))
        }
    }

    /// The current admin hands the role to `new_admin`.
    pub open spec fn transfer_admin(self, caller: AccountId, new_admin: AccountId) -> Result<
        (Self, AdminSetEvent),
        Error,
    > {
        match self.authorize(caller) {
            Err(e) => Err(e),
            Ok(()) => Ok(
                (
                    PaymentsModel { admin: Some(new_admin), ..self },
                    AdminSetEvent { old_admin: caller, new_admin },
                ),
            ),
        }
    }

    /// The admin registers (or replaces) the token contract of `asset`.
    pub open spec fn set_token(self, admin: AccountId, asset: AssetId, token_id: AccountId) -> Result<
        (Self, ()),
        Error,
    > {
        match self.authorize(admin) {
            Err(e) => Err(e),
            Ok(()) => Ok((PaymentsModel { tokens: self.tokens.insert(asset, token_id), ..self }, ())),
        }
    }

    /// The admin sets the global cap; 0 disables it.
    pub open spec fn set_global_cap(self, admin: AccountId, cap: i128) -> Result<
        (Self, CapSetEvent),
        Error,
    > {
        match self.authorize(admin) {
            Err(e) => Err(e),
            Ok(()) => if cap < 0 {
                Err(Error::InvalidAmount)
            } else {
                Ok(
                    (
                        PaymentsModel {
                            global_cap: if cap == 0 {
                                None
                            } else {
                                Some(cap)
                            },
                            ..self
                        },
                        CapSetEvent { asset: None, cap },
                    ),
                )
            },
        }
    }

    /// The admin sets the cap of `asset`; 0 removes it.
    pub open spec fn set_asset_cap(self, admin: AccountId, asset: AssetId, cap: i128) -> Result<
        (Self, CapSetEvent),
        Error,
    > {
        match self.authorize(admin) {
            Err(e) => Err(e),
            Ok(()) => if cap < 0 {
                Err(Error::InvalidAmount)
            } else {
                Ok(
                    (
                        PaymentsModel {
                            asset_caps: if cap == 0 {
                                self.asset_caps.remove(asset)
                            } else {
                                self.asset_caps.insert(asset, cap)
                            },
                            ..self
                        },
                        CapSetEvent { asset: Some(asset), cap },
                    ),
                )
            },
        }
    }

    /// `from` deposits `amount` of `asset`: its balance grows by `amount`
    /// and the tokens move from `from` to the contract.
    pub open spec fn deposit(self, from: AccountId, asset: AssetId, amount: i128) -> Result<
        (Self, (TokenTransfer, DepositEvent)),
        Error,
    > {
        let nb = self.balance(from, asset) + amount;
        if amount <= 0 {
            Err(Error::InvalidAmount)
        } else if !self.tokens.contains_key(asset) {
            Err(Error::TokenNotRegistered)
        } else if nb > i128::MAX {
            Err(Error::ArithmeticOverflow)
        } else {
            Ok(
                (
                    self.with_balance(from, asset, nb as i128),
                    (
                        TokenTransfer {
                            token: self.tokens[asset],
                            from: Party::Account(from),
                            to: Party::Contract,
                            amount,
                        },
                        DepositEvent { asset, from, amount, new_balance: nb as i128 },
                    ),
                ),
            )
        }
    }

    /// `to` withdraws `amount` of `asset` from its balance: the tokens move
    /// from the contract to `to`.
    pub open spec fn withdraw(self, to: AccountId, asset: AssetId, amount: i128) -> Result<
        (Self, (TokenTransfer, WithdrawEvent)),
        Error,
    > {
        if amount <= 0 {
            Err(Error::InvalidAmount)
        } else if exceeds_cap(self.effective_cap(asset), amount) {
            Err(Error::CapExceeded)
        } else if !self.tokens.contains_key(asset) {
            Err(Error::TokenNotRegistered)
        } else {
            match debit(self.balance(to, asset), amount) {
                Err(e) => Err(e),
                Ok(nb) => Ok(
                    (
                        self.with_balance(to, asset, nb),
                        (
                            TokenTransfer {
                                token: self.tokens[asset],
                                from: Party::Contract,
                                to: Party::Account(to),
                                amount,
                            },
                            WithdrawEvent { asset, to, amount, new_balance: nb },
                        ),
                    ),
                ),
            }
        }
    }

    /// `from` moves `amount` of `asset` to `to` inside the ledger; no
    /// tokens move.
    pub open spec fn transfer(self, from: AccountId, to: AccountId, asset: AssetId, amount: i128) -> Result<
        (Self, TransferEvent),
        Error,
    > {
        if amount <= 0 || from == to {
            Err(Error::InvalidAmount)
        } else if exceeds_cap(self.effective_cap(asset), amount) {
            Err(Error::CapExceeded)
        } else {
            match debit(self.balance(from, asset), amount) {
                Err(e) => Err(e),
                Ok(nf) => {
                    let nt = self.balance(to, asset) + amount;
                    if nt > i128::MAX {
                        Err(Error::ArithmeticOverflow)
                    } else {
                        Ok(
                            (
                                self.with_balance(from, asset, nf).with_balance(
                                    to,
                                    asset,
                                    nt as i128,
                                ),
                                TransferEvent {
                                    asset,
                                    from,
                                    to,
                                    amount,
                                    from_balance: nf,
                                    to_balance: nt as i128,
                                },
                            ),
                        )
                    }
                },
            }
        }
    }

    /// `depositor` locks `amount` of `asset` from its balance in a new
    /// escrow for `receiver`, created at time `now`; the new escrow's id is
    /// one more than the last.
    pub open spec fn create_escrow(
        self,
        depositor: AccountId,
        receiver: AccountId,
        asset: AssetId,
        amount: i128,
        now: u64,
    ) -> Result<(Self, (u64, EscrowCreatedEvent)), Error> {
        if amount <= 0 || depositor == receiver {
            Err(Error::InvalidAmount)
        } else if exceeds_cap(self.effective_cap(asset), amount) {
            Err(Error::CapExceeded)
        } else {
            match debit(self.balance(depositor, asset), amount) {
                Err(e) => Err(e),
                Ok(nb) => if self.escrow_count == u64::MAX {
                    Err(Error::ArithmeticOverflow)
                } else {
                    let id = (self.escrow_count + 1) as u64;
                    let record = EscrowRecord {
                        escrow_id: id,
                        asset,
                        depositor,
                        receiver,
                        amount,
                        status: EscrowStatus::Active,
                        created_at: now,
                        settled_at: 0,
                    };
                    Ok(
                        (
                            PaymentsModel {
                                balances: self.balances.insert((depositor, asset), nb),
                                escrow_count: id,
                                escrows: self.escrows.insert(id, record),
                                ..self
                            },
                            (id, EscrowCreatedEvent { escrow_id: id, asset, depositor, receiver, amount }),
                        ),
                    )
                },
            }
        }
    }

    /// A party of escrow `escrow_id` settles it at time `now`: to the
    /// receiver when `release`, else back to the depositor. The escrowed
    /// tokens move from the contract to that account. Like every other
    /// payout, a release is bounded by the effective cap of the asset.
    pub open spec fn settle_escrow(self, escrow_id: u64, caller: AccountId, release: bool, now: u64) -> Result<
        (Self, (TokenTransfer, EscrowSettledEvent)),
        Error,
    > {
        if !self.escrows.contains_key(escrow_id) {
            Err(Error::EscrowNotFound)
        } else {
            let r = self.escrows[escrow_id];
            if r.status != EscrowStatus::Active {
                Err(Error::EscrowNotActive)
            } else if caller != r.depositor && caller != r.receiver {
                Err(Error::NotEscrowParty)
            } else if release && exceeds_cap(self.effective_cap(r.asset), r.amount) {
                Err(Error::CapExceeded)
            } else if !self.tokens.contains_key(r.asset) {
                Err(Error::TokenNotRegistered)
            } else {
                let to = if release {
                    r.receiver
                } else {
                    r.depositor
                };
                let settled = EscrowRecord {
                    status: if release {
                        EscrowStatus::Released
                    } else {
                        EscrowStatus::Refunded
                    },
                    settled_at: now,
                    ..r
                };
                Ok(
                    (
                        PaymentsModel { escrows: self.escrows.insert(escrow_id, settled), ..self },
                        (
                            TokenTransfer {
                                token: self.tokens[r.asset],
                                from: Party::Contract,
                                to: Party::Account(to),
                                amount: r.amount,
                            },
                            EscrowSettledEvent {
                                escrow_id,
                                outcome: if release {
                                    SettlementOutcome::Release
                                } else {
                                    SettlementOutcome::Refund
                                },
                                to,
                                amount: r.amount,
                            },
                        ),
                    ),
                )
            }
        }
    }

    /// The escrow record `escrow_id`, or `EscrowNotFound`.
    pub open spec fn escrow(self, escrow_id: u64) -> Result<EscrowRecord, Error> {
        if self.escrows.contains_key(escrow_id) {
            Ok(self.escrows[escrow_id])
        } else {
            Err(Error::EscrowNotFound)
        }
    }

    /// The first id in the window of escrows that `list_escrows` returns.
    pub open spec fn list_start(self) -> u64 {
        if self.escrow_count > MAX_ESCROWS_RETURN {
            (self.escrow_count - MAX_ESCROWS_RETURN) as u64
        } else {
            0
        }
    }

    /// The stored records among ids `lo + 1 ..= hi`, in increasing id order.
    pub open spec fn records_between(self, lo: u64, hi: u64) -> Seq<EscrowRecord>
        decreases hi - lo,
    {
        if hi <= lo {
            Seq::empty()
        } else {
            let prefix = self.records_between(lo, (hi - 1) as u64);
            if self.escrows.contains_key(hi) {
                prefix.push(self.escrows[hi])
            } else {
                prefix
            }
        }
    }

    /// The most recent escrows, newest last: the stored records among the
    /// last `MAX_ESCROWS_RETURN` ids handed out.
    pub open spec fn recent_escrows(self) -> Seq<EscrowRecord> {
        self.records_between(self.list_start(), self.escrow_count)
    }
}

} // verus!
