//! The payments ledger as executable state, with one method per entry point
//! of the contract. Each method either fails with a typed error and leaves
//! the ledger as it was, or updates it and hands back what the host must
//! still do: the token transfer to perform and the event to publish.
use std::collections::HashMap;
use vstd::prelude::*;
use crate::model::{follows, PaymentsModel};
use crate::records::{
    AccountId, AdminSetEvent, AssetId, CapSetEvent, DepositEvent, Error, EscrowCreatedEvent,
    EscrowRecord, EscrowSettledEvent, EscrowStatus, Party, SettlementOutcome, TokenTransfer,
    TransferEvent, WithdrawEvent, MAX_ESCROWS_RETURN,
};
use crate::rules;
use crate::rules::{
    balance_key, balances_by_pair, checked_debit, lemma_balance_key_injective,
    lemma_balances_by_pair_finite,
};

verus! {

broadcast use {vstd::std_specs::hash::group_hash_axioms, lemma_balances_by_pair_finite};

/// The state of the payments contract.
///
/// Balances are stored under `balance_key(owner, asset)`; a pair with no
/// stored balance has balance 0. A cap that is not set is absent. Its type
/// invariant is `PaymentsModel::valid` of its view.
pub struct PaymentsContract {
    admin: Option<AccountId>,
    tokens: HashMap<AssetId, AccountId>,
    balances: HashMap<u128, i128>,
    global_cap: Option<i128>,
    asset_caps: HashMap<AssetId, i128>,
    escrow_count: u64,
    escrows: HashMap<u64, EscrowRecord>,
}

impl View for PaymentsContract {
    type V = PaymentsModel;

    closed spec fn view(&self) -> PaymentsModel {
        PaymentsModel {
            admin: self.admin,
            tokens: self.tokens@,
            balances: balances_by_pair(self.balances@),
            global_cap: self.global_cap,
            asset_caps: self.asset_caps@,
            escrow_count: self.escrow_count,
            escrows: self.escrows@,
        }
    }
}

impl PaymentsContract {
    #[verifier::type_invariant]
    closed spec fn inv(self) -> bool {
        self@.valid()
    }

    /// The state of a freshly deployed contract: not initialized, no tokens,
    /// no balances, no caps, no escrows.
    pub fn new() -> (c: PaymentsContract)
        ensures
            c@ == PaymentsModel::empty(),
            c@.wf(),
    {
        let c = PaymentsContract {
            admin: None,
            tokens: HashMap::new(),
            balances: HashMap::new(),
            global_cap: None,
            asset_caps: HashMap::new(),
            escrow_count: 0,
            escrows: HashMap::new(),
        };
        assert(c@.balances =~= Map::empty());
        assert(c@.tokens =~= Map::empty());
        assert(c@.asset_caps =~= Map::empty());
        assert(c@.escrows =~= Map::empty());
        c
    }

    // -------------------------------------------------------------------
    // Helpers
    // -------------------------------------------------------------------

    fn get_balance(&self, owner: AccountId, asset: AssetId) -> (b: i128)
        ensures
            b == self@.balance(owner, asset),
    {
        match self.balances.get(&balance_key(owner, asset)) {
            Some(b) => *b,
            None => 0,
        }
    }

    fn put_balance(&mut self, owner: AccountId, asset: AssetId, amount: i128)
        requires
            amount >= 0,
        ensures
            final(self)@ == old(self)@.with_balance(owner, asset, amount),
    {
        proof {
            use_type_invariant(&*self);
        }
        let mut m = HashMap::new();
        std::mem::swap(&mut m, &mut self.balances);
        let ghost before = m@;
        m.insert(balance_key(owner, asset), amount);
        proof {
            let pre = balances_by_pair(before).insert((owner, asset), amount);
            let post = balances_by_pair(m@);
            assert forall|k: (AccountId, AssetId)|
                #![trigger post.contains_key(k)]
                #![trigger pre.contains_key(k)]
                post.contains_key(k) == pre.contains_key(k) && (post.contains_key(k) ==> post[k]
                    == pre[k]) by {
                lemma_balance_key_injective(k.0, k.1, owner, asset);
            }
            assert(post =~= pre);
        }
        self.balances = m;
    }

    fn put_token(&mut self, asset: AssetId, token_id: AccountId)
        ensures
            final(self)@ == (PaymentsModel { tokens: old(self)@.tokens.insert(asset, token_id), ..old(self)@ }),
    {
        proof {
            use_type_invariant(&*self);
        }
        let mut m = HashMap::new();
        std::mem::swap(&mut m, &mut self.tokens);
        m.insert(asset, token_id);
        self.tokens = m;
    }

    fn put_asset_cap(&mut self, asset: AssetId, cap: i128)
        requires
            cap > 0,
        ensures
            final(self)@ == (PaymentsModel { asset_caps: old(self)@.asset_caps.insert(asset, cap), ..old(self)@ }),
    {
        proof {
            use_type_invariant(&*self);
        }
        let mut m = HashMap::new();
        std::mem::swap(&mut m, &mut self.asset_caps);
        m.insert(asset, cap);
        self.asset_caps = m;
    }

    fn clear_asset_cap(&mut self, asset: AssetId)
        ensures
            final(self)@ == (PaymentsModel { asset_caps: old(self)@.asset_caps.remove(asset), ..old(self)@ }),
    {
        proof {
            use_type_invariant(&*self);
        }
        let mut m = HashMap::new();
        std::mem::swap(&mut m, &mut self.asset_caps);
        m.remove(&asset);
        self.asset_caps = m;
    }

    fn put_escrow(&mut self, record: EscrowRecord)
        requires
            old(self)@.record_ok(record.escrow_id, record),
        ensures
            final(self)@ == (PaymentsModel {
                escrows: old(self)@.escrows.insert(record.escrow_id, record),
                ..old(self)@
            }),
    {
        proof {
            use_type_invariant(&*self);
        }
        let mut m = HashMap::new();
        std::mem::swap(&mut m, &mut self.escrows);
        m.insert(record.escrow_id, record);
        self.escrows = m;
    }

    fn assert_admin(&self, caller: AccountId) -> (r: Result<(), Error>)
        ensures
            r == self@.authorize(caller),
    {
        match self.admin {
            None => Err(Error::NotInitialized),
            Some(a) => if caller == a {
                Ok(())
            } else {
                Err(Error::Unauthorized)
            },
        }
    }

    fn token_address(&self, asset: AssetId) -> (r: Result<AccountId, Error>)
        ensures
            r == self@.token_of(asset),
    {
        match self.tokens.get(&asset) {
            Some(t) => Ok(*t),
            None => Err(Error::TokenNotRegistered),
        }
    }

    fn effective_cap(&self, asset: AssetId) -> (cap: Option<i128>)
        ensures
            cap == self@.effective_cap(asset),
    {
        rules::effective_cap(self.global_cap, self.asset_cap(asset))
    }

    fn check_cap(&self, asset: AssetId, amount: i128) -> (r: Result<(), Error>)
        ensures
            r == (if rules::exceeds_cap(self@.effective_cap(asset), amount) {
                Err(Error::CapExceeded)
            } else {
                Ok(())
            }),
    {
        rules::check_cap(self.effective_cap(asset), amount)
    }

    // -------------------------------------------------------------------
    // Lifecycle
    // -------------------------------------------------------------------

    /// Initialize the contract with an admin. Can only be done once; later
    /// calls return `AlreadyInitialized`.
    pub fn initialize(&mut self, admin: AccountId) -> (result: Result<(), Error>)
        ensures
            follows(old(self)@, final(self)@, result, old(self)@.initialize(admin)),
            old(self)@.wf() ==> final(self)@.wf(),
    {
        proof {
            use_type_invariant(&*self);
        }
        if self.admin.is_some() {
            return Err(Error::AlreadyInitialized);
        }
        self.admin = Some(admin);
        Ok(())
    }

    /// Transfer the admin role to `new_admin`. Only the current admin may.
    pub fn transfer_admin(&mut self, caller: AccountId, new_admin: AccountId) -> (result: Result<
        AdminSetEvent,
        Error,
    >)
        ensures
            follows(old(self)@, final(self)@, result, old(self)@.transfer_admin(caller, new_admin)),
            old(self)@.wf() ==> final(self)@.wf(),
    {
        proof {
            use_type_invariant(&*self);
        }
        let old_admin = self.get_admin()?;
        self.assert_admin(caller)?;
        self.admin = Some(new_admin);
        Ok(AdminSetEvent { old_admin, new_admin })
    }

    /// The current admin, if initialized.
    pub fn get_admin(&self) -> (result: Result<AccountId, Error>)
        ensures
            result == self@.current_admin(),
    {
        match self.admin {
            Some(a) => Ok(a),
            None => Err(Error::NotInitialized),
        }
    }

    // -------------------------------------------------------------------
    // Token registration
    // -------------------------------------------------------------------

    /// Register (or replace) the token contract backing `asset`.
    pub fn set_token(&mut self, admin: AccountId, asset: AssetId, token_id: AccountId) -> (result:
        Result<(), Error>)
        ensures
            follows(old(self)@, final(self)@, result, old(self)@.set_token(admin, asset, token_id)),
            old(self)@.wf() ==> final(self)@.wf(),
    {
        proof {
            use_type_invariant(&*self);
        }
        self.assert_admin(admin)?;
        self.put_token(asset, token_id);
        Ok(())
    }

    /// The registered token contract of `asset`.
    pub fn get_token(&self, asset: AssetId) -> (result: Result<AccountId, Error>)
        ensures
            result == self@.token_of(asset),
    {
        self.token_address(asset)
    }

    // -------------------------------------------------------------------
    // Spending caps
    // -------------------------------------------------------------------

    /// Set the global per-transaction cap. `cap == 0` disables it.
    pub fn set_global_cap(&mut self, admin: AccountId, cap: i128) -> (result: Result<
        CapSetEvent,
        Error,
    >)
        ensures
            follows(old(self)@, final(self)@, result, old(self)@.set_global_cap(admin, cap)),
            old(self)@.wf() ==> final(self)@.wf(),
    {
        proof {
            use_type_invariant(&*self);
        }
        self.assert_admin(admin)?;
        if cap < 0 {
            return Err(Error::InvalidAmount);
        }
        self.global_cap = if cap == 0 {
            None
        } else {
            Some(cap)
        };
        Ok(CapSetEvent { asset: None, cap })
    }

    /// Set the per-transaction cap of `asset`. `cap == 0` removes it.
    pub fn set_asset_cap(&mut self, admin: AccountId, asset: AssetId, cap: i128) -> (result:
        Result<CapSetEvent, Error>)
        ensures
            follows(old(self)@, final(self)@, result, old(self)@.set_asset_cap(admin, asset, cap)),
            old(self)@.wf() ==> final(self)@.wf(),
    {
        proof {
            use_type_invariant(&*self);
        }
        self.assert_admin(admin)?;
        if cap < 0 {
            return Err(Error::InvalidAmount);
        }
        if cap == 0 {
            self.clear_asset_cap(asset);
        } else {
            self.put_asset_cap(asset, cap);
        }
        Ok(CapSetEvent { asset: Some(asset), cap })
    }

    /// The effective per-transaction cap of `asset` (0 = unlimited).
    pub fn get_effective_cap(&self, asset: AssetId) -> (cap: i128)
        ensures
            cap == (match self@.effective_cap(asset) {
                Some(c) => c,
                None => 0,
            }),
    {
        match self.effective_cap(asset) {
            Some(c) => c,
            None => 0,
        }
    }

    // -------------------------------------------------------------------
    // Deposits / withdrawals / transfers
    // -------------------------------------------------------------------

    /// Deposit `amount` of `asset` from `from`: credits its balance and asks
    /// for the tokens to move from `from` to the contract.
    pub fn deposit(&mut self, from: AccountId, asset: AssetId, amount: i128) -> (result: Result<
        (TokenTransfer, DepositEvent),
        Error,
    >)
        ensures
            follows(old(self)@, final(self)@, result, old(self)@.deposit(from, asset, amount)),
            old(self)@.wf() ==> final(self)@.wf(),
    {
        proof {
            use_type_invariant(&*self);
        }
        if amount <= 0 {
            return Err(Error::InvalidAmount);
        }
        let token = self.token_address(asset)?;
        let new_balance = match self.get_balance(from, asset).checked_add(amount) {
            Some(b) => b,
            None => {
                return Err(Error::ArithmeticOverflow);
            },
        };
        self.put_balance(from, asset, new_balance);
        Ok(
            (
                TokenTransfer { token, from: Party::Account(from), to: Party::Contract, amount },
                DepositEvent { asset, from, amount, new_balance },
            ),
        )
    }

    /// Withdraw `amount` of `asset` from the balance of `to`, asking for the
    /// tokens to move from the contract to `to`.
    pub fn withdraw(&mut self, to: AccountId, asset: AssetId, amount: i128) -> (result: Result<
        (TokenTransfer, WithdrawEvent),
        Error,
    >)
        ensures
            follows(old(self)@, final(self)@, result, old(self)@.withdraw(to, asset, amount)),
            old(self)@.wf() ==> final(self)@.wf(),
    {
        proof {
            use_type_invariant(&*self);
        }
        if amount <= 0 {
            return Err(Error::InvalidAmount);
        }
        self.check_cap(asset, amount)?;
        let token = self.token_address(asset)?;
        let balance = self.get_balance(to, asset);
        let new_balance = checked_debit(balance, amount)?;
        self.put_balance(to, asset, new_balance);
        Ok(
            (
                TokenTransfer { token, from: Party::Contract, to: Party::Account(to), amount },
                WithdrawEvent { asset, to, amount, new_balance },
            ),
        )
    }

    /// Move `amount` of `asset` from `from` to `to` inside the ledger. The
    /// tokens stay in the contract.
    pub fn transfer(&mut self, from: AccountId, to: AccountId, asset: AssetId, amount: i128) -> (result:
        Result<TransferEvent, Error>)
        ensures
            follows(old(self)@, final(self)@, result, old(self)@.transfer(from, to, asset, amount)),
            old(self)@.wf() ==> final(self)@.wf(),
    {
        proof {
            use_type_invariant(&*self);
        }
        if amount <= 0 {
            return Err(Error::InvalidAmount);
        }
        if from == to {
            return Err(Error::InvalidAmount);
        }
        self.check_cap(asset, amount)?;
        let from_balance = self.get_balance(from, asset);
        let new_from = checked_debit(from_balance, amount)?;
        let to_balance = self.get_balance(to, asset);
        let new_to = match to_balance.checked_add(amount) {
            Some(b) => b,
            None => {
                return Err(Error::ArithmeticOverflow);
            },
        };
        self.put_balance(from, asset, new_from);
        self.put_balance(to, asset, new_to);
        Ok(
            TransferEvent {
                asset,
                from,
                to,
                amount,
                from_balance: new_from,
                to_balance: new_to,
            },
        )
    }

    /// The internal balance of `owner` in `asset`.
    pub fn balance_of(&self, owner: AccountId, asset: AssetId) -> (b: i128)
        ensures
            b == self@.balance(owner, asset),
    {
        self.get_balance(owner, asset)
    }

    // -------------------------------------------------------------------
    // Escrow
    // -------------------------------------------------------------------

    /// Create a two-party escrow at time `now`: locks `amount` of `asset`
    /// from the depositor's balance until released or refunded. Returns the
    /// new escrow's id with the event.
    pub fn create_escrow(
        &mut self,
        depositor: AccountId,
        receiver: AccountId,
        asset: AssetId,
        amount: i128,
        now: u64,
    ) -> (result: Result<(u64, EscrowCreatedEvent), Error>)
        ensures
            follows(
                old(self)@,
                final(self)@,
                result,
                old(self)@.create_escrow(depositor, receiver, asset, amount, now),
            ),
            old(self)@.wf() ==> final(self)@.wf(),
    {
        proof {
            use_type_invariant(&*self);
        }
        if amount <= 0 {
            return Err(Error::InvalidAmount);
        }
        if depositor == receiver {
            return Err(Error::InvalidAmount);
        }
        self.check_cap(asset, amount)?;
        let balance = self.get_balance(depositor, asset);
        let new_balance = checked_debit(balance, amount)?;
        let escrow_id = match self.escrow_count.checked_add(1) {
            Some(id) => id,
            None => {
                return Err(Error::ArithmeticOverflow);
            },
        };
        self.put_balance(depositor, asset, new_balance);
        self.escrow_count = escrow_id;
        let record = EscrowRecord {
            escrow_id,
            asset,
            depositor,
            receiver,
            amount,
            status: EscrowStatus::Active,
            created_at: now,
            settled_at: 0,
        };
        self.put_escrow(record);
        Ok((escrow_id, EscrowCreatedEvent { escrow_id, asset, depositor, receiver, amount }))
    }

    /// Release an active escrow to its receiver at time `now` (either party
    /// may call). Like every outflow, a release above the asset's effective
    /// cap is refused with `CapExceeded`.
    pub fn release_escrow(&mut self, escrow_id: u64, caller: AccountId, now: u64) -> (result:
        Result<(TokenTransfer, EscrowSettledEvent), Error>)
        ensures
            follows(
                old(self)@,
                final(self)@,
                result,
                old(self)@.settle_escrow(escrow_id, caller, true, now),
            ),
            old(self)@.wf() ==> final(self)@.wf(),
    {
        self.settle_escrow(escrow_id, caller, true, now)
    }

    /// Refund an active escrow to its depositor at time `now` (either party
    /// may call).
    pub fn refund_escrow(&mut self, escrow_id: u64, caller: AccountId, now: u64) -> (result:
        Result<(TokenTransfer, EscrowSettledEvent), Error>)
        ensures
            follows(
                old(self)@,
                final(self)@,
                result,
                old(self)@.settle_escrow(escrow_id, caller, false, now),
            ),
            old(self)@.wf() ==> final(self)@.wf(),
    {
        self.settle_escrow(escrow_id, caller, false, now)
    }

    fn settle_escrow(&mut self, escrow_id: u64, caller: AccountId, release: bool, now: u64) -> (result:
        Result<(TokenTransfer, EscrowSettledEvent), Error>)
        ensures
            follows(
                old(self)@,
                final(self)@,
                result,
                old(self)@.settle_escrow(escrow_id, caller, release, now),
            ),
            old(self)@.wf() ==> final(self)@.wf(),
    {
        proof {
            use_type_invariant(&*self);
        }
        let mut record = match self.escrows.get(&escrow_id) {
            Some(r) => *r,
            None => {
                return Err(Error::EscrowNotFound);
            },
        };
        if record.status != EscrowStatus::Active {
            return Err(Error::EscrowNotActive);
        }
        if caller != record.depositor && caller != record.receiver {
            return Err(Error::NotEscrowParty);
        }
        if release {
            self.check_cap(record.asset, record.amount)?;
        }
        let token = self.token_address(record.asset)?;
        let (to, outcome) = if release {
            (record.receiver, SettlementOutcome::Release)
        } else {
            (record.depositor, SettlementOutcome::Refund)
        };
        record.status = if release {
            EscrowStatus::Released
        } else {
            EscrowStatus::Refunded
        };
        record.settled_at = now;
        self.put_escrow(record);
        Ok(
            (
                TokenTransfer { token, from: Party::Contract, to: Party::Account(to), amount: record.amount },
                EscrowSettledEvent { escrow_id, outcome, to, amount: record.amount },
            ),
        )
    }

    /// The escrow record `escrow_id`.
    pub fn get_escrow(&self, escrow_id: u64) -> (result: Result<EscrowRecord, Error>)
        ensures
            result == self@.escrow(escrow_id),
    {
        match self.escrows.get(&escrow_id) {
            Some(r) => Ok(*r),
            None => Err(Error::EscrowNotFound),
        }
    }

    /// The most recent escrows, newest last, at most `MAX_ESCROWS_RETURN`.
    pub fn list_escrows(&self) -> (out: Vec<EscrowRecord>)
        ensures
            out@ == self@.recent_escrows(),
    {
        let total = self.escrow_count;
        let start = self.list_start();
        let mut out: Vec<EscrowRecord> = Vec::new();
        let mut id: u64 = start;
        while id < total
            invariant
                start <= id <= total,
                total == self.escrow_count,
                start == self@.list_start(),
                out@ == self@.records_between(start, id),
            decreases total - id,
        {
            id = id + 1;
            if let Some(r) = self.escrows.get(&id) {
                out.push(*r);
            }
        }
        out
    }

    /// The global cap, if set.
    pub fn global_cap(&self) -> (cap: Option<i128>)
        ensures
            cap == self@.global_cap,
    {
        self.global_cap
    }

    /// The cap set for `asset` alone, if any.
    pub fn asset_cap(&self, asset: AssetId) -> (cap: Option<i128>)
        ensures
            cap == self@.asset_cap(asset),
    {
        match self.asset_caps.get(&asset) {
            Some(c) => Some(*c),
            None => None,
        }
    }

    /// The id after which `list_escrows` starts.
    pub fn list_start(&self) -> (start: u64)
        ensures
            start == self@.list_start(),
    {
        self.escrow_count.saturating_sub(MAX_ESCROWS_RETURN as u64)
    }

    /// The number of escrows ever created, which is also the last id.
    pub fn escrow_count(&self) -> (n: u64)
        ensures
            n == self@.escrow_count,
    {
        self.escrow_count
    }

    // -------------------------------------------------------------------
    // Loading stored entries
    //
    // A host that keeps the ledger entry by entry loads the entries an
    // operation reads into a fresh ledger before running it. Each loader
    // refuses an entry that the ledger could never have stored.
    // -------------------------------------------------------------------

    /// Load the stored admin.
    pub fn load_admin(&mut self, admin: AccountId)
        ensures
            final(self)@ == (PaymentsModel { admin: Some(admin), ..old(self)@ }),
    {
        proof {
            use_type_invariant(&*self);
        }
        self.admin = Some(admin);
    }

    /// Load the stored token contract of `asset`.
    pub fn load_token(&mut self, asset: AssetId, token_id: AccountId)
        ensures
            final(self)@ == (PaymentsModel { tokens: old(self)@.tokens.insert(asset, token_id), ..old(self)@ }),
    {
        self.put_token(asset, token_id);
    }

    /// Load the stored balance of `owner` in `asset`; a negative one is
    /// refused.
    pub fn load_balance(&mut self, owner: AccountId, asset: AssetId, amount: i128) -> (loaded: bool)
        ensures
            loaded == (amount >= 0),
            final(self)@ == (if loaded {
                old(self)@.with_balance(owner, asset, amount)
            } else {
                old(self)@
            }),
    {
        if amount < 0 {
            return false;
        }
        self.put_balance(owner, asset, amount);
        true
    }

    /// Load the stored global cap; a cap that is not positive is refused.
    pub fn load_global_cap(&mut self, cap: i128) -> (loaded: bool)
        ensures
            loaded == (cap > 0),
            final(self)@ == (if loaded {
                PaymentsModel { global_cap: Some(cap), ..old(self)@ }
            } else {
                old(self)@
            }),
    {
        proof {
            use_type_invariant(&*self);
        }
        if cap <= 0 {
            return false;
        }
        self.global_cap = Some(cap);
        true
    }

    /// Load the stored cap of `asset`; a cap that is not positive is
    /// refused.
    pub fn load_asset_cap(&mut self, asset: AssetId, cap: i128) -> (loaded: bool)
        ensures
            loaded == (cap > 0),
            final(self)@ == (if loaded {
                PaymentsModel { asset_caps: old(self)@.asset_caps.insert(asset, cap), ..old(self)@ }
            } else {
                old(self)@
            }),
    {
        if cap <= 0 {
            return false;
        }
        self.put_asset_cap(asset, cap);
        true
    }

    /// Load the stored escrow count; a count below the current one is
    /// refused.
    pub fn load_escrow_count(&mut self, count: u64) -> (loaded: bool)
        ensures
            loaded == (count >= old(self)@.escrow_count),
            final(self)@ == (if loaded {
                PaymentsModel { escrow_count: count, ..old(self)@ }
            } else {
                old(self)@
            }),
    {
        proof {
            use_type_invariant(&*self);
        }
        if count < self.escrow_count {
            return false;
        }
        self.escrow_count = count;
        true
    }

    /// Load a stored escrow record; a record inconsistent with its id, its
    /// status or the escrow count is refused.
    pub fn load_escrow(&mut self, record: EscrowRecord) -> (loaded: bool)
        ensures
            loaded == old(self)@.record_ok(record.escrow_id, record),
            final(self)@ == (if loaded {
                PaymentsModel {
                    escrows: old(self)@.escrows.insert(record.escrow_id, record),
                    ..old(self)@
                }
            } else {
                old(self)@
            }),
    {
        let ok = 1 <= record.escrow_id && record.escrow_id <= self.escrow_count && record.amount > 0
            && record.depositor != record.receiver && (record.status != EscrowStatus::Active
            || record.settled_at == 0);
        if !ok {
            return false;
        }
        self.put_escrow(record);
        true
    }
}

} // verus!
