//! Tests of the payments ledger. The fixture plays the host: it hands out
//! account ids, keeps the ledger clock, and keeps the balances of the token
//! contracts, applying every token transfer that a successful operation
//! asks for.

use std::collections::HashMap;

use astraport_payments::contract::PaymentsContract;
use astraport_payments::records::{
    AccountId, AssetId, Error, EscrowRecord, EscrowStatus, Party, TokenTransfer,
};

struct Fixture {
    ledger: PaymentsContract,
    next_id: AccountId,
    now: u64,
    /// Token balances: (token contract, holder) -> amount.
    token_balances: HashMap<(AccountId, Party), i128>,
    admin: AccountId,
    user_a: AccountId,
    user_b: AccountId,
    token_id: AccountId,
    asset: AssetId,
}

/// The asset id of a short symbol: its ASCII bytes, big-endian.
fn sym(s: &str) -> AssetId {
    let mut id: AssetId = 0;
    for b in s.bytes() {
        id = (id << 8) | (b as u64);
    }
    id
}

impl Fixture {
    fn generate(&mut self) -> AccountId {
        self.next_id += 1;
        self.next_id
    }

    fn token_balance(&self, token: AccountId, holder: Party) -> i128 {
        *self.token_balances.get(&(token, holder)).unwrap_or(&0)
    }

    /// Perform a token transfer as the token contract would.
    fn apply(&mut self, t: TokenTransfer) {
        let from = self.token_balance(t.token, t.from);
        assert!(from >= t.amount, "token balance too low");
        let to = self.token_balance(t.token, t.to);
        self.token_balances.insert((t.token, t.from), from - t.amount);
        self.token_balances.insert((t.token, t.to), to + t.amount);
    }

    fn mint(&mut self, token: AccountId, to: AccountId, amount: i128) {
        let b = self.token_balance(token, Party::Account(to));
        self.token_balances.insert((token, Party::Account(to)), b + amount);
    }

    fn deposit(&mut self, from: AccountId, asset: AssetId, amount: i128) -> Result<(), Error> {
        let (t, _) = self.ledger.deposit(from, asset, amount)?;
        self.apply(t);
        Ok(())
    }

    fn withdraw(&mut self, to: AccountId, asset: AssetId, amount: i128) -> Result<(), Error> {
        let (t, _) = self.ledger.withdraw(to, asset, amount)?;
        self.apply(t);
        Ok(())
    }

    fn transfer(&mut self, from: AccountId, to: AccountId, asset: AssetId, amount: i128) -> Result<(), Error> {
        self.ledger.transfer(from, to, asset, amount)?;
        Ok(())
    }

    fn create_escrow(&mut self, depositor: AccountId, receiver: AccountId, asset: AssetId, amount: i128) -> Result<u64, Error> {
        let (id, _) = self.ledger.create_escrow(depositor, receiver, asset, amount, self.now)?;
        Ok(id)
    }

    fn release_escrow(&mut self, escrow_id: u64, caller: AccountId) -> Result<(), Error> {
        let (t, _) = self.ledger.release_escrow(escrow_id, caller, self.now)?;
        self.apply(t);
        Ok(())
    }

    fn refund_escrow(&mut self, escrow_id: u64, caller: AccountId) -> Result<(), Error> {
        let (t, _) = self.ledger.refund_escrow(escrow_id, caller, self.now)?;
        self.apply(t);
        Ok(())
    }

    fn contract_tokens(&self) -> i128 {
        self.token_balance(self.token_id, Party::Contract)
    }

    fn tokens_of(&self, who: AccountId) -> i128 {
        self.token_balance(self.token_id, Party::Account(who))
    }
}

fn fixture() -> Fixture {
    let mut f = Fixture {
        ledger: PaymentsContract::new(),
        next_id: 0,
        now: 0,
        token_balances: HashMap::new(),
        admin: 0,
        user_a: 0,
        user_b: 0,
        token_id: 0,
        asset: sym("PAY"),
    };
    f.admin = f.generate();
    f.user_a = f.generate();
    f.user_b = f.generate();
    f.token_id = f.generate();
    let (token_id, user_a, admin, asset) = (f.token_id, f.user_a, f.admin, f.asset);
    f.mint(token_id, user_a, 1_000_000);
    f.ledger.initialize(admin).unwrap();
    f.ledger.set_token(admin, asset, token_id).unwrap();
    f
}

/// A second asset backed by the fixture's token contract.
fn register_extra_token(f: &mut Fixture) -> (AssetId, AccountId) {
    let asset = sym("OTHR");
    f.ledger.set_token(f.admin, asset, f.token_id).unwrap();
    (asset, f.token_id)
}

// ---------------------------------------------------------------------------
// Lifecycle
// ---------------------------------------------------------------------------

#[test]
fn double_initialize_returns_typed_error() {
    let mut f = fixture();
    assert_eq!(f.ledger.initialize(f.admin), Err(Error::AlreadyInitialized));
}

#[test]
fn admin_is_recorded_on_initialize() {
    let f = fixture();
    assert_eq!(f.ledger.get_admin(), Ok(f.admin));
}

// ---------------------------------------------------------------------------
// Token registration
// ---------------------------------------------------------------------------

#[test]
fn unregistered_asset_rejected() {
    let mut f = fixture();
    let unknown = sym("NOPE");
    let user_a = f.user_a;
    assert_eq!(f.deposit(user_a, unknown, 100), Err(Error::TokenNotRegistered));
    assert_eq!(f.ledger.get_token(unknown), Err(Error::TokenNotRegistered));
}

#[test]
fn only_admin_can_register_token() {
    let mut f = fixture();
    let attacker = f.generate();
    let (asset2, token2) = register_extra_token(&mut f);
    assert_eq!(f.ledger.set_token(attacker, asset2, token2), Err(Error::Unauthorized));
}

// ---------------------------------------------------------------------------
// Deposit
// ---------------------------------------------------------------------------

#[test]
fn deposit_moves_real_tokens_and_credits_balance() {
    let mut f = fixture();
    let amount = 500_000i128;
    let (user_a, asset) = (f.user_a, f.asset);

    let contract_balance_before = f.contract_tokens();
    f.deposit(user_a, asset, amount).unwrap();

    assert_eq!(f.tokens_of(user_a), 1_000_000 - amount);
    assert_eq!(f.contract_tokens(), contract_balance_before + amount);
    assert_eq!(f.ledger.balance_of(user_a, asset), amount);
}

#[test]
fn deposit_zero_or_negative_fails() {
    let mut f = fixture();
    let (user_a, asset) = (f.user_a, f.asset);
    assert_eq!(f.deposit(user_a, asset, 0), Err(Error::InvalidAmount));
    assert_eq!(f.deposit(user_a, asset, -5), Err(Error::InvalidAmount));
}

#[test]
fn deposit_accumulates() {
    let mut f = fixture();
    let (user_a, asset) = (f.user_a, f.asset);
    f.deposit(user_a, asset, 100_000).unwrap();
    f.deposit(user_a, asset, 250_000).unwrap();
    assert_eq!(f.ledger.balance_of(user_a, asset), 350_000);
}

// ---------------------------------------------------------------------------
// Withdraw
// ---------------------------------------------------------------------------

#[test]
fn withdraw_moves_real_tokens_and_debits_balance() {
    let mut f = fixture();
    let (user_a, asset) = (f.user_a, f.asset);
    f.deposit(user_a, asset, 600_000).unwrap();

    let contract_balance_before = f.contract_tokens();
    f.withdraw(user_a, asset, 200_000).unwrap();

    assert_eq!(f.tokens_of(user_a), 1_000_000 - 600_000 + 200_000);
    assert_eq!(f.contract_tokens(), contract_balance_before - 200_000);
    assert_eq!(f.ledger.balance_of(user_a, asset), 400_000);
}

#[test]
fn withdraw_more_than_balance_fails_closed() {
    let mut f = fixture();
    let (user_a, asset) = (f.user_a, f.asset);
    f.deposit(user_a, asset, 100_000).unwrap();

    let result = f.withdraw(user_a, asset, 100_001);
    assert_eq!(result, Err(Error::InsufficientBalance));
    assert_eq!(f.ledger.balance_of(user_a, asset), 100_000);
}

#[test]
fn withdraw_with_no_balance_fails() {
    let mut f = fixture();
    let (user_b, asset) = (f.user_b, f.asset);
    assert_eq!(f.withdraw(user_b, asset, 1), Err(Error::InsufficientBalance));
}

#[test]
fn withdraw_zero_fails() {
    let mut f = fixture();
    let (user_a, asset) = (f.user_a, f.asset);
    assert_eq!(f.withdraw(user_a, asset, 0), Err(Error::InvalidAmount));
}

// ---------------------------------------------------------------------------
// Transfer
// ---------------------------------------------------------------------------

#[test]
fn transfer_moves_internal_balance_without_token_movement() {
    let mut f = fixture();
    let (user_a, user_b, asset) = (f.user_a, f.user_b, f.asset);
    f.deposit(user_a, asset, 400_000).unwrap();

    let contract_balance_before = f.contract_tokens();
    f.transfer(user_a, user_b, asset, 150_000).unwrap();

    assert_eq!(f.ledger.balance_of(user_a, asset), 250_000);
    assert_eq!(f.ledger.balance_of(user_b, asset), 150_000);
    assert_eq!(f.contract_tokens(), contract_balance_before);
}

#[test]
fn transfer_insufficient_balance_fails() {
    let mut f = fixture();
    let (user_a, user_b, asset) = (f.user_a, f.user_b, f.asset);
    f.deposit(user_a, asset, 50_000).unwrap();
    assert_eq!(f.transfer(user_a, user_b, asset, 50_001), Err(Error::InsufficientBalance));
}

#[test]
fn transfer_to_self_fails() {
    let mut f = fixture();
    let (user_a, asset) = (f.user_a, f.asset);
    f.deposit(user_a, asset, 10_000).unwrap();
    assert_eq!(f.transfer(user_a, user_a, asset, 1), Err(Error::InvalidAmount));
}

// ---------------------------------------------------------------------------
// Caps
// ---------------------------------------------------------------------------

#[test]
fn second_token_deposit_minimal() {
    let mut f = fixture();
    let (asset2, _token2) = register_extra_token(&mut f);
    let user_a = f.user_a;
    f.deposit(user_a, asset2, 100_000).unwrap();
    assert_eq!(f.ledger.balance_of(user_a, asset2), 100_000);
}

#[test]
fn global_cap_bounds_withdraw() {
    let mut f = fixture();
    let (admin, user_a, asset) = (f.admin, f.user_a, f.asset);
    f.ledger.set_global_cap(admin, 100_000).unwrap();
    f.deposit(user_a, asset, 500_000).unwrap();

    assert_eq!(f.withdraw(user_a, asset, 100_001), Err(Error::CapExceeded));
    f.withdraw(user_a, asset, 100_000).unwrap();
}

#[test]
fn asset_cap_overrides_global_cap_when_stricter() {
    let mut f = fixture();
    let (admin, user_a, asset) = (f.admin, f.user_a, f.asset);
    f.ledger.set_global_cap(admin, 100_000).unwrap();
    f.ledger.set_asset_cap(admin, asset, 10_000).unwrap();
    f.deposit(user_a, asset, 500_000).unwrap();

    assert_eq!(f.withdraw(user_a, asset, 10_001), Err(Error::CapExceeded));
    f.withdraw(user_a, asset, 10_000).unwrap();
}

#[test]
fn global_cap_bounds_transfer_and_escrow() {
    let mut f = fixture();
    let (admin, user_a, user_b, asset) = (f.admin, f.user_a, f.user_b, f.asset);
    f.ledger.set_global_cap(admin, 50_000).unwrap();
    f.deposit(user_a, asset, 500_000).unwrap();

    assert_eq!(f.transfer(user_a, user_b, asset, 50_001), Err(Error::CapExceeded));
    assert_eq!(f.create_escrow(user_a, user_b, asset, 50_001), Err(Error::CapExceeded));
}

#[test]
fn caps_apply_per_asset() {
    let mut f = fixture();
    let (asset2, _token2) = register_extra_token(&mut f);
    let (admin, user_a, asset) = (f.admin, f.user_a, f.asset);
    f.ledger.set_asset_cap(admin, asset, 10_000).unwrap();

    f.deposit(user_a, asset2, 100_000).unwrap();
    f.withdraw(user_a, asset2, 100_000).unwrap();
}

#[test]
fn only_admin_can_set_caps() {
    let mut f = fixture();
    let attacker = f.generate();
    let asset = f.asset;
    assert_eq!(f.ledger.set_global_cap(attacker, 1), Err(Error::Unauthorized));
    assert_eq!(f.ledger.set_asset_cap(attacker, asset, 1), Err(Error::Unauthorized));
}

// ---------------------------------------------------------------------------
// Escrow
// ---------------------------------------------------------------------------

#[test]
fn escrow_locks_funds_then_release_pays_receiver() {
    let mut f = fixture();
    let (user_a, user_b, asset) = (f.user_a, f.user_b, f.asset);
    f.deposit(user_a, asset, 600_000).unwrap();

    let escrow_id = f.create_escrow(user_a, user_b, asset, 250_000).unwrap();

    assert_eq!(f.ledger.balance_of(user_a, asset), 350_000);

    let record = f.ledger.get_escrow(escrow_id).unwrap();
    assert_eq!(record.escrow_id, escrow_id);
    assert_eq!(record.status, EscrowStatus::Active);
    assert_eq!(record.depositor, user_a);
    assert_eq!(record.receiver, user_b);
    assert_eq!(record.amount, 250_000);
    assert_eq!(record.settled_at, 0);

    let receiver_before = f.tokens_of(user_b);

    f.now += 60;
    f.release_escrow(escrow_id, user_a).unwrap();

    let record = f.ledger.get_escrow(escrow_id).unwrap();
    assert_eq!(record.status, EscrowStatus::Released);
    assert!(record.settled_at >= record.created_at + 60);
    assert_eq!(f.tokens_of(user_b), receiver_before + 250_000);
}

#[test]
fn escrow_refund_returns_funds_to_depositor() {
    let mut f = fixture();
    let (user_a, user_b, asset) = (f.user_a, f.user_b, f.asset);
    f.deposit(user_a, asset, 600_000).unwrap();

    let escrow_id = f.create_escrow(user_a, user_b, asset, 100_000).unwrap();

    let depositor_tokens_before = f.tokens_of(user_a);
    f.refund_escrow(escrow_id, user_b).unwrap();

    let record = f.ledger.get_escrow(escrow_id).unwrap();
    assert_eq!(record.status, EscrowStatus::Refunded);
    assert_eq!(f.tokens_of(user_a), depositor_tokens_before + 100_000);
}

#[test]
fn escrow_settlement_is_one_time_only() {
    let mut f = fixture();
    let (user_a, user_b, asset) = (f.user_a, f.user_b, f.asset);
    f.deposit(user_a, asset, 600_000).unwrap();
    let escrow_id = f.create_escrow(user_a, user_b, asset, 100_000).unwrap();

    f.release_escrow(escrow_id, user_a).unwrap();
    assert_eq!(f.release_escrow(escrow_id, user_b), Err(Error::EscrowNotActive));
    assert_eq!(f.refund_escrow(escrow_id, user_a), Err(Error::EscrowNotActive));
}

#[test]
fn escrow_insufficient_balance_fails() {
    let mut f = fixture();
    let (user_a, user_b, asset) = (f.user_a, f.user_b, f.asset);
    assert_eq!(f.create_escrow(user_a, user_b, asset, 1), Err(Error::InsufficientBalance));
}

#[test]
fn escrow_not_found_and_party_checks() {
    let mut f = fixture();
    let (user_a, user_b, asset) = (f.user_a, f.user_b, f.asset);
    f.deposit(user_a, asset, 600_000).unwrap();
    let escrow_id = f.create_escrow(user_a, user_b, asset, 100_000).unwrap();

    assert_eq!(f.ledger.get_escrow(999), Err(Error::EscrowNotFound));

    let outsider = f.generate();
    assert_eq!(f.release_escrow(escrow_id, outsider), Err(Error::NotEscrowParty));
    assert_eq!(f.refund_escrow(escrow_id, outsider), Err(Error::NotEscrowParty));
}

#[test]
fn escrow_to_self_fails_and_zero_amount_fails() {
    let mut f = fixture();
    let (user_a, user_b, asset) = (f.user_a, f.user_b, f.asset);
    assert_eq!(f.create_escrow(user_a, user_a, asset, 10), Err(Error::InvalidAmount));
    assert_eq!(f.create_escrow(user_a, user_b, asset, 0), Err(Error::InvalidAmount));
}

#[test]
fn escrow_ids_increment_and_listing_works() {
    let mut f = fixture();
    let (user_a, user_b, asset) = (f.user_a, f.user_b, f.asset);
    f.deposit(user_a, asset, 1_000_000).unwrap();

    let mut last = 0u64;
    for _ in 0..5 {
        last = f.create_escrow(user_a, user_b, asset, 1_000).unwrap();
    }
    assert_eq!(last, 5);

    let listed: Vec<EscrowRecord> = f.ledger.list_escrows();
    assert_eq!(listed.len(), 5);
}

// ---------------------------------------------------------------------------
// Admin rotation
// ---------------------------------------------------------------------------

#[test]
fn admin_rotation_works_and_old_admin_loses_power() {
    let mut f = fixture();
    let new_admin = f.generate();
    let (asset2, token2) = register_extra_token(&mut f);
    let admin = f.admin;

    f.ledger.transfer_admin(admin, new_admin).unwrap();
    assert_eq!(f.ledger.get_admin(), Ok(new_admin));

    assert_eq!(f.ledger.set_token(admin, asset2, token2), Err(Error::Unauthorized));

    f.ledger.set_token(new_admin, asset2, token2).unwrap();
    assert_eq!(f.ledger.get_token(asset2), Ok(token2));
}

#[test]
fn non_admin_cannot_transfer_admin() {
    let mut f = fixture();
    let attacker = f.generate();
    assert_eq!(f.ledger.transfer_admin(attacker, attacker), Err(Error::Unauthorized));
}

// ---------------------------------------------------------------------------
// Authorization spot check
// ---------------------------------------------------------------------------

#[test]
fn unauthenticated_transfer_is_rejected_before_ledger_change() {
    let mut f = fixture();
    let (user_a, user_b, asset) = (f.user_a, f.user_b, f.asset);
    f.deposit(user_a, asset, 100_000).unwrap();

    assert_eq!(f.withdraw(user_b, asset, 1), Err(Error::InsufficientBalance));
    assert_eq!(f.ledger.balance_of(user_a, asset), 100_000);
}
