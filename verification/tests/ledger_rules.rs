//! Tests of the ledger's rules on concrete values: the edge cases, each
//! error variant the ledger produces, and the laws on examples.

use astraport_payments::contract::PaymentsContract;
use astraport_payments::records::{
    sum_escrow_amounts, AdminSetEvent, CapSetEvent, DepositEvent, Error, EscrowCreatedEvent,
    EscrowRecord, EscrowSettledEvent, EscrowStatus, Party, SettlementOutcome, TokenTransfer,
    TransferEvent, WithdrawEvent, MAX_ESCROWS_RETURN,
};
use astraport_payments::rules::{balance_key, check_cap, checked_debit, effective_cap};

const ADMIN: u64 = 1;
const ALICE: u64 = 2;
const BOB: u64 = 3;
const TOKEN: u64 = 40;
const ASSET: u64 = 7;

fn ready() -> PaymentsContract {
    let mut c = PaymentsContract::new();
    c.initialize(ADMIN).unwrap();
    c.set_token(ADMIN, ASSET, TOKEN).unwrap();
    c
}

fn record(id: u64, amount: i128) -> EscrowRecord {
    EscrowRecord {
        escrow_id: id,
        asset: ASSET,
        depositor: ALICE,
        receiver: BOB,
        amount,
        status: EscrowStatus::Active,
        created_at: 0,
        settled_at: 0,
    }
}

#[test]
fn checked_debit_cases() {
    assert_eq!(checked_debit(10, 3), Ok(7));
    assert_eq!(checked_debit(10, 10), Ok(0));
    assert_eq!(checked_debit(10, 11), Err(Error::InsufficientBalance));
    assert_eq!(checked_debit(i128::MIN, 1), Err(Error::ArithmeticOverflow));
    assert_eq!(checked_debit(0, i128::MIN), Err(Error::ArithmeticOverflow));
}

#[test]
fn effective_cap_is_the_stricter_one() {
    assert_eq!(effective_cap(Some(100), Some(10)), Some(10));
    assert_eq!(effective_cap(Some(5), Some(10)), Some(5));
    assert_eq!(effective_cap(Some(5), None), Some(5));
    assert_eq!(effective_cap(None, Some(8)), Some(8));
    assert_eq!(effective_cap(None, None), None);
    assert_eq!(check_cap(Some(5), 6), Err(Error::CapExceeded));
    assert_eq!(check_cap(Some(5), 5), Ok(()));
    assert_eq!(check_cap(None, i128::MAX), Ok(()));
}

#[test]
fn balance_key_packs_owner_and_asset() {
    assert_eq!(balance_key(0, 0), 0);
    assert_eq!(balance_key(1, 2), (1u128 << 64) + 2);
    assert_eq!(balance_key(u64::MAX, u64::MAX), u128::MAX);
    assert_ne!(balance_key(1, 0), balance_key(0, 1));
}

#[test]
fn sum_escrow_amounts_saturates() {
    assert_eq!(sum_escrow_amounts(&vec![]), 0);
    assert_eq!(sum_escrow_amounts(&vec![record(1, 5), record(2, 7)]), 12);
    assert_eq!(
        sum_escrow_amounts(&vec![record(1, i128::MAX), record(2, 1), record(3, -5)]),
        i128::MAX - 5
    );
    assert_eq!(sum_escrow_amounts(&vec![record(1, i128::MIN), record(2, -1)]), i128::MIN);
}

#[test]
fn admin_ops_before_initialize_fail() {
    let mut c = PaymentsContract::new();
    assert_eq!(c.get_admin(), Err(Error::NotInitialized));
    assert_eq!(c.set_token(ADMIN, ASSET, TOKEN), Err(Error::NotInitialized));
    assert_eq!(c.set_global_cap(ADMIN, 5), Err(Error::NotInitialized));
    assert_eq!(c.set_asset_cap(ADMIN, ASSET, 5), Err(Error::NotInitialized));
    assert_eq!(c.transfer_admin(ADMIN, BOB), Err(Error::NotInitialized));
}

#[test]
fn transfer_admin_reports_old_and_new() {
    let mut c = ready();
    assert_eq!(c.transfer_admin(ADMIN, BOB), Ok(AdminSetEvent { old_admin: ADMIN, new_admin: BOB }));
    assert_eq!(c.set_global_cap(ADMIN, 5), Err(Error::Unauthorized));
    assert_eq!(c.set_global_cap(BOB, 5), Ok(CapSetEvent { asset: None, cap: 5 }));
}

#[test]
fn negative_cap_rejected_and_zero_cap_disables() {
    let mut c = ready();
    assert_eq!(c.set_global_cap(ADMIN, -1), Err(Error::InvalidAmount));
    assert_eq!(c.set_asset_cap(ADMIN, ASSET, -1), Err(Error::InvalidAmount));
    assert_eq!(c.get_effective_cap(ASSET), 0);
    c.set_global_cap(ADMIN, 300).unwrap();
    assert_eq!(c.set_asset_cap(ADMIN, ASSET, 100), Ok(CapSetEvent { asset: Some(ASSET), cap: 100 }));
    assert_eq!(c.get_effective_cap(ASSET), 100);
    assert_eq!(c.get_effective_cap(ASSET + 1), 300);
    c.set_asset_cap(ADMIN, ASSET, 0).unwrap();
    assert_eq!(c.get_effective_cap(ASSET), 300);
    c.set_global_cap(ADMIN, 0).unwrap();
    assert_eq!(c.get_effective_cap(ASSET), 0);
}

#[test]
fn deposit_reports_transfer_and_event() {
    let mut c = ready();
    assert_eq!(
        c.deposit(ALICE, ASSET, 50),
        Ok((
            TokenTransfer { token: TOKEN, from: Party::Account(ALICE), to: Party::Contract, amount: 50 },
            DepositEvent { asset: ASSET, from: ALICE, amount: 50, new_balance: 50 },
        ))
    );
}

#[test]
fn deposit_overflow_is_rejected_and_changes_nothing() {
    let mut c = ready();
    c.deposit(ALICE, ASSET, i128::MAX).unwrap();
    assert_eq!(c.deposit(ALICE, ASSET, 1), Err(Error::ArithmeticOverflow));
    assert_eq!(c.balance_of(ALICE, ASSET), i128::MAX);
}

#[test]
fn withdraw_reports_transfer_and_event() {
    let mut c = ready();
    c.deposit(ALICE, ASSET, 50).unwrap();
    assert_eq!(
        c.withdraw(ALICE, ASSET, 20),
        Ok((
            TokenTransfer { token: TOKEN, from: Party::Contract, to: Party::Account(ALICE), amount: 20 },
            WithdrawEvent { asset: ASSET, to: ALICE, amount: 20, new_balance: 30 },
        ))
    );
}

#[test]
fn withdraw_unregistered_asset_rejected_after_cap() {
    let mut c = ready();
    c.set_global_cap(ADMIN, 10).unwrap();
    assert_eq!(c.withdraw(ALICE, ASSET + 1, 11), Err(Error::CapExceeded));
    assert_eq!(c.withdraw(ALICE, ASSET + 1, 10), Err(Error::TokenNotRegistered));
}

#[test]
fn transfer_conserves_and_receiver_overflow_rejected() {
    let mut c = ready();
    c.deposit(ALICE, ASSET, 100).unwrap();
    assert_eq!(
        c.transfer(ALICE, BOB, ASSET, 40),
        Ok(TransferEvent { asset: ASSET, from: ALICE, to: BOB, amount: 40, from_balance: 60, to_balance: 40 })
    );
    assert_eq!(c.balance_of(ALICE, ASSET) + c.balance_of(BOB, ASSET), 100);
    c.deposit(BOB, ASSET, i128::MAX - 40).unwrap();
    assert_eq!(c.transfer(ALICE, BOB, ASSET, 1), Err(Error::ArithmeticOverflow));
    assert_eq!(c.balance_of(ALICE, ASSET), 60);
    assert_eq!(c.transfer(ALICE, BOB, ASSET, -1), Err(Error::InvalidAmount));
}

#[test]
fn deposit_then_withdraw_restores_balance() {
    let mut c = ready();
    c.deposit(ALICE, ASSET, 70).unwrap();
    c.deposit(ALICE, ASSET, 30).unwrap();
    c.withdraw(ALICE, ASSET, 30).unwrap();
    assert_eq!(c.balance_of(ALICE, ASSET), 70);
}

#[test]
fn escrow_events_and_settlement_transfer() {
    let mut c = ready();
    c.deposit(ALICE, ASSET, 100).unwrap();
    assert_eq!(
        c.create_escrow(ALICE, BOB, ASSET, 60, 5),
        Ok((1, EscrowCreatedEvent { escrow_id: 1, asset: ASSET, depositor: ALICE, receiver: BOB, amount: 60 }))
    );
    assert_eq!(
        c.refund_escrow(1, ALICE, 9),
        Ok((
            TokenTransfer { token: TOKEN, from: Party::Contract, to: Party::Account(ALICE), amount: 60 },
            EscrowSettledEvent { escrow_id: 1, outcome: SettlementOutcome::Refund, to: ALICE, amount: 60 },
        ))
    );
    let r = c.get_escrow(1).unwrap();
    assert_eq!(r.status, EscrowStatus::Refunded);
    assert_eq!(r.created_at, 5);
    assert_eq!(r.settled_at, 9);
    // A refund pays out tokens; the internal balance stays debited.
    assert_eq!(c.balance_of(ALICE, ASSET), 40);
}

#[test]
fn release_pays_receiver() {
    let mut c = ready();
    c.deposit(ALICE, ASSET, 100).unwrap();
    c.create_escrow(ALICE, BOB, ASSET, 60, 5).unwrap();
    let (t, e) = c.release_escrow(1, BOB, 6).unwrap();
    assert_eq!(t.to, Party::Account(BOB));
    assert_eq!(t.amount, 60);
    assert_eq!(e.outcome, SettlementOutcome::Release);
    assert_eq!(c.release_escrow(1, BOB, 7), Err(Error::EscrowNotActive));
}

#[test]
fn escrow_counter_overflow_is_rejected_and_changes_nothing() {
    let mut c = ready();
    c.deposit(ALICE, ASSET, 100).unwrap();
    assert!(c.load_escrow_count(u64::MAX));
    assert_eq!(c.create_escrow(ALICE, BOB, ASSET, 10, 0), Err(Error::ArithmeticOverflow));
    assert_eq!(c.balance_of(ALICE, ASSET), 100);
    assert_eq!(c.escrow_count(), u64::MAX);
}

#[test]
fn settlement_needs_registered_token() {
    let mut c = PaymentsContract::new();
    c.initialize(ADMIN).unwrap();
    assert!(c.load_balance(ALICE, ASSET, 100));
    c.create_escrow(ALICE, BOB, ASSET, 10, 0).unwrap();
    assert_eq!(c.release_escrow(1, ALICE, 1), Err(Error::TokenNotRegistered));
    assert_eq!(c.get_escrow(1).unwrap().status, EscrowStatus::Active);
    c.set_token(ADMIN, ASSET, TOKEN).unwrap();
    assert!(c.release_escrow(1, ALICE, 1).is_ok());
}

#[test]
fn listing_keeps_the_most_recent_window() {
    let mut c = ready();
    c.deposit(ALICE, ASSET, 1_000).unwrap();
    assert_eq!(c.list_escrows(), Vec::<EscrowRecord>::new());
    for _ in 0..(MAX_ESCROWS_RETURN + 5) {
        c.create_escrow(ALICE, BOB, ASSET, 1, 0).unwrap();
    }
    let listed = c.list_escrows();
    assert_eq!(listed.len(), MAX_ESCROWS_RETURN as usize);
    assert_eq!(listed[0].escrow_id, 6);
    assert_eq!(listed[listed.len() - 1].escrow_id, MAX_ESCROWS_RETURN as u64 + 5);
    assert_eq!(sum_escrow_amounts(&listed), MAX_ESCROWS_RETURN as i128);
}

/// What the ledger owes in `asset`: balances plus active escrows.
fn owed(c: &PaymentsContract, asset: u64, accounts: &[u64]) -> i128 {
    let balances: i128 = accounts.iter().map(|a| c.balance_of(*a, asset)).sum();
    let locked: i128 = c
        .list_escrows()
        .iter()
        .filter(|r| r.asset == asset && r.status == EscrowStatus::Active)
        .map(|r| r.amount)
        .sum();
    balances + locked
}

fn inflow(t: &TokenTransfer) -> i128 {
    match (t.from, t.to) {
        (Party::Contract, Party::Account(_)) => -t.amount,
        (Party::Account(_), Party::Contract) => t.amount,
        _ => 0,
    }
}

#[test]
fn owed_tracks_the_tokens_held() {
    let mut c = ready();
    let accounts = [ALICE, BOB];
    let mut held: i128 = 0;
    let (t, _) = c.deposit(ALICE, ASSET, 1_000).unwrap();
    held += inflow(&t);
    let (t, _) = c.deposit(BOB, ASSET, 500).unwrap();
    held += inflow(&t);
    assert_eq!(owed(&c, ASSET, &accounts), held);
    c.transfer(ALICE, BOB, ASSET, 300).unwrap();
    assert_eq!(owed(&c, ASSET, &accounts), held);
    let (id, _) = c.create_escrow(BOB, ALICE, ASSET, 400, 1).unwrap();
    assert_eq!(owed(&c, ASSET, &accounts), held);
    let (t, _) = c.release_escrow(id, BOB, 2).unwrap();
    held += inflow(&t);
    assert_eq!(owed(&c, ASSET, &accounts), held);
    let (t, _) = c.withdraw(ALICE, ASSET, 250).unwrap();
    held += inflow(&t);
    assert_eq!(owed(&c, ASSET, &accounts), held);
    assert_eq!(held, 1_000 + 500 - 400 - 250);
}

#[test]
fn release_is_bounded_by_a_cap_set_after_creation() {
    let mut c = ready();
    c.deposit(ALICE, ASSET, 200_000).unwrap();
    let (id, _) = c.create_escrow(ALICE, BOB, ASSET, 100_000, 0).unwrap();
    c.set_global_cap(ADMIN, 50_000).unwrap();
    assert_eq!(c.release_escrow(id, ALICE, 1), Err(Error::CapExceeded));
    assert_eq!(c.get_escrow(id).unwrap().status, EscrowStatus::Active);
    // A refund pays the depositor back and is not bounded by the cap.
    assert!(c.refund_escrow(id, BOB, 2).is_ok());
    let (id2, _) = c.create_escrow(ALICE, BOB, ASSET, 50_000, 3).unwrap();
    c.set_asset_cap(ADMIN, ASSET, 40_000).unwrap();
    assert_eq!(c.release_escrow(id2, BOB, 4), Err(Error::CapExceeded));
    c.set_asset_cap(ADMIN, ASSET, 0).unwrap();
    let (t, _) = c.release_escrow(id2, BOB, 5).unwrap();
    assert_eq!(t.amount, 50_000);
}

#[test]
fn loaders_refuse_what_the_ledger_never_stores() {
    let mut c = PaymentsContract::new();
    assert!(!c.load_balance(ALICE, ASSET, -1));
    assert!(c.load_balance(ALICE, ASSET, 0));
    assert!(!c.load_global_cap(0));
    assert!(!c.load_asset_cap(ASSET, -3));
    assert!(c.load_global_cap(9));
    assert_eq!(c.get_effective_cap(ASSET), 9);
    assert!(!c.load_escrow(record(1, 5)));
    assert!(c.load_escrow_count(3));
    assert!(!c.load_escrow_count(2));
    assert!(c.load_escrow(record(1, 5)));
    assert!(!c.load_escrow(record(4, 5)));
    assert!(!c.load_escrow(record(2, 0)));
    let mut settled = record(3, 5);
    settled.status = EscrowStatus::Released;
    settled.settled_at = 7;
    assert!(c.load_escrow(settled));
    let mut bad = record(2, 5);
    bad.settled_at = 7;
    assert!(!c.load_escrow(bad));
    c.load_admin(ADMIN);
    assert_eq!(c.get_admin(), Ok(ADMIN));
    c.load_token(ASSET, TOKEN);
    assert_eq!(c.get_token(ASSET), Ok(TOKEN));
    assert_eq!(c.get_escrow(3).unwrap().status, EscrowStatus::Released);
}

#[test]
fn settled_escrow_stays_settled_after_later_calls() {
    let mut c = ready();
    c.deposit(ALICE, ASSET, 1_000).unwrap();
    let (id, _) = c.create_escrow(ALICE, BOB, ASSET, 100, 1).unwrap();
    c.release_escrow(id, BOB, 2).unwrap();
    c.create_escrow(ALICE, BOB, ASSET, 100, 3).unwrap();
    c.transfer(ALICE, BOB, ASSET, 10).unwrap();
    c.set_global_cap(ADMIN, 5).unwrap();
    let r = c.get_escrow(id).unwrap();
    assert_eq!(r.status, EscrowStatus::Released);
    assert_eq!(r.settled_at, 2);
    assert_eq!(c.refund_escrow(id, ALICE, 4), Err(Error::EscrowNotActive));
}

#[test]
fn registrations_and_caps_persist_across_later_calls() {
    let mut c = ready();
    c.set_global_cap(ADMIN, 500).unwrap();
    c.set_asset_cap(ADMIN, ASSET, 200).unwrap();
    c.set_token(ADMIN, ASSET + 1, TOKEN + 1).unwrap();
    c.deposit(ALICE, ASSET, 100).unwrap();
    c.transfer(ALICE, BOB, ASSET, 50).unwrap();
    c.transfer_admin(ADMIN, BOB).unwrap();
    c.create_escrow(BOB, ALICE, ASSET, 20, 0).unwrap();
    assert_eq!(c.get_token(ASSET), Ok(TOKEN));
    assert_eq!(c.get_token(ASSET + 1), Ok(TOKEN + 1));
    assert_eq!(c.get_token(ASSET + 2), Err(Error::TokenNotRegistered));
    assert_eq!(c.get_effective_cap(ASSET), 200);
    assert_eq!(c.get_effective_cap(ASSET + 1), 500);
}

#[test]
fn owed_per_token_tracks_two_assets_of_one_token() {
    let mut c = ready();
    let other = ASSET + 1;
    c.set_token(ADMIN, other, TOKEN).unwrap();
    let mut held: i128 = 0;
    let (t, _) = c.deposit(ALICE, ASSET, 300).unwrap();
    held += inflow(&t);
    let (t, _) = c.deposit(BOB, other, 200).unwrap();
    held += inflow(&t);
    let (id, _) = c.create_escrow(BOB, ALICE, other, 150, 0).unwrap();
    let (t, _) = c.refund_escrow(id, ALICE, 1).unwrap();
    held += inflow(&t);
    assert_eq!(t.token, TOKEN);
    let owed_token = owed(&c, ASSET, &[ALICE, BOB]) + owed(&c, other, &[ALICE, BOB]);
    assert_eq!(owed_token, held);
    assert_eq!(held, 300 + 200 - 150);
}
