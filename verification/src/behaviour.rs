//! What each operation does, stated over what can be observed of the
//! ledger: balances, the admin, token registrations, caps and escrow
//! records. For every operation: exactly when it succeeds, which error it
//! gives otherwise, what the ledger looks like afterwards, and what it hands
//! back. These hold for every well-formed ledger and every argument.
use vstd::prelude::*;
use crate::model::PaymentsModel;
use crate::records::{
    escrow_amounts, saturating_total, AccountId, AdminSetEvent, AssetId, CapSetEvent, DepositEvent, Error, EscrowCreatedEvent,
    EscrowRecord, EscrowSettledEvent, EscrowStatus, Party, SettlementOutcome, TokenTransfer,
    TransferEvent, WithdrawEvent,
};

verus! {

/// `r` is the error `e`.
pub open spec fn fails_with<T>(r: Result<T, Error>, e: Error) -> bool {
    r == Err::<T, Error>(e)
}

/// The cap that applies to `asset`: the smaller of the global cap and the
/// cap of the asset, where set.
pub open spec fn applicable_cap(s: PaymentsModel, asset: AssetId) -> Option<i128> {
    let g = s.global_cap;
    let a = if s.asset_caps.contains_key(asset) {
        Some(s.asset_caps[asset])
    } else {
        None
    };
    if g is Some && a is Some {
        if g->0 <= a->0 {
            g
        } else {
            a
        }
    } else if g is Some {
        g
    } else {
        a
    }
}

/// `amount` is within the cap that applies to `asset`.
pub open spec fn within_cap(s: PaymentsModel, asset: AssetId, amount: i128) -> bool {
    applicable_cap(s, asset) matches Some(c) ==> amount <= c
}

/// `n` is `s` with at most the balances of `p` and `q` changed.
pub open spec fn only_balances_differ(
    s: PaymentsModel,
    n: PaymentsModel,
    p: (AccountId, AssetId),
    q: (AccountId, AssetId),
) -> bool {
    &&& n.admin == s.admin
    &&& n.tokens == s.tokens
    &&& n.global_cap == s.global_cap
    &&& n.asset_caps == s.asset_caps
    &&& n.escrow_count == s.escrow_count
    &&& n.escrows == s.escrows
    &&& forall|o: AccountId, a: AssetId|
        (o, a) != p && (o, a) != q ==> #[trigger] n.balance(o, a) == s.balance(o, a)
}

/// `n` has the same balances and escrows as `s`.
pub open spec fn same_funds(s: PaymentsModel, n: PaymentsModel) -> bool {
    &&& forall|o: AccountId, a: AssetId| #[trigger] n.balance(o, a) == s.balance(o, a)
    &&& n.escrow_count == s.escrow_count
    &&& n.escrows == s.escrows
}

/// The applicable cap is the stricter of the two that can be set.
pub proof fn lemma_applicable_cap(s: PaymentsModel, asset: AssetId)
    ensures
        s.effective_cap(asset) == applicable_cap(s, asset),
{
}

/// Initialization succeeds exactly when there is no admin yet, and then
/// records `admin` and changes nothing else.
pub proof fn lemma_initialize_behaviour(s: PaymentsModel, admin: AccountId)
    ensures
        s.initialize(admin) is Ok <==> s.admin is None,
        s.admin is Some ==> fails_with(s.initialize(admin), Error::AlreadyInitialized),
        s.initialize(admin) matches Ok((n, _)) ==> {
            &&& n.admin == Some(admin)
            &&& n.tokens == s.tokens && n.global_cap == s.global_cap && n.asset_caps == s.asset_caps
            &&& same_funds(s, n)
        },
{
}

/// Handing over the admin role succeeds exactly when the caller is the
/// admin; then the new admin is recorded, the event names both, and nothing
/// else changes.
pub proof fn lemma_transfer_admin_behaviour(s: PaymentsModel, caller: AccountId, new_admin: AccountId)
    ensures
        s.transfer_admin(caller, new_admin) is Ok <==> s.admin == Some(caller),
        s.admin is None ==> fails_with(s.transfer_admin(caller, new_admin), Error::NotInitialized),
        (s.admin is Some && s.admin != Some(caller)) ==> fails_with(
            s.transfer_admin(caller, new_admin),
            Error::Unauthorized,
        ),
        s.transfer_admin(caller, new_admin) matches Ok((n, e)) ==> {
            &&& n.admin == Some(new_admin)
            &&& e == AdminSetEvent { old_admin: caller, new_admin }
            &&& n.tokens == s.tokens && n.global_cap == s.global_cap && n.asset_caps == s.asset_caps
            &&& same_funds(s, n)
        },
{
}

/// Registering a token succeeds exactly when the caller is the admin; then
/// the asset is backed by that token, every other registration stays, and
/// nothing else changes.
pub proof fn lemma_set_token_behaviour(
    s: PaymentsModel,
    admin: AccountId,
    asset: AssetId,
    token_id: AccountId,
    other: AssetId,
)
    ensures
        s.set_token(admin, asset, token_id) is Ok <==> s.admin == Some(admin),
        s.admin is None ==> fails_with(s.set_token(admin, asset, token_id), Error::NotInitialized),
        (s.admin is Some && s.admin != Some(admin)) ==> fails_with(
            s.set_token(admin, asset, token_id),
            Error::Unauthorized,
        ),
        s.set_token(admin, asset, token_id) matches Ok((n, _)) ==> {
            &&& n.token_of(asset) == Ok::<AccountId, Error>(token_id)
            &&& other != asset ==> n.token_of(other) == s.token_of(other)
            &&& n.admin == s.admin && n.global_cap == s.global_cap && n.asset_caps == s.asset_caps
            &&& same_funds(s, n)
        },
{
}

/// Setting the global cap succeeds exactly when the caller is the admin and
/// the cap is not negative, whatever the asset caps are; then the global
/// cap is `cap`, or none for 0, and nothing else changes.
pub proof fn lemma_set_global_cap_behaviour(s: PaymentsModel, admin: AccountId, cap: i128)
    ensures
        s.set_global_cap(admin, cap) is Ok <==> (s.admin == Some(admin) && cap >= 0),
        s.admin is None ==> fails_with(s.set_global_cap(admin, cap), Error::NotInitialized),
        (s.admin is Some && s.admin != Some(admin)) ==> fails_with(
            s.set_global_cap(admin, cap),
            Error::Unauthorized,
        ),
        (s.admin == Some(admin) && cap < 0) ==> fails_with(
            s.set_global_cap(admin, cap),
            Error::InvalidAmount,
        ),
        s.set_global_cap(admin, cap) matches Ok((n, e)) ==> {
            &&& n.global_cap == (if cap == 0 {
                None
            } else {
                Some(cap)
            })
            &&& e == CapSetEvent { asset: None, cap }
            &&& n.admin == s.admin && n.tokens == s.tokens && n.asset_caps == s.asset_caps
            &&& same_funds(s, n)
        },
{
}

/// Setting the cap of an asset succeeds exactly when the caller is the
/// admin and the cap is not negative, whatever the global cap is; then the
/// asset's own cap is `cap`, or none for 0, every other asset's cap and the
/// global cap stay, and nothing else changes.
pub proof fn lemma_set_asset_cap_behaviour(
    s: PaymentsModel,
    admin: AccountId,
    asset: AssetId,
    cap: i128,
    other: AssetId,
)
    ensures
        s.set_asset_cap(admin, asset, cap) is Ok <==> (s.admin == Some(admin) && cap >= 0),
        s.admin is None ==> fails_with(s.set_asset_cap(admin, asset, cap), Error::NotInitialized),
        (s.admin is Some && s.admin != Some(admin)) ==> fails_with(
            s.set_asset_cap(admin, asset, cap),
            Error::Unauthorized,
        ),
        (s.admin == Some(admin) && cap < 0) ==> fails_with(
            s.set_asset_cap(admin, asset, cap),
            Error::InvalidAmount,
        ),
        s.set_asset_cap(admin, asset, cap) matches Ok((n, e)) ==> {
            &&& n.asset_cap(asset) == (if cap == 0 {
                None::<i128>
            } else {
                Some(cap)
            })
            &&& other != asset ==> n.asset_cap(other) == s.asset_cap(other)
            &&& e == CapSetEvent { asset: Some(asset), cap }
            &&& n.admin == s.admin && n.tokens == s.tokens && n.global_cap == s.global_cap
            &&& same_funds(s, n)
        },
{
    if s.set_asset_cap(admin, asset, cap) is Ok {
        let n = s.set_asset_cap(admin, asset, cap).unwrap().0;
        if other != asset {
            assert(n.asset_caps.contains_key(other) == s.asset_caps.contains_key(other));
        }
    }
}

/// A deposit succeeds for any account (the admin's too) exactly when the
/// amount is positive, the asset has a token and the new balance fits;
/// then exactly that amount is credited and moves from the account into
/// the contract on the asset's token.
pub proof fn lemma_deposit_behaviour(s: PaymentsModel, from: AccountId, asset: AssetId, amount: i128)
    requires
        s.wf(),
    ensures
        s.deposit(from, asset, amount) is Ok <==> (amount > 0 && s.tokens.contains_key(asset)
            && s.balance(from, asset) + amount <= i128::MAX),
        amount <= 0 ==> fails_with(s.deposit(from, asset, amount), Error::InvalidAmount),
        (amount > 0 && !s.tokens.contains_key(asset)) ==> fails_with(
            s.deposit(from, asset, amount),
            Error::TokenNotRegistered,
        ),
        (amount > 0 && s.tokens.contains_key(asset) && s.balance(from, asset) + amount
            > i128::MAX) ==> fails_with(s.deposit(from, asset, amount), Error::ArithmeticOverflow),
        s.deposit(from, asset, amount) matches Ok((n, (t, e))) ==> {
            &&& n.balance(from, asset) == s.balance(from, asset) + amount
            &&& only_balances_differ(s, n, (from, asset), (from, asset))
            &&& t == TokenTransfer {
                token: s.tokens[asset],
                from: Party::Account(from),
                to: Party::Contract,
                amount,
            }
            &&& e == DepositEvent { asset, from, amount, new_balance: n.balance(from, asset) }
        },
{
}

/// A withdrawal succeeds exactly when the amount is positive, within the
/// cap, the asset has a token and the balance covers it (the whole balance
/// included); then exactly that amount is debited and moves from the
/// contract to the account on the asset's token.
pub proof fn lemma_withdraw_behaviour(s: PaymentsModel, to: AccountId, asset: AssetId, amount: i128)
    requires
        s.wf(),
    ensures
        s.withdraw(to, asset, amount) is Ok <==> (amount > 0 && within_cap(s, asset, amount)
            && s.tokens.contains_key(asset) && amount <= s.balance(to, asset)),
        amount <= 0 ==> fails_with(s.withdraw(to, asset, amount), Error::InvalidAmount),
        (amount > 0 && !within_cap(s, asset, amount)) ==> fails_with(
            s.withdraw(to, asset, amount),
            Error::CapExceeded,
        ),
        (amount > 0 && within_cap(s, asset, amount) && !s.tokens.contains_key(asset)) ==> fails_with(
            s.withdraw(to, asset, amount),
            Error::TokenNotRegistered,
        ),
        (amount > 0 && within_cap(s, asset, amount) && s.tokens.contains_key(asset) && amount
            > s.balance(to, asset)) ==> fails_with(
            s.withdraw(to, asset, amount),
            Error::InsufficientBalance,
        ),
        s.withdraw(to, asset, amount) matches Ok((n, (t, e))) ==> {
            &&& n.balance(to, asset) == s.balance(to, asset) - amount
            &&& only_balances_differ(s, n, (to, asset), (to, asset))
            &&& t == TokenTransfer {
                token: s.tokens[asset],
                from: Party::Contract,
                to: Party::Account(to),
                amount,
            }
            &&& e == WithdrawEvent { asset, to, amount, new_balance: n.balance(to, asset) }
        },
{
    lemma_applicable_cap(s, asset);
    assert(s.balance(to, asset) >= 0);
}

/// An internal transfer succeeds exactly when the amount is positive, the
/// two accounts differ, the amount is within the cap, the sender's balance
/// covers it (the whole balance included) and the receiver's new balance
/// fits; then exactly that amount moves from one balance to the other and
/// no tokens move.
pub proof fn lemma_transfer_behaviour(
    s: PaymentsModel,
    from: AccountId,
    to: AccountId,
    asset: AssetId,
    amount: i128,
)
    requires
        s.wf(),
    ensures
        s.transfer(from, to, asset, amount) is Ok <==> (amount > 0 && from != to && within_cap(
            s,
            asset,
            amount,
        ) && amount <= s.balance(from, asset) && s.balance(to, asset) + amount <= i128::MAX),
        (amount <= 0 || from == to) ==> fails_with(
            s.transfer(from, to, asset, amount),
            Error::InvalidAmount,
        ),
        (amount > 0 && from != to && !within_cap(s, asset, amount)) ==> fails_with(
            s.transfer(from, to, asset, amount),
            Error::CapExceeded,
        ),
        (amount > 0 && from != to && within_cap(s, asset, amount) && amount > s.balance(
            from,
            asset,
        )) ==> fails_with(s.transfer(from, to, asset, amount), Error::InsufficientBalance),
        (amount > 0 && from != to && within_cap(s, asset, amount) && amount <= s.balance(
            from,
            asset,
        ) && s.balance(to, asset) + amount > i128::MAX) ==> fails_with(
            s.transfer(from, to, asset, amount),
            Error::ArithmeticOverflow,
        ),
        s.transfer(from, to, asset, amount) matches Ok((n, e)) ==> {
            &&& n.balance(from, asset) == s.balance(from, asset) - amount
            &&& n.balance(to, asset) == s.balance(to, asset) + amount
            &&& only_balances_differ(s, n, (from, asset), (to, asset))
            &&& e == TransferEvent {
                asset,
                from,
                to,
                amount,
                from_balance: n.balance(from, asset),
                to_balance: n.balance(to, asset),
            }
        },
{
    lemma_applicable_cap(s, asset);
    assert(s.balance(from, asset) >= 0);
}

/// Creating an escrow succeeds exactly when the amount is positive, the two
/// parties differ, the amount is within the cap, the depositor's balance
/// covers it (the whole balance included) and an id is left; then the
/// amount leaves the depositor's balance and is locked in a new active
/// escrow whose id is one more than the last, every other escrow stays, and
/// no tokens move.
pub proof fn lemma_create_escrow_behaviour(
    s: PaymentsModel,
    depositor: AccountId,
    receiver: AccountId,
    asset: AssetId,
    amount: i128,
    now: u64,
    other: u64,
)
    requires
        s.wf(),
    ensures
        s.create_escrow(depositor, receiver, asset, amount, now) is Ok <==> (amount > 0 && depositor
            != receiver && within_cap(s, asset, amount) && amount <= s.balance(depositor, asset)
            && s.escrow_count < u64::MAX),
        (amount <= 0 || depositor == receiver) ==> fails_with(
            s.create_escrow(depositor, receiver, asset, amount, now),
            Error::InvalidAmount,
        ),
        (amount > 0 && depositor != receiver && !within_cap(s, asset, amount)) ==> fails_with(
            s.create_escrow(depositor, receiver, asset, amount, now),
            Error::CapExceeded,
        ),
        (amount > 0 && depositor != receiver && within_cap(s, asset, amount) && amount > s.balance(
            depositor,
            asset,
        )) ==> fails_with(
            s.create_escrow(depositor, receiver, asset, amount, now),
            Error::InsufficientBalance,
        ),
        s.create_escrow(depositor, receiver, asset, amount, now) matches Ok((n, (id, e))) ==> {
            &&& id == s.escrow_count + 1
            &&& n.escrow_count == id
            &&& n.escrows.contains_key(id)
            &&& n.escrows[id] == EscrowRecord {
                escrow_id: id,
                asset,
                depositor,
                receiver,
                amount,
                status: EscrowStatus::Active,
                created_at: now,
                settled_at: 0,
            }
            &&& other != id ==> (n.escrows.contains_key(other) == s.escrows.contains_key(other)
                && n.escrows[other] == s.escrows[other])
            &&& n.balance(depositor, asset) == s.balance(depositor, asset) - amount
            &&& forall|o: AccountId, a: AssetId|
                (o, a) != (depositor, asset) ==> #[trigger] n.balance(o, a) == s.balance(o, a)
            &&& n.admin == s.admin && n.tokens == s.tokens && n.global_cap == s.global_cap
                && n.asset_caps == s.asset_caps
            &&& e == EscrowCreatedEvent { escrow_id: id, asset, depositor, receiver, amount }
        },
{
    lemma_applicable_cap(s, asset);
    assert(s.balance(depositor, asset) >= 0);
}

/// Settling any escrow (not only the newest) succeeds exactly when it
/// exists, is active, the caller is one of its parties, a release is within
/// the cap, and its asset has a token. Then the escrow's locked amount moves
/// from the contract, on the asset's token, to the receiver on a release
/// and to the depositor on a refund; the escrow is marked accordingly with
/// the settlement time; every other escrow and every balance stays.
pub proof fn lemma_settle_escrow_behaviour(
    s: PaymentsModel,
    escrow_id: u64,
    caller: AccountId,
    release: bool,
    now: u64,
    other: u64,
)
    ensures
        ({
            let r = s.escrows[escrow_id];
            s.settle_escrow(escrow_id, caller, release, now) is Ok <==> {
                &&& s.escrows.contains_key(escrow_id)
                &&& r.status == EscrowStatus::Active
                &&& (caller == r.depositor || caller == r.receiver)
                &&& (release ==> within_cap(s, r.asset, r.amount))
                &&& s.tokens.contains_key(r.asset)
            }
        }),
        !s.escrows.contains_key(escrow_id) ==> fails_with(
            s.settle_escrow(escrow_id, caller, release, now),
            Error::EscrowNotFound,
        ),
        (s.escrows.contains_key(escrow_id) && s.escrows[escrow_id].status != EscrowStatus::Active)
            ==> fails_with(s.settle_escrow(escrow_id, caller, release, now), Error::EscrowNotActive),
        ({
            let r = s.escrows[escrow_id];
            &&& s.escrows.contains_key(escrow_id)
            &&& r.status == EscrowStatus::Active
            &&& caller != r.depositor
            &&& caller != r.receiver
        }) ==> fails_with(s.settle_escrow(escrow_id, caller, release, now), Error::NotEscrowParty),
        ({
            let r = s.escrows[escrow_id];
            &&& s.escrows.contains_key(escrow_id)
            &&& r.status == EscrowStatus::Active
            &&& (caller == r.depositor || caller == r.receiver)
            &&& release
            &&& !within_cap(s, r.asset, r.amount)
        }) ==> fails_with(s.settle_escrow(escrow_id, caller, release, now), Error::CapExceeded),
        s.settle_escrow(escrow_id, caller, release, now) matches Ok((n, (t, e))) ==> {
            let r = s.escrows[escrow_id];
            let payee = if release {
                r.receiver
            } else {
                r.depositor
            };
            &&& t == TokenTransfer {
                token: s.tokens[r.asset],
                from: Party::Contract,
                to: Party::Account(payee),
                amount: r.amount,
            }
            &&& e == EscrowSettledEvent {
                escrow_id,
                outcome: if release {
                    SettlementOutcome::Release
                } else {
                    SettlementOutcome::Refund
                },
                to: payee,
                amount: r.amount,
            }
            &&& n.escrows.contains_key(escrow_id)
            &&& n.escrows[escrow_id] == EscrowRecord {
                status: if release {
                    EscrowStatus::Released
                } else {
                    EscrowStatus::Refunded
                },
                settled_at: now,
                ..r
            }
            &&& other != escrow_id ==> (n.escrows.contains_key(other) == s.escrows.contains_key(
                other,
            ) && n.escrows[other] == s.escrows[other])
            &&& forall|o: AccountId, a: AssetId| #[trigger] n.balance(o, a) == s.balance(o, a)
            &&& n.escrow_count == s.escrow_count
            &&& n.admin == s.admin && n.tokens == s.tokens && n.global_cap == s.global_cap
                && n.asset_caps == s.asset_caps
        },
{
    lemma_applicable_cap(s, s.escrows[escrow_id].asset);
}

/// A freshly deployed ledger has no admin, no tokens, no caps, no escrows,
/// and every balance is 0.
pub proof fn lemma_fresh_ledger(o: AccountId, a: AssetId, id: u64)
    ensures
        PaymentsModel::empty().admin is None,
        PaymentsModel::empty().balance(o, a) == 0,
        fails_with(PaymentsModel::empty().token_of(a), Error::TokenNotRegistered),
        PaymentsModel::empty().effective_cap(a) is None,
        PaymentsModel::empty().escrow_count == 0,
        fails_with(PaymentsModel::empty().escrow(id), Error::EscrowNotFound),
{
}

/// The lookups give what is stored: the admin, the token of an asset and
/// an escrow record, or the error for one that is not there.
pub proof fn lemma_lookups(s: PaymentsModel, asset: AssetId, id: u64)
    ensures
        s.current_admin() == (match s.admin {
            Some(a) => Ok::<AccountId, Error>(a),
            None => Err(Error::NotInitialized),
        }),
        s.tokens.contains_key(asset) ==> s.token_of(asset) == Ok::<AccountId, Error>(s.tokens[asset]),
        !s.tokens.contains_key(asset) ==> fails_with(s.token_of(asset), Error::TokenNotRegistered),
        s.escrows.contains_key(id) ==> s.escrow(id) == Ok::<EscrowRecord, Error>(s.escrows[id]),
        !s.escrows.contains_key(id) ==> fails_with(s.escrow(id), Error::EscrowNotFound),
{
}

/// The plain sum of `amounts`.
pub open spec fn plain_sum(amounts: Seq<i128>) -> int {
    amounts.fold_left(0int, |acc: int, x: i128| acc + x)
}

/// The saturating total of escrow amounts always lies within `i128`.
pub proof fn lemma_saturating_total_in_range(amounts: Seq<i128>)
    ensures
        i128::MIN <= saturating_total(amounts) <= i128::MAX,
    decreases amounts.len(),
{
    if amounts.len() > 0 {
        lemma_saturating_total_in_range(amounts.drop_last());
    }
}

proof fn lemma_plain_sum_nonnegative(amounts: Seq<i128>)
    requires
        forall|i: int| 0 <= i < amounts.len() ==> amounts[i] >= 0,
    ensures
        plain_sum(amounts) >= 0,
    decreases amounts.len(),
{
    if amounts.len() > 0 {
        let p = amounts.drop_last();
        assert forall|i: int| 0 <= i < p.len() implies p[i] >= 0 by {
            assert(p[i] == amounts[i]);
        }
        lemma_plain_sum_nonnegative(p);
        assert(amounts.last() >= 0);
    }
}

/// For amounts that are not negative, the saturating total is the plain
/// sum, capped at `i128::MAX`.
pub proof fn lemma_saturating_total_of_nonnegative(amounts: Seq<i128>)
    requires
        forall|i: int| 0 <= i < amounts.len() ==> amounts[i] >= 0,
    ensures
        saturating_total(amounts) == (if plain_sum(amounts) > i128::MAX {
            i128::MAX as int
        } else {
            plain_sum(amounts)
        }),
    decreases amounts.len(),
{
    if amounts.len() > 0 {
        let p = amounts.drop_last();
        assert forall|i: int| 0 <= i < p.len() implies p[i] >= 0 by {
            assert(p[i] == amounts[i]);
        }
        lemma_saturating_total_of_nonnegative(p);
        assert(amounts.last() >= 0);
        assert(plain_sum(amounts) == plain_sum(p) + amounts.last());
        lemma_plain_sum_nonnegative(p);
    }
}

/// The plain sum of the amounts of `records`.
pub open spec fn amount_sum(records: Seq<EscrowRecord>) -> int {
    records.fold_left(0int, |acc: int, r: EscrowRecord| acc + r.amount)
}

proof fn lemma_amount_sum(records: Seq<EscrowRecord>)
    ensures
        plain_sum(escrow_amounts(records)) == amount_sum(records),
        escrow_amounts(records).len() == records.len(),
        forall|i: int| 0 <= i < records.len() ==> #[trigger] escrow_amounts(records)[i] == records[i].amount,
    decreases records.len(),
{
    if records.len() > 0 {
        lemma_amount_sum(records.drop_last());
        assert(escrow_amounts(records).drop_last() =~= escrow_amounts(records.drop_last()));
    }
}

/// Summing escrow records adds up their amounts in order, saturating at the
/// bounds of `i128`: for records with non-negative amounts (every stored
/// escrow) that is the plain sum of the amounts, capped at `i128::MAX`.
pub proof fn lemma_sum_of_escrow_records(records: Seq<EscrowRecord>)
    requires
        forall|i: int| 0 <= i < records.len() ==> records[i].amount >= 0,
    ensures
        saturating_total(escrow_amounts(records)) == (if amount_sum(records) > i128::MAX {
            i128::MAX as int
        } else {
            amount_sum(records)
        }),
{
    let a = escrow_amounts(records);
    lemma_amount_sum(records);
    assert forall|i: int| 0 <= i < a.len() implies a[i] >= 0 by {
        assert(a[i] == records[i].amount);
    }
    lemma_saturating_total_of_nonnegative(a);
}

} // verus!
