//! Laws of the payments ledger: properties that relate several operations,
//! or that hold of every state, proved over the ledger's model.
use vstd::prelude::*;
use crate::model::PaymentsModel;
use crate::records::{
    AccountId, AssetId, EscrowCreatedEvent, EscrowRecord, EscrowSettledEvent, EscrowStatus, Error,
    Party, TokenTransfer, TransferEvent, WithdrawEvent, MAX_ESCROWS_RETURN,
};
use crate::rules::exceeds_cap;

verus! {

/// A freshly deployed ledger satisfies the invariant.
pub proof fn lemma_empty_is_wf()
    ensures
        PaymentsModel::empty().wf(),
{
}

/// Initialization happens once: after a successful `initialize(first)`,
/// the admin is `first`, and any later `initialize` fails with
/// `AlreadyInitialized`.
pub proof fn lemma_initialize_once(s: PaymentsModel, first: AccountId, second: AccountId)
    requires
        s.initialize(first) is Ok,
    ensures
        s.initialize(first).unwrap().0.current_admin() == Ok::<AccountId, Error>(first),
        s.initialize(first).unwrap().0.initialize(second) == Err::<(PaymentsModel, ()), Error>(
            Error::AlreadyInitialized,
        ),
{
}

/// Only the admin may change the admin, the tokens or the caps: when the
/// ledger is initialized with admin `a`, any other caller gets
/// `Unauthorized` from each admin operation.
pub proof fn lemma_admin_ops_require_admin(
    s: PaymentsModel,
    caller: AccountId,
    new_admin: AccountId,
    asset: AssetId,
    token_id: AccountId,
    cap: i128,
)
    requires
        s.admin matches Some(a) && caller != a,
    ensures
        s.transfer_admin(caller, new_admin) is Err && s.transfer_admin(caller, new_admin)->Err_0
            == Error::Unauthorized,
        s.set_token(caller, asset, token_id) is Err && s.set_token(caller, asset, token_id)->Err_0
            == Error::Unauthorized,
        s.set_global_cap(caller, cap) is Err && s.set_global_cap(caller, cap)->Err_0
            == Error::Unauthorized,
        s.set_asset_cap(caller, asset, cap) is Err && s.set_asset_cap(caller, asset, cap)->Err_0
            == Error::Unauthorized,
{
}

/// Admin rotation: after the admin hands the role to someone else, the new
/// admin is recorded and may register tokens, and the old admin has lost
/// the power to.
pub proof fn lemma_admin_rotation(
    s: PaymentsModel,
    old_admin: AccountId,
    new_admin: AccountId,
    asset: AssetId,
    token_id: AccountId,
)
    requires
        s.transfer_admin(old_admin, new_admin) is Ok,
        old_admin != new_admin,
    ensures
        ({
            let n = s.transfer_admin(old_admin, new_admin).unwrap().0;
            &&& n.current_admin() == Ok::<AccountId, Error>(new_admin)
            &&& n.authorize(old_admin) == Err::<(), Error>(Error::Unauthorized)
            &&& n.set_token(old_admin, asset, token_id) is Err
            &&& n.set_token(old_admin, asset, token_id)->Err_0 == Error::Unauthorized
            &&& n.set_token(new_admin, asset, token_id) is Ok
            &&& n.set_token(new_admin, asset, token_id).unwrap().0.token_of(asset) == Ok::<
                AccountId,
                Error,
            >(token_id)
        }),
{
}

/// A deposit credits exactly the deposited amount to the depositor and asks
/// for exactly that amount of the asset's token to move into the contract;
/// no other balance, token, cap or escrow changes.
pub proof fn lemma_deposit_mirrors_tokens(
    s: PaymentsModel,
    from: AccountId,
    asset: AssetId,
    amount: i128,
    o: AccountId,
    a: AssetId,
)
    requires
        s.deposit(from, asset, amount) is Ok,
    ensures
        ({
            let (n, (t, e)) = s.deposit(from, asset, amount).unwrap();
            &&& n.balance(from, asset) == s.balance(from, asset) + amount
            &&& (o, a) != (from, asset) ==> n.balance(o, a) == s.balance(o, a)
            &&& t.amount == amount && t.from == Party::Account(from) && t.to == Party::Contract
            &&& s.token_of(asset) == Ok::<AccountId, Error>(t.token)
            &&& e.new_balance == n.balance(from, asset)
            &&& n.tokens == s.tokens && n.escrows == s.escrows && n.escrow_count == s.escrow_count
            &&& n.admin == s.admin && n.global_cap == s.global_cap && n.asset_caps == s.asset_caps
        }),
{
}

/// A withdrawal debits exactly the withdrawn amount from the owner's balance
/// and asks for exactly that amount of the asset's token to move out of the
/// contract to the owner; no other balance changes, and the owner's balance
/// stays non-negative.
pub proof fn lemma_withdraw_mirrors_tokens(
    s: PaymentsModel,
    to: AccountId,
    asset: AssetId,
    amount: i128,
    o: AccountId,
    a: AssetId,
)
    requires
        s.withdraw(to, asset, amount) is Ok,
    ensures
        ({
            let (n, (t, e)) = s.withdraw(to, asset, amount).unwrap();
            &&& n.balance(to, asset) == s.balance(to, asset) - amount
            &&& n.balance(to, asset) >= 0
            &&& (o, a) != (to, asset) ==> n.balance(o, a) == s.balance(o, a)
            &&& t.amount == amount && t.from == Party::Contract && t.to == Party::Account(to)
            &&& s.token_of(asset) == Ok::<AccountId, Error>(t.token)
            &&& e.new_balance == n.balance(to, asset)
            &&& n.tokens == s.tokens && n.escrows == s.escrows && n.escrow_count == s.escrow_count
        }),
{
}

/// An internal transfer conserves value: the sum of the two balances is
/// unchanged, the sender loses exactly `amount`, and no other balance, token
/// registration or escrow changes.
pub proof fn lemma_transfer_conserves(
    s: PaymentsModel,
    from: AccountId,
    to: AccountId,
    asset: AssetId,
    amount: i128,
    o: AccountId,
    a: AssetId,
)
    requires
        s.transfer(from, to, asset, amount) is Ok,
    ensures
        ({
            let n = s.transfer(from, to, asset, amount).unwrap().0;
            &&& n.balance(from, asset) + n.balance(to, asset) == s.balance(from, asset) + s.balance(
                to,
                asset,
            )
            &&& n.balance(from, asset) == s.balance(from, asset) - amount
            &&& n.balance(from, asset) >= 0
            &&& (o, a) != (from, asset) && (o, a) != (to, asset) ==> n.balance(o, a) == s.balance(o, a)
            &&& n.tokens == s.tokens && n.escrows == s.escrows && n.escrow_count == s.escrow_count
        }),
{
}

/// A deposit can be taken back: right after depositing `amount`, the same
/// account can withdraw the same amount unless a cap forbids it, and that
/// restores its balance.
pub proof fn lemma_deposit_then_withdraw(s: PaymentsModel, who: AccountId, asset: AssetId, amount: i128)
    requires
        s.wf(),
        s.deposit(who, asset, amount) is Ok,
        !exceeds_cap(s.effective_cap(asset), amount),
    ensures
        ({
            let n = s.deposit(who, asset, amount).unwrap().0;
            &&& n.withdraw(who, asset, amount) is Ok
            &&& n.withdraw(who, asset, amount).unwrap().0.balance(who, asset) == s.balance(who, asset)
        }),
{
    let n = s.deposit(who, asset, amount).unwrap().0;
    assert(s.balance(who, asset) >= 0);
    assert(n.asset_caps == s.asset_caps);
    assert(n.effective_cap(asset) == s.effective_cap(asset));
}

/// Caps bound every single outflow: withdraw, internal transfer, escrow
/// creation and escrow release each refuse an amount above the effective
/// cap of the asset with `CapExceeded`, whatever the balances, and leave
/// the ledger unchanged.
pub proof fn lemma_caps_bound_outflows(
    s: PaymentsModel,
    from: AccountId,
    to: AccountId,
    asset: AssetId,
    amount: i128,
    now: u64,
    escrow_id: u64,
    caller: AccountId,
)
    ensures
        amount > 0 && exceeds_cap(s.effective_cap(asset), amount) ==> s.withdraw(from, asset, amount)
            == Err::<(PaymentsModel, (TokenTransfer, WithdrawEvent)), Error>(Error::CapExceeded),
        amount > 0 && from != to && exceeds_cap(s.effective_cap(asset), amount) ==> s.transfer(
            from,
            to,
            asset,
            amount,
        ) == Err::<(PaymentsModel, TransferEvent), Error>(Error::CapExceeded),
        amount > 0 && from != to && exceeds_cap(s.effective_cap(asset), amount) ==> s.create_escrow(
            from,
            to,
            asset,
            amount,
            now,
        ) == Err::<(PaymentsModel, (u64, EscrowCreatedEvent)), Error>(Error::CapExceeded),
        ({
            let r = s.escrows[escrow_id];
            &&& s.escrows.contains_key(escrow_id)
            &&& r.status == EscrowStatus::Active
            &&& (caller == r.depositor || caller == r.receiver)
            &&& exceeds_cap(s.effective_cap(r.asset), r.amount)
        }) ==> s.settle_escrow(escrow_id, caller, true, now) == Err::<
            (PaymentsModel, (TokenTransfer, EscrowSettledEvent)),
            Error,
        >(Error::CapExceeded),
{
}

/// The effective cap is the stricter of the global and the asset cap: it is
/// set exactly when one of them is, and it is no larger than either.
pub proof fn lemma_effective_cap_is_stricter(s: PaymentsModel, asset: AssetId)
    ensures
        s.effective_cap(asset) is Some <==> (s.global_cap is Some || s.asset_caps.contains_key(asset)),
        s.effective_cap(asset) matches Some(c) ==> {
            &&& (s.global_cap matches Some(g) ==> c <= g)
            &&& (s.asset_caps.contains_key(asset) ==> c <= s.asset_caps[asset])
            &&& (s.global_cap == Some(c) || (s.asset_caps.contains_key(asset) && s.asset_caps[asset]
                == c))
        },
{
}

/// Caps apply per asset: setting the cap of one asset leaves the effective
/// cap of every other asset unchanged.
pub proof fn lemma_asset_cap_is_per_asset(
    s: PaymentsModel,
    admin: AccountId,
    asset: AssetId,
    cap: i128,
    other: AssetId,
)
    requires
        s.set_asset_cap(admin, asset, cap) is Ok,
        other != asset,
    ensures
        s.set_asset_cap(admin, asset, cap).unwrap().0.effective_cap(other) == s.effective_cap(other),
{
    let n = s.set_asset_cap(admin, asset, cap).unwrap().0;
    assert(n.asset_cap(other) == s.asset_cap(other));
}

/// Escrow ids increase one by one: a new escrow gets the id after the last
/// one handed out, and is stored as active under that id.
pub proof fn lemma_escrow_ids_increment(
    s: PaymentsModel,
    depositor: AccountId,
    receiver: AccountId,
    asset: AssetId,
    amount: i128,
    now: u64,
)
    requires
        s.create_escrow(depositor, receiver, asset, amount, now) is Ok,
    ensures
        ({
            let (n, (id, _)) = s.create_escrow(depositor, receiver, asset, amount, now).unwrap();
            &&& id == s.escrow_count + 1
            &&& n.escrow_count == id
            &&& n.escrow(id) is Ok
            &&& n.escrows[id].status == EscrowStatus::Active
            &&& n.escrows[id].amount == amount
            &&& n.balance(depositor, asset) == s.balance(depositor, asset) - amount
        }),
{
}

/// An escrow pays out what was locked: once created, either party can
/// release it to the receiver or refund it to the depositor (while the
/// asset's token is registered), and the payout moves exactly the locked
/// amount out of the contract to that account.
pub proof fn lemma_escrow_pays_out_locked_amount(
    s: PaymentsModel,
    depositor: AccountId,
    receiver: AccountId,
    asset: AssetId,
    amount: i128,
    now: u64,
    caller: AccountId,
    release: bool,
    later: u64,
)
    requires
        s.wf(),
        s.create_escrow(depositor, receiver, asset, amount, now) is Ok,
        s.tokens.contains_key(asset),
        caller == depositor || caller == receiver,
    ensures
        ({
            let (n, (id, _)) = s.create_escrow(depositor, receiver, asset, amount, now).unwrap();
            &&& n.settle_escrow(id, caller, release, later) is Ok
            &&& ({
                let (m, (t, e)) = n.settle_escrow(id, caller, release, later).unwrap();
                &&& t.amount == amount
                &&& t.from == Party::Contract
                &&& t.to == Party::Account(if release { receiver } else { depositor })
                &&& t.token == s.tokens[asset]
                &&& e.to == (if release { receiver } else { depositor })
                &&& m.escrows[id].status == (if release {
                    EscrowStatus::Released
                } else {
                    EscrowStatus::Refunded
                })
                &&& m.escrows[id].settled_at == later
                &&& m.balances == n.balances
            })
        }),
{
}

/// The escrows between `lo` and `hi` of a well-formed ledger are all
/// stored, in id order.
proof fn lemma_records_between(s: PaymentsModel, lo: u64, hi: u64)
    requires
        s.wf(),
        lo <= hi <= s.escrow_count,
    ensures
        s.records_between(lo, hi).len() == hi - lo,
        forall|i: int|
            0 <= i < hi - lo ==> #[trigger] s.records_between(lo, hi)[i] == s.escrows[(lo + 1
                + i) as u64],
    decreases hi - lo,
{
    if hi > lo {
        lemma_records_between(s, lo, (hi - 1) as u64);
        assert(s.escrows.contains_key(hi));
    }
}

/// Listing returns the most recent escrows, newest last: exactly the last
/// `min(escrow_count, MAX_ESCROWS_RETURN)` escrows, in increasing id order.
pub proof fn lemma_recent_escrows(s: PaymentsModel)
    requires
        s.wf(),
    ensures
        s.recent_escrows().len() == (if s.escrow_count > MAX_ESCROWS_RETURN {
            MAX_ESCROWS_RETURN as int
        } else {
            s.escrow_count as int
        }),
        forall|i: int|
            0 <= i < s.recent_escrows().len() ==> {
                let r: EscrowRecord = #[trigger] s.recent_escrows()[i];
                &&& r == s.escrows[(s.list_start() + 1 + i) as u64]
                &&& r.escrow_id == s.list_start() + 1 + i
            },
{
    lemma_records_between(s, s.list_start(), s.escrow_count);
    assert forall|i: int| 0 <= i < s.recent_escrows().len() implies {
        let r: EscrowRecord = #[trigger] s.recent_escrows()[i];
        &&& r == s.escrows[(s.list_start() + 1 + i) as u64]
        &&& r.escrow_id == s.list_start() + 1 + i
    } by {
        assert(s.escrows.contains_key((s.list_start() + 1 + i) as u64));
    }
}

} // verus!
