//! What the contract owes in each asset and in each token contract, and the
//! law that the ledger mirrors the tokens it holds: every operation changes
//! what is owed in an asset, and in all the assets of a token, by exactly
//! the amount of that token it moves into the contract, minus the amount it
//! moves out, over single calls and over any run of calls. Value is never
//! created or destroyed inside the ledger.
use vstd::prelude::*;
use vstd::set::fold::{is_fun_commutative, lemma_fold_empty, lemma_fold_insert};
use crate::history::{after, run, step, Op};
use crate::model::PaymentsModel;
use crate::records::{AccountId, AssetId, Error, EscrowRecord, EscrowStatus, Party, TokenTransfer};

verus! {

/// The sum of `f` over the finite set `d`.
pub open spec fn total<K>(d: Set<K>, f: spec_fn(K) -> int) -> int {
    d.fold(0int, |acc: int, k: K| acc + f(k))
}

/// The sum of `w(k, m[k])` over the keys `k` of `m`.
pub open spec fn weighted<K, V>(m: Map<K, V>, w: spec_fn(K, V) -> int) -> int {
    total(m.dom(), |k: K| w(k, m[k]))
}

/// A stored balance counts towards asset `x` when it is a balance in `x`.
pub open spec fn balance_weight(x: AssetId) -> spec_fn((AccountId, AssetId), i128) -> int {
    |k: (AccountId, AssetId), b: i128|
        if k.1 == x {
            b as int
        } else {
            0
        }
}

/// An escrow counts towards asset `x` while it is active and in `x`.
pub open spec fn escrow_weight(x: AssetId) -> spec_fn(u64, EscrowRecord) -> int {
    |id: u64, r: EscrowRecord|
        if r.asset == x && r.status == EscrowStatus::Active {
            r.amount as int
        } else {
            0
        }
}

/// What the contract owes in asset `x`: the internal balances in `x` plus
/// the amounts locked in active escrows of `x`.
pub open spec fn owed(s: PaymentsModel, x: AssetId) -> int {
    weighted(s.balances, balance_weight(x)) + weighted(s.escrows, escrow_weight(x))
}

/// The change a token transfer makes to the contract's holding: `+amount`
/// when the tokens come in, `-amount` when they go out.
pub open spec fn inflow(t: TokenTransfer) -> int {
    if t.to == Party::Contract && t.from != Party::Contract {
        t.amount as int
    } else if t.from == Party::Contract && t.to != Party::Contract {
        -t.amount
    } else {
        0
    }
}

proof fn lemma_sum_commutative<K>(f: spec_fn(K) -> int)
    ensures
        is_fun_commutative(|acc: int, k: K| acc + f(k)),
{
}

proof fn lemma_total_insert<K>(d: Set<K>, f: spec_fn(K) -> int, k: K)
    requires
        d.finite(),
        !d.contains(k),
    ensures
        total(d.insert(k), f) == total(d, f) + f(k),
{
    lemma_sum_commutative(f);
    lemma_fold_insert(d, 0int, |acc: int, k: K| acc + f(k), k);
}

proof fn lemma_total_remove<K>(d: Set<K>, f: spec_fn(K) -> int, k: K)
    requires
        d.finite(),
        d.contains(k),
    ensures
        total(d, f) == total(d.remove(k), f) + f(k),
{
    lemma_total_insert(d.remove(k), f, k);
    assert(d.remove(k).insert(k) =~= d);
}

proof fn lemma_total_congruent<K>(d: Set<K>, f: spec_fn(K) -> int, g: spec_fn(K) -> int)
    requires
        d.finite(),
        forall|k: K| d.contains(k) ==> f(k) == g(k),
    ensures
        total(d, f) == total(d, g),
    decreases d.len(),
{
    if d.len() == 0 {
        assert(d =~= Set::empty());
        lemma_fold_empty(0int, |acc: int, k: K| acc + f(k));
        lemma_fold_empty(0int, |acc: int, k: K| acc + g(k));
    } else {
        let k = d.choose();
        assert(d.contains(k));
        lemma_total_remove(d, f, k);
        lemma_total_remove(d, g, k);
        lemma_total_congruent(d.remove(k), f, g);
    }
}

/// Replacing one entry of a finite map changes its weighted sum by the
/// weight of the new entry minus that of the old one.
proof fn lemma_weighted_insert<K, V>(m: Map<K, V>, w: spec_fn(K, V) -> int, k: K, v: V)
    requires
        m.dom().finite(),
    ensures
        weighted(m.insert(k, v), w) == weighted(m, w) - (if m.contains_key(k) {
            w(k, m[k])
        } else {
            0
        }) + w(k, v),
{
    let m2 = m.insert(k, v);
    let f1 = |j: K| w(j, m[j]);
    let f2 = |j: K| w(j, m2[j]);
    let d = m.dom().remove(k);
    assert(m2.dom() =~= d.insert(k));
    lemma_total_insert(d, f2, k);
    lemma_total_congruent(d, f1, f2);
    if m.contains_key(k) {
        lemma_total_remove(m.dom(), f1, k);
    } else {
        assert(d =~= m.dom());
    }
}

/// A deposit raises what is owed in its asset by exactly the tokens it
/// brings into the contract, and leaves every other asset as it was.
pub proof fn lemma_deposit_owed(s: PaymentsModel, from: AccountId, asset: AssetId, amount: i128, x: AssetId)
    requires
        s.wf(),
        s.deposit(from, asset, amount) is Ok,
    ensures
        ({
            let (n, (t, _)) = s.deposit(from, asset, amount).unwrap();
            owed(n, x) == owed(s, x) + (if x == asset { inflow(t) } else { 0 })
        }),
{
    let nb = (s.balance(from, asset) + amount) as i128;
    lemma_weighted_insert(s.balances, balance_weight(x), (from, asset), nb);
}

/// A withdrawal lowers what is owed in its asset by exactly the tokens it
/// sends out of the contract, and leaves every other asset as it was.
pub proof fn lemma_withdraw_owed(s: PaymentsModel, to: AccountId, asset: AssetId, amount: i128, x: AssetId)
    requires
        s.wf(),
        s.withdraw(to, asset, amount) is Ok,
    ensures
        ({
            let (n, (t, _)) = s.withdraw(to, asset, amount).unwrap();
            owed(n, x) == owed(s, x) + (if x == asset { inflow(t) } else { 0 })
        }),
{
    let nb = (s.balance(to, asset) - amount) as i128;
    lemma_weighted_insert(s.balances, balance_weight(x), (to, asset), nb);
}

/// An internal transfer moves no tokens and leaves what is owed in every
/// asset unchanged.
pub proof fn lemma_transfer_owed(
    s: PaymentsModel,
    from: AccountId,
    to: AccountId,
    asset: AssetId,
    amount: i128,
    x: AssetId,
)
    requires
        s.wf(),
        s.transfer(from, to, asset, amount) is Ok,
    ensures
        owed(s.transfer(from, to, asset, amount).unwrap().0, x) == owed(s, x),
{
    let nf = (s.balance(from, asset) - amount) as i128;
    let nt = (s.balance(to, asset) + amount) as i128;
    let mid = s.with_balance(from, asset, nf);
    lemma_weighted_insert(s.balances, balance_weight(x), (from, asset), nf);
    lemma_weighted_insert(mid.balances, balance_weight(x), (to, asset), nt);
    assert(mid.balance(to, asset) == s.balance(to, asset));
}

/// Creating an escrow moves no tokens: what leaves the depositor's balance
/// is locked in the escrow, and what is owed in every asset is unchanged.
pub proof fn lemma_create_escrow_owed(
    s: PaymentsModel,
    depositor: AccountId,
    receiver: AccountId,
    asset: AssetId,
    amount: i128,
    now: u64,
    x: AssetId,
)
    requires
        s.wf(),
        s.create_escrow(depositor, receiver, asset, amount, now) is Ok,
    ensures
        owed(s.create_escrow(depositor, receiver, asset, amount, now).unwrap().0, x) == owed(s, x),
{
    let (n, (id, _)) = s.create_escrow(depositor, receiver, asset, amount, now).unwrap();
    let nb = (s.balance(depositor, asset) - amount) as i128;
    lemma_weighted_insert(s.balances, balance_weight(x), (depositor, asset), nb);
    assert(!s.escrows.contains_key(id));
    lemma_weighted_insert(s.escrows, escrow_weight(x), id, n.escrows[id]);
}

/// Settling an escrow lowers what is owed in its asset by exactly the
/// tokens it sends out of the contract, and leaves every other asset as it
/// was.
pub proof fn lemma_settle_escrow_owed(
    s: PaymentsModel,
    escrow_id: u64,
    caller: AccountId,
    release: bool,
    now: u64,
    x: AssetId,
)
    requires
        s.wf(),
        s.settle_escrow(escrow_id, caller, release, now) is Ok,
    ensures
        ({
            let (n, (t, _)) = s.settle_escrow(escrow_id, caller, release, now).unwrap();
            owed(n, x) == owed(s, x) + (if x == s.escrows[escrow_id].asset {
                inflow(t)
            } else {
                0
            })
        }),
{
    let (n, _) = s.settle_escrow(escrow_id, caller, release, now).unwrap();
    lemma_weighted_insert(s.escrows, escrow_weight(x), escrow_id, n.escrows[escrow_id]);
}

/// The admin operations move no tokens and leave what is owed in every
/// asset unchanged.
pub proof fn lemma_admin_ops_owed(
    s: PaymentsModel,
    caller: AccountId,
    new_admin: AccountId,
    asset: AssetId,
    token_id: AccountId,
    cap: i128,
    x: AssetId,
)
    ensures
        s.initialize(caller) matches Ok((n, _)) ==> owed(n, x) == owed(s, x),
        s.transfer_admin(caller, new_admin) matches Ok((n, _)) ==> owed(n, x) == owed(s, x),
        s.set_token(caller, asset, token_id) matches Ok((n, _)) ==> owed(n, x) == owed(s, x),
        s.set_global_cap(caller, cap) matches Ok((n, _)) ==> owed(n, x) == owed(s, x),
        s.set_asset_cap(caller, asset, cap) matches Ok((n, _)) ==> owed(n, x) == owed(s, x),
{
}

proof fn lemma_total_zero<K>(d: Set<K>, f: spec_fn(K) -> int)
    requires
        d.finite(),
        forall|k: K| d.contains(k) ==> f(k) == 0,
    ensures
        total(d, f) == 0,
    decreases d.len(),
{
    if d.len() == 0 {
        assert(d =~= Set::empty());
        lemma_fold_empty(0int, |acc: int, k: K| acc + f(k));
    } else {
        let k = d.choose();
        assert(d.contains(k));
        lemma_total_remove(d, f, k);
        lemma_total_zero(d.remove(k), f);
    }
}

/// Changing a summand at one point changes the sum by the difference.
proof fn lemma_total_point_change<K>(d: Set<K>, f: spec_fn(K) -> int, g: spec_fn(K) -> int, k: K)
    requires
        d.finite(),
        d.contains(k),
        forall|j: K| d.contains(j) && j != k ==> f(j) == g(j),
    ensures
        total(d, g) == total(d, f) - f(k) + g(k),
{
    lemma_total_remove(d, f, k);
    lemma_total_remove(d, g, k);
    lemma_total_congruent(d.remove(k), f, g);
}

/// Nothing is owed in an asset that has no registered token.
proof fn lemma_unregistered_owes_nothing(s: PaymentsModel, a: AssetId)
    requires
        s.wf(),
        !s.tokens.contains_key(a),
    ensures
        owed(s, a) == 0,
{
    let w = balance_weight(a);
    let e = escrow_weight(a);
    assert forall|k: (AccountId, AssetId)| s.balances.dom().contains(k) implies w(k, s.balances[k]) == 0 by {
        assert(s.balances.contains_key(k));
    }
    lemma_total_zero(s.balances.dom(), |k: (AccountId, AssetId)| w(k, s.balances[k]));
    assert forall|id: u64| s.escrows.dom().contains(id) implies e(id, s.escrows[id]) == 0 by {
        assert(s.escrows.contains_key(id));
    }
    lemma_total_zero(s.escrows.dom(), |id: u64| e(id, s.escrows[id]));
}

/// What the contract owes in all the assets backed by the token contract
/// `t`.
pub open spec fn owed_in_token(s: PaymentsModel, t: AccountId) -> int {
    total(s.tokens.dom(), token_share(s, t))
}

/// What is owed in asset `a` when its token is `t`, else 0.
pub open spec fn token_share(s: PaymentsModel, t: AccountId) -> spec_fn(AssetId) -> int {
    |a: AssetId|
        if s.tokens[a] == t {
            owed(s, a)
        } else {
            0
        }
}

/// The change a call's token transfer makes to the contract's holding of
/// token `t`.
pub open spec fn token_inflow(r: Result<(PaymentsModel, Option<TokenTransfer>), Error>, t: AccountId) -> int {
    match r {
        Ok((_, Some(tr))) => if tr.token == t {
            inflow(tr)
        } else {
            0
        },
        _ => 0,
    }
}

/// Whether a call successfully re-points an asset that already has a token
/// to a different token contract.
pub open spec fn replaces_token(s: PaymentsModel, op: Op) -> bool {
    &&& op matches Op::SetToken { asset, token_id, .. }
    &&& step(s, op) is Ok
    &&& s.tokens.contains_key(op->SetToken_asset)
    &&& s.tokens[op->SetToken_asset] != op->SetToken_token_id
}

/// Each call changes what the contract owes in the assets of token `t` by
/// exactly the amount of `t` it moves into the contract, minus the amount
/// it moves out, unless it re-points an asset to another token.
pub proof fn lemma_step_owed_in_token(s: PaymentsModel, op: Op, t: AccountId)
    requires
        s.wf(),
        !replaces_token(s, op),
    ensures
        owed_in_token(after(s, op), t) == owed_in_token(s, t) + token_inflow(step(s, op), t),
{
    let n = after(s, op);
    let d = s.tokens.dom();
    let fs = token_share(s, t);
    let fn_ = token_share(n, t);
    if step(s, op) is Err {
        return;
    }
    match op {
        Op::Deposit { from, asset, amount } => {
            assert forall|x: AssetId| d.contains(x) && x != asset implies fs(x) == fn_(x) by {
                lemma_deposit_owed(s, from, asset, amount, x);
            }
            lemma_deposit_owed(s, from, asset, amount, asset);
            lemma_total_point_change(d, fs, fn_, asset);
        },
        Op::Withdraw { to, asset, amount } => {
            assert forall|x: AssetId| d.contains(x) && x != asset implies fs(x) == fn_(x) by {
                lemma_withdraw_owed(s, to, asset, amount, x);
            }
            lemma_withdraw_owed(s, to, asset, amount, asset);
            lemma_total_point_change(d, fs, fn_, asset);
        },
        Op::Settle { escrow_id, caller, release, now } => {
            let asset = s.escrows[escrow_id].asset;
            assert forall|x: AssetId| d.contains(x) && x != asset implies fs(x) == fn_(x) by {
                lemma_settle_escrow_owed(s, escrow_id, caller, release, now, x);
            }
            lemma_settle_escrow_owed(s, escrow_id, caller, release, now, asset);
            lemma_total_point_change(d, fs, fn_, asset);
        },
        Op::Transfer { from, to, asset, amount } => {
            assert forall|x: AssetId| d.contains(x) implies fs(x) == fn_(x) by {
                lemma_transfer_owed(s, from, to, asset, amount, x);
            }
            lemma_total_congruent(d, fs, fn_);
        },
        Op::CreateEscrow { depositor, receiver, asset, amount, now } => {
            assert forall|x: AssetId| d.contains(x) implies fs(x) == fn_(x) by {
                lemma_create_escrow_owed(s, depositor, receiver, asset, amount, now, x);
            }
            lemma_total_congruent(d, fs, fn_);
        },
        Op::SetToken { admin, asset, token_id } => {
            if s.tokens.contains_key(asset) {
                assert(n.tokens =~= s.tokens);
                lemma_total_congruent(d, fs, fn_);
            } else {
                assert(n.tokens.dom() =~= d.insert(asset));
                lemma_total_insert(d, fn_, asset);
                lemma_total_congruent(d, fs, fn_);
                lemma_unregistered_owes_nothing(s, asset);
            }
        },
        _ => {
            lemma_total_congruent(d, fs, fn_);
        },
    }
}

/// The token `t` moved into the contract, minus what moved out, over the
/// calls `ops` starting from `s`.
pub open spec fn run_inflow(s: PaymentsModel, ops: Seq<Op>, t: AccountId) -> int
    decreases ops.len(),
{
    if ops.len() == 0 {
        0
    } else {
        run_inflow(s, ops.drop_last(), t) + token_inflow(step(run(s, ops.drop_last()), ops.last()), t)
    }
}

/// Whether no call of `ops`, run from `s`, re-points an asset to another
/// token.
pub open spec fn keeps_tokens(s: PaymentsModel, ops: Seq<Op>) -> bool
    decreases ops.len(),
{
    ops.len() == 0 || (keeps_tokens(s, ops.drop_last()) && !replaces_token(
        run(s, ops.drop_last()),
        ops.last(),
    ))
}

/// The ledger mirrors the tokens it holds: over any calls that keep every
/// asset with the token it was registered with, what the contract owes in
/// the assets of token `t` changes by exactly the net amount of `t` moved
/// into the contract. So if the contract held at least what it owed before
/// (`held >= owed_in_token(s, t)`), it still does after the same flows;
/// internal balances are never created from thin air.
pub proof fn lemma_run_owed_in_token(s: PaymentsModel, ops: Seq<Op>, t: AccountId, held: int)
    requires
        s.wf(),
        keeps_tokens(s, ops),
    ensures
        owed_in_token(run(s, ops), t) == owed_in_token(s, t) + run_inflow(s, ops, t),
        held >= owed_in_token(s, t) ==> held + run_inflow(s, ops, t) >= owed_in_token(run(s, ops), t),
    decreases ops.len(),
{
    if ops.len() > 0 {
        lemma_run_owed_in_token(s, ops.drop_last(), t, held);
        crate::history::lemma_run_preserves_wf(s, ops.drop_last());
        lemma_step_owed_in_token(run(s, ops.drop_last()), ops.last(), t);
    }
}

} // verus!
