//! Runs of operations: the ledger after any sequence of calls, each of
//! which either succeeds or, failing, leaves the ledger as it was. The laws
//! here hold across arbitrary later calls.
use vstd::prelude::*;
use crate::model::PaymentsModel;
use crate::records::{AccountId, AssetId, Error, EscrowStatus, TokenTransfer};

verus! {

/// One call of an entry point that can change the ledger, with its
/// arguments.
pub enum Op {
    Initialize { admin: AccountId },
    TransferAdmin { caller: AccountId, new_admin: AccountId },
    SetToken { admin: AccountId, asset: AssetId, token_id: AccountId },
    SetGlobalCap { admin: AccountId, cap: i128 },
    SetAssetCap { admin: AccountId, asset: AssetId, cap: i128 },
    Deposit { from: AccountId, asset: AssetId, amount: i128 },
    Withdraw { to: AccountId, asset: AssetId, amount: i128 },
    Transfer { from: AccountId, to: AccountId, asset: AssetId, amount: i128 },
    CreateEscrow { depositor: AccountId, receiver: AccountId, asset: AssetId, amount: i128, now: u64 },
    Settle { escrow_id: u64, caller: AccountId, release: bool, now: u64 },
}

/// What a call does: the next ledger and the token transfer it asks for,
/// or its error.
pub open spec fn step(s: PaymentsModel, op: Op) -> Result<(PaymentsModel, Option<TokenTransfer>), Error> {
    match op {
        Op::Initialize { admin } => match s.initialize(admin) {
            Ok((n, _)) => Ok((n, None)),
            Err(e) => Err(e),
        },
        Op::TransferAdmin { caller, new_admin } => match s.transfer_admin(caller, new_admin) {
            Ok((n, _)) => Ok((n, None)),
            Err(e) => Err(e),
        },
        Op::SetToken { admin, asset, token_id } => match s.set_token(admin, asset, token_id) {
            Ok((n, _)) => Ok((n, None)),
            Err(e) => Err(e),
        },
        Op::SetGlobalCap { admin, cap } => match s.set_global_cap(admin, cap) {
            Ok((n, _)) => Ok((n, None)),
            Err(e) => Err(e),
        },
        Op::SetAssetCap { admin, asset, cap } => match s.set_asset_cap(admin, asset, cap) {
            Ok((n, _)) => Ok((n, None)),
            Err(e) => Err(e),
        },
        Op::Deposit { from, asset, amount } => match s.deposit(from, asset, amount) {
            Ok((n, (t, _))) => Ok((n, Some(t))),
            Err(e) => Err(e),
        },
        Op::Withdraw { to, asset, amount } => match s.withdraw(to, asset, amount) {
            Ok((n, (t, _))) => Ok((n, Some(t))),
            Err(e) => Err(e),
        },
        Op::Transfer { from, to, asset, amount } => match s.transfer(from, to, asset, amount) {
            Ok((n, _)) => Ok((n, None)),
            Err(e) => Err(e),
        },
        Op::CreateEscrow { depositor, receiver, asset, amount, now } => match s.create_escrow(
            depositor,
            receiver,
            asset,
            amount,
            now,
        ) {
            Ok((n, _)) => Ok((n, None)),
            Err(e) => Err(e),
        },
        Op::Settle { escrow_id, caller, release, now } => match s.settle_escrow(
            escrow_id,
            caller,
            release,
            now,
        ) {
            Ok((n, (t, _))) => Ok((n, Some(t))),
            Err(e) => Err(e),
        },
    }
}

/// The ledger after a call: the next one on success, the same one on an
/// error.
pub open spec fn after(s: PaymentsModel, op: Op) -> PaymentsModel {
    match step(s, op) {
        Ok((n, _)) => n,
        Err(_) => s,
    }
}

/// The ledger after the calls `ops`, in order.
pub open spec fn run(s: PaymentsModel, ops: Seq<Op>) -> PaymentsModel
    decreases ops.len(),
{
    if ops.len() == 0 {
        s
    } else {
        after(run(s, ops.drop_last()), ops.last())
    }
}

/// Every call keeps the ledger's invariant.
pub proof fn lemma_step_preserves_wf(s: PaymentsModel, op: Op)
    requires
        s.wf(),
    ensures
        after(s, op).wf(),
{
    match op {
        Op::Transfer { from, to, asset, amount } => {
            if step(s, op) is Ok {
                assert(s.balance(from, asset) > 0);
                assert(s.balances.contains_key((from, asset)));
            }
        },
        Op::CreateEscrow { depositor, receiver, asset, amount, now } => {
            if step(s, op) is Ok {
                assert(s.balance(depositor, asset) > 0);
                assert(s.balances.contains_key((depositor, asset)));
            }
        },
        _ => {},
    }
}

/// Every run of calls keeps the ledger's invariant.
pub proof fn lemma_run_preserves_wf(s: PaymentsModel, ops: Seq<Op>)
    requires
        s.wf(),
    ensures
        run(s, ops).wf(),
    decreases ops.len(),
{
    if ops.len() > 0 {
        lemma_run_preserves_wf(s, ops.drop_last());
        lemma_step_preserves_wf(run(s, ops.drop_last()), ops.last());
    }
}

/// Every ledger that the calls build from a freshly deployed contract
/// satisfies the invariant.
pub proof fn lemma_reachable_wf(ops: Seq<Op>)
    ensures
        run(PaymentsModel::empty(), ops).wf(),
{
    lemma_run_preserves_wf(PaymentsModel::empty(), ops);
}

/// A settled escrow record is never changed by a call.
proof fn lemma_step_keeps_settled(s: PaymentsModel, op: Op, id: u64)
    requires
        s.wf(),
        s.escrows.contains_key(id),
        s.escrows[id].status != EscrowStatus::Active,
    ensures
        after(s, op).escrows.contains_key(id),
        after(s, op).escrows[id] == s.escrows[id],
{
}

/// A settled escrow stays settled: it keeps its record under any later
/// calls.
pub proof fn lemma_settled_stays_settled(s: PaymentsModel, ops: Seq<Op>, id: u64)
    requires
        s.wf(),
        s.escrows.contains_key(id),
        s.escrows[id].status != EscrowStatus::Active,
    ensures
        run(s, ops).escrows.contains_key(id),
        run(s, ops).escrows[id] == s.escrows[id],
    decreases ops.len(),
{
    if ops.len() > 0 {
        lemma_settled_stays_settled(s, ops.drop_last(), id);
        lemma_run_preserves_wf(s, ops.drop_last());
        lemma_step_keeps_settled(run(s, ops.drop_last()), ops.last(), id);
    }
}

/// An escrow pays out at most once: after a successful release or refund,
/// whatever calls follow, the escrow keeps its final status and settlement
/// time, and every further release or refund of it fails with
/// `EscrowNotActive`.
pub proof fn lemma_settlement_is_final(
    s: PaymentsModel,
    escrow_id: u64,
    caller: AccountId,
    release: bool,
    now: u64,
    ops: Seq<Op>,
    caller2: AccountId,
    release2: bool,
    now2: u64,
)
    requires
        s.wf(),
        s.settle_escrow(escrow_id, caller, release, now) is Ok,
    ensures
        ({
            let m = run(s.settle_escrow(escrow_id, caller, release, now).unwrap().0, ops);
            &&& m.escrows[escrow_id].status == (if release {
                EscrowStatus::Released
            } else {
                EscrowStatus::Refunded
            })
            &&& m.escrows[escrow_id].settled_at == now
            &&& m.settle_escrow(escrow_id, caller2, release2, now2) is Err
            &&& m.settle_escrow(escrow_id, caller2, release2, now2)->Err_0 == Error::EscrowNotActive
        }),
{
    let op = Op::Settle { escrow_id, caller, release, now };
    lemma_step_preserves_wf(s, op);
    let n = after(s, op);
    lemma_settled_stays_settled(n, ops, escrow_id);
}

/// A token registration stays as it is under any calls that do not set the
/// token of that asset.
pub proof fn lemma_token_registration_persists(s: PaymentsModel, ops: Seq<Op>, asset: AssetId)
    requires
        forall|i: int| 0 <= i < ops.len() ==> !(#[trigger] ops[i] matches Op::SetToken { asset: a, .. } && a == asset),
    ensures
        run(s, ops).token_of(asset) == s.token_of(asset),
    decreases ops.len(),
{
    if ops.len() > 0 {
        assert forall|i: int| 0 <= i < ops.drop_last().len() implies !(#[trigger] ops.drop_last()[i] matches Op::SetToken { asset: a, .. } && a == asset) by {
            assert(ops.drop_last()[i] == ops[i]);
        }
        lemma_token_registration_persists(s, ops.drop_last(), asset);
        let p = run(s, ops.drop_last());
        assert(ops.last() == ops[ops.len() - 1]);
        assert(after(p, ops.last()).token_of(asset) == p.token_of(asset));
    }
}

/// Whether a call changes the global cap or the cap of `asset`.
pub open spec fn sets_cap_of(op: Op, asset: AssetId) -> bool {
    ||| op is SetGlobalCap
    ||| (op matches Op::SetAssetCap { asset: a, .. } && a == asset)
}

/// The effective cap of an asset stays as it is under any calls that set
/// neither the global cap nor the cap of that asset.
pub proof fn lemma_effective_cap_persists(s: PaymentsModel, ops: Seq<Op>, asset: AssetId)
    requires
        forall|i: int| 0 <= i < ops.len() ==> !sets_cap_of(#[trigger] ops[i], asset),
    ensures
        run(s, ops).effective_cap(asset) == s.effective_cap(asset),
    decreases ops.len(),
{
    if ops.len() > 0 {
        assert forall|i: int| 0 <= i < ops.drop_last().len() implies !sets_cap_of(#[trigger] ops.drop_last()[i], asset) by {
            assert(ops.drop_last()[i] == ops[i]);
        }
        lemma_effective_cap_persists(s, ops.drop_last(), asset);
        let p = run(s, ops.drop_last());
        assert(ops.last() == ops[ops.len() - 1]);
        assert(after(p, ops.last()).asset_cap(asset) == p.asset_cap(asset));
    }
}

/// A cap as `get_effective_cap` reports it: 0 for no cap.
pub open spec fn cap_or_zero(cap: Option<i128>) -> int {
    match cap {
        Some(c) => c as int,
        None => 0,
    }
}

/// The effective cap that a global cap `g` and an asset cap `c` give, as
/// set (0 disables either): the smaller of those that are not 0, or 0 for
/// none.
pub open spec fn combined_cap(g: i128, c: i128) -> int {
    if g == 0 && c == 0 {
        0
    } else if g == 0 {
        c as int
    } else if c == 0 {
        g as int
    } else if g <= c {
        g as int
    } else {
        c as int
    }
}

/// After the admin sets a global cap `g` and a cap `c` for `asset`, in
/// either order, and any later calls that change neither, the effective cap
/// of `asset` is `combined_cap(g, c)`, and that of any other asset without
/// a cap of its own is `g`.
pub proof fn lemma_effective_cap_after_setting(
    s: PaymentsModel,
    admin: AccountId,
    g: i128,
    asset: AssetId,
    c: i128,
    global_first: bool,
    ops: Seq<Op>,
    other: AssetId,
)
    requires
        ({
            let first = if global_first {
                Op::SetGlobalCap { admin, cap: g }
            } else {
                Op::SetAssetCap { admin, asset, cap: c }
            };
            let second = if global_first {
                Op::SetAssetCap { admin, asset, cap: c }
            } else {
                Op::SetGlobalCap { admin, cap: g }
            };
            &&& step(s, first) is Ok
            &&& step(after(s, first), second) is Ok
        }),
        forall|i: int| 0 <= i < ops.len() ==> !sets_cap_of(#[trigger] ops[i], asset),
    ensures
        ({
            let first = if global_first {
                Op::SetGlobalCap { admin, cap: g }
            } else {
                Op::SetAssetCap { admin, asset, cap: c }
            };
            let second = if global_first {
                Op::SetAssetCap { admin, asset, cap: c }
            } else {
                Op::SetGlobalCap { admin, cap: g }
            };
            let n = after(after(s, first), second);
            &&& cap_or_zero(run(n, ops).effective_cap(asset)) == combined_cap(g, c)
            &&& (other != asset && !s.asset_caps.contains_key(other)) ==> cap_or_zero(
                n.effective_cap(other),
            ) == g
        }),
{
    let first = if global_first {
        Op::SetGlobalCap { admin, cap: g }
    } else {
        Op::SetAssetCap { admin, asset, cap: c }
    };
    let second = if global_first {
        Op::SetAssetCap { admin, asset, cap: c }
    } else {
        Op::SetGlobalCap { admin, cap: g }
    };
    let n = after(after(s, first), second);
    lemma_effective_cap_persists(n, ops, asset);
    let m = after(s, first);
    if other != asset {
        assert(m.asset_caps.contains_key(other) == s.asset_caps.contains_key(other));
        assert(n.asset_caps.contains_key(other) == m.asset_caps.contains_key(other));
    }
}

} // verus!
