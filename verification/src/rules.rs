//! The arithmetic rules of the ledger: debiting a balance, combining the
//! global and per-asset caps, and checking an amount against a cap.
use vstd::prelude::*;
use crate::records::Error;

verus! {

/// What debiting `amount` from `balance` gives: the new balance, or the
/// error when the difference leaves `i128` or would be negative.
pub open spec fn debit(balance: i128, amount: i128) -> Result<i128, Error> {
    let d = balance - amount;
    if d < i128::MIN || d > i128::MAX {
        Err(Error::ArithmeticOverflow)
    } else if d < 0 {
        Err(Error::InsufficientBalance)
    } else {
        Ok(d as i128)
    }
}

/// The stricter of two optional caps; `None` means no cap.
pub open spec fn stricter_cap(global: Option<i128>, per_asset: Option<i128>) -> Option<i128> {
    match (global, per_asset) {
        (Some(g), Some(a)) => Some(if g <= a { g } else { a }),
        (Some(g), None) => Some(g),
        (None, Some(a)) => Some(a),
        (None, None) => None,
    }
}

/// Whether `amount` goes over the cap `cap` (never, when there is none).
pub open spec fn exceeds_cap(cap: Option<i128>, amount: i128) -> bool {
    match cap {
        Some(c) => amount > c,
        None => false,
    }
}

/// Debit `amount` from `balance`, failing closed when the result would be
/// negative.
///
/// `checked_sub` alone is not sufficient: it only catches leaving the range
/// of `i128`, and `balance - amount` may legitimately be a small negative
/// number. Balances must never go below zero.
pub fn checked_debit(balance: i128, amount: i128) -> (result: Result<i128, Error>)
    ensures
        result == debit(balance, amount),
        result matches Ok(b) ==> b >= 0 && b == balance - amount,
        result is Ok <==> 0 <= balance - amount <= i128::MAX,
        i128::MIN <= balance - amount < 0 ==> result == Err::<i128, Error>(Error::InsufficientBalance),
{
    let new_balance = match balance.checked_sub(amount) {
        Some(b) => b,
        None => {
            return Err(Error::ArithmeticOverflow);
        },
    };
    if new_balance < 0 {
        return Err(Error::InsufficientBalance);
    }
    Ok(new_balance)
}

/// The effective cap from a global cap and a per-asset cap: the smaller of
/// those that are set; `None` means unlimited.
pub fn effective_cap(global: Option<i128>, per_asset: Option<i128>) -> (cap: Option<i128>)
    ensures
        cap == stricter_cap(global, per_asset),
        cap is Some <==> (global is Some || per_asset is Some),
        cap matches Some(c) ==> {
            &&& (global matches Some(g) ==> c <= g)
            &&& (per_asset matches Some(a) ==> c <= a)
            &&& (global == Some(c) || per_asset == Some(c))
        },
{
    match (global, per_asset) {
        (Some(g), Some(a)) => Some(if g <= a { g } else { a }),
        (Some(g), None) => Some(g),
        (None, Some(a)) => Some(a),
        (None, None) => None,
    }
}

/// `Err(CapExceeded)` when `amount` goes over `cap`, else `Ok(())`.
pub fn check_cap(cap: Option<i128>, amount: i128) -> (result: Result<(), Error>)
    ensures
        result == (if exceeds_cap(cap, amount) {
            Err(Error::CapExceeded)
        } else {
            Ok(())
        }),
        result is Err <==> (cap matches Some(c) && amount > c),
        result is Err ==> result == Err::<(), Error>(Error::CapExceeded),
{
    if let Some(c) = cap {
        if amount > c {
            return Err(Error::CapExceeded);
        }
    }
    Ok(())
}

/// The key under which the balance of `owner` in `asset` is stored:
/// `owner * 2^64 + asset`.
pub open spec fn balance_key_of(owner: u64, asset: u64) -> u128 {
    (owner as int * 0x1_0000_0000_0000_0000int + asset as int) as u128
}

/// Distinct (owner, asset) pairs have distinct balance keys.
pub proof fn lemma_balance_key_injective(o1: u64, a1: u64, o2: u64, a2: u64)
    ensures
        balance_key_of(o1, a1) == balance_key_of(o2, a2) ==> o1 == o2 && a1 == a2,
{
    let k1 = o1 as int * 0x1_0000_0000_0000_0000int + a1 as int;
    let k2 = o2 as int * 0x1_0000_0000_0000_0000int + a2 as int;
    assert(0 <= k1 < 0x1_0000_0000_0000_0000_0000_0000_0000_0000int);
    assert(0 <= k2 < 0x1_0000_0000_0000_0000_0000_0000_0000_0000int);
    if o1 < o2 {
        assert(k1 < k2);
    } else if o2 < o1 {
        assert(k2 < k1);
    }
}

/// The (owner, asset) pair whose balance is stored under `key`.
pub open spec fn balance_pair_of(key: u128) -> (u64, u64) {
    ((key as int / 0x1_0000_0000_0000_0000int) as u64, (key as int % 0x1_0000_0000_0000_0000int) as u64)
}

/// Balance keys and pairs correspond one to one.
pub proof fn lemma_balance_key_roundtrip(owner: u64, asset: u64, key: u128)
    ensures
        balance_pair_of(balance_key_of(owner, asset)) == (owner, asset),
        balance_key_of(balance_pair_of(key).0, balance_pair_of(key).1) == key,
{
    let k = key as int;
    let m = 0x1_0000_0000_0000_0000int;
    assert(k == (k / m) * m + k % m && 0 <= k % m < m) by (nonlinear_arith)
        requires m > 0;
    assert(k / m < m) by (nonlinear_arith)
        requires 0 <= k < m * m, m > 0;
    assert(k / m >= 0) by (nonlinear_arith)
        requires 0 <= k, m > 0;
    let j = owner as int * m + asset as int;
    assert(j / m == owner as int && j % m == asset as int) by (nonlinear_arith)
        requires j == owner as int * m + asset as int, 0 <= asset < m, 0 <= owner, m > 0;
}

/// The balances, by (owner, asset), of a map from balance keys.
pub open spec fn balances_by_pair(m: Map<u128, i128>) -> Map<(u64, u64), i128> {
    Map::new(
        |k: (u64, u64)| m.contains_key(balance_key_of(k.0, k.1)),
        |k: (u64, u64)| m[balance_key_of(k.0, k.1)],
    )
}

/// Finitely many stored keys give finitely many balances.
pub broadcast proof fn lemma_balances_by_pair_finite(m: Map<u128, i128>)
    requires
        m.dom().finite(),
    ensures
        #[trigger] balances_by_pair(m).dom().finite(),
{
    let pairs = m.dom().map(|k: u128| balance_pair_of(k));
    assert forall|p: (u64, u64)| balances_by_pair(m).dom().contains(p) <==> pairs.contains(p) by {
        let k = balance_key_of(p.0, p.1);
        lemma_balance_key_roundtrip(p.0, p.1, k);
        if pairs.contains(p) {
            let k2 = choose|k2: u128| m.dom().contains(k2) && p == balance_pair_of(k2);
            lemma_balance_key_roundtrip(p.0, p.1, k2);
        }
        if balances_by_pair(m).dom().contains(p) {
            assert(m.dom().contains(k) && p == balance_pair_of(k));
        }
    }
    assert(balances_by_pair(m).dom() =~= pairs);
    m.dom().lemma_map_finite(|k: u128| balance_pair_of(k));
}

/// The storage key of the balance of `owner` in `asset`.
pub fn balance_key(owner: u64, asset: u64) -> (key: u128)
    ensures
        key == balance_key_of(owner, asset),
{
    (owner as u128) * 0x1_0000_0000_0000_0000u128 + (asset as u128)
}

} // verus!
