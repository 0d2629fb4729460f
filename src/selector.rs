//! Selection of the trailing run of trades that explains a held quantity.
use vstd::prelude::*;
use crate::trade::{signed_qty, Trade, TradeType, QTY_SCALE};

verus! {

/// Quantity still to be explained after walking back over the last `k`
/// trades of `s`, starting from `target`.
pub open spec fn remaining_after(s: Seq<Trade>, target: int, k: nat) -> int
    decreases k,
{
    if k == 0 {
        target
    } else {
        remaining_after(s, target, (k - 1) as nat) - signed_qty(s[s.len() - k])
    }
}

/// Whether a remaining quantity rounds (half away from zero) to zero or fewer
/// whole units.
pub open spec fn settled(remaining: int) -> bool {
    2 * remaining < QTY_SCALE
}

/// Number of trailing trades taken when the walk back has already taken `k`.
pub open spec fn selected_from(s: Seq<Trade>, target: int, k: nat) -> nat
    decreases s.len() - k,
{
    if k >= s.len() || settled(remaining_after(s, target, k)) {
        k
    } else {
        selected_from(s, target, k + 1)
    }
}

/// Number of trailing trades of `s` selected for the held quantity `target`.
pub open spec fn selected_count(s: Seq<Trade>, target: int) -> nat {
    selected_from(s, target, 0)
}

/// The trailing trades of `s` selected for the held quantity `target`, oldest first.
pub open spec fn selection(s: Seq<Trade>, target: int) -> Seq<Trade> {
    s.subrange(s.len() - selected_count(s, target), s.len() as int)
}

/// The count taken from `i` on is the first index at or after `i` where the
/// walk is settled, or the whole length when it never is.
pub proof fn lemma_selected_from_props(s: Seq<Trade>, target: int, i: nat)
    requires
        i <= s.len(),
    ensures
        i <= selected_from(s, target, i) <= s.len(),
        forall|j: nat|
            i <= j < selected_from(s, target, i) ==> !settled(#[trigger] remaining_after(s, target, j)),
        selected_from(s, target, i) == s.len() || settled(
            remaining_after(s, target, selected_from(s, target, i)),
        ),
    decreases s.len() - i,
{
    if i < s.len() && !settled(remaining_after(s, target, i)) {
        lemma_selected_from_props(s, target, i + 1);
    }
}

/// Any `m` that meets the stopping rule from `i` on is the count taken from `i`.
pub proof fn lemma_selected_from_unique(s: Seq<Trade>, target: int, i: nat, m: nat)
    requires
        i <= m <= s.len(),
        forall|j: nat| i <= j < m ==> !settled(#[trigger] remaining_after(s, target, j)),
        m == s.len() || settled(remaining_after(s, target, m)),
    ensures
        selected_from(s, target, i) == m,
    decreases m - i,
{
    if i < m {
        assert(!settled(remaining_after(s, target, i)));
        lemma_selected_from_unique(s, target, i + 1, m);
    }
}

/// The selected count is the smallest number of trailing trades after which
/// the remaining quantity is settled, or every trade when it never is.
pub proof fn lemma_selection_minimal(s: Seq<Trade>, target: int)
    ensures
        selected_count(s, target) <= s.len(),
        selection(s, target).len() == selected_count(s, target),
        forall|j: nat|
            j < selected_count(s, target) ==> !settled(#[trigger] remaining_after(s, target, j)),
        selected_count(s, target) == s.len() || settled(
            remaining_after(s, target, selected_count(s, target)),
        ),
{
    lemma_selected_from_props(s, target, 0);
}

proof fn lemma_remaining_on_suffix(s: Seq<Trade>, target: int, c: nat, j: nat)
    requires
        c <= s.len(),
        j <= c,
    ensures
        remaining_after(s.subrange(s.len() - c, s.len() as int), target, j) == remaining_after(
            s,
            target,
            j,
        ),
    decreases j,
{
    if j > 0 {
        lemma_remaining_on_suffix(s, target, c, (j - 1) as nat);
    }
}

/// Selecting again, with the same held quantity, from a selection gives the
/// same selection.
pub proof fn lemma_selection_idempotent(s: Seq<Trade>, target: int)
    ensures
        selection(selection(s, target), target) == selection(s, target),
{
    let c = selected_count(s, target);
    let u = selection(s, target);
    lemma_selected_from_props(s, target, 0);
    assert forall|j: nat| 0 <= j < c implies !settled(#[trigger] remaining_after(u, target, j)) by {
        lemma_remaining_on_suffix(s, target, c, j);
    }
    lemma_selected_from_unique(u, target, 0, c);
    assert(selection(u, target) =~= u);
}

/// Returns the shortest trailing run of `trades` (oldest first) whose net
/// quantity, walked back from the most recent trade, explains holding `qty`
/// units: the walk stops before a trade once the quantity left to explain
/// rounds to zero or fewer whole units.
pub fn get_trades_for_qty(trades: &Vec<Trade>, qty: u64) -> (r: Vec<Trade>)
    ensures
        r@ == selection(trades@, qty as int),
{
    let n = trades.len();
    let half: u128 = (QTY_SCALE / 2) as u128;
    // `ahead - back` is the quantity still to be explained.
    let mut ahead: u128 = qty as u128;
    let mut back: u128 = 0;
    let mut k: usize = 0;
    while k < n
        invariant
            k <= n,
            n == trades@.len(),
            half == QTY_SCALE / 2,
            ahead - back == remaining_after(trades@, qty as int, k as nat),
            ahead <= qty + k * u64::MAX,
            back <= k * u64::MAX,
            selected_count(trades@, qty as int) == selected_from(trades@, qty as int, k as nat),
        ensures
            k <= n,
            ahead - back == remaining_after(trades@, qty as int, k as nat),
            selected_count(trades@, qty as int) == selected_from(trades@, qty as int, k as nat),
            k == n || settled(remaining_after(trades@, qty as int, k as nat)),
        decreases n - k,
    {
        if ahead <= back || ahead - back < half {
            break;
        }
        let t = &trades[n - 1 - k];
        assert(k * u64::MAX + u64::MAX <= u64::MAX * u64::MAX + u64::MAX) by (nonlinear_arith)
            requires
                k < n,
                n <= u64::MAX,
        ;
        match t.trade_type {
            TradeType::Buy => {
                back = back + t.qty as u128;
            },
            TradeType::Sell => {
                ahead = ahead + t.qty as u128;
            },
        }
        assert((k + 1) * u64::MAX == k * u64::MAX + u64::MAX) by (nonlinear_arith);
        k = k + 1;
    }
    let mut out: Vec<Trade> = Vec::new();
    let start = n - k;
    let mut i = start;
    while i < n
        invariant
            start <= i <= n,
            n == trades@.len(),
            out@ == trades@.subrange(start as int, i as int),
        decreases n - i,
    {
        out.push(trades[i].clone());
        i = i + 1;
        assert(out@ =~= trades@.subrange(start as int, i as int));
    }
    assert(out@ =~= selection(trades@, qty as int));
    out
}

} // verus!
