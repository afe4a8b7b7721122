//! The margin engine: aggregate initial-margin requirements and the
//! application of realized profit and loss to a margin balance.
//!
//! The requirement of an account is the sum, over its open positions,
//! of the notional magnitude times the position's market's initial
//! margin ratio.  The effective leverage ceiling of an account is thus
//! the notional-weighted average of the per-market ceilings.

use vstd::prelude::*;
use crate::Error;
use crate::fixed::{mag, Decimal, SCALE};
use crate::market::{market_wf, Market};
use crate::position::Position;

verus! {

/// The margin one position requires: its notional magnitude times the
/// market's initial margin ratio, truncated.
pub open spec fn margin_term(quote_inner: int, imr_inner: int) -> int {
    mag(quote_inner) * imr_inner / (SCALE as int)
}

/// Aggregate initial-margin requirement of a set of positions.
pub open spec fn spec_required_margin(ps: Seq<Position>, markets: Seq<Market>) -> int
    decreases ps.len(),
{
    if ps.len() == 0 {
        0
    } else {
        spec_required_margin(ps.drop_last(), markets) + margin_term(
            ps.last().quote_asset_notional_amount.inner as int,
            markets[ps.last().market_id as int].margin_ratio_initial.inner as int,
        )
    }
}

/// Whether the requirement and all of its partial sums stay within the
/// unsigned range.
pub open spec fn margin_computable(ps: Seq<Position>, markets: Seq<Market>) -> bool
    decreases ps.len(),
{
    if ps.len() == 0 {
        true
    } else {
        &&& margin_computable(ps.drop_last(), markets)
        &&& spec_required_margin(ps, markets) <= u128::MAX
    }
}

pub proof fn lemma_margin_computable_prefix(ps: Seq<Position>, markets: Seq<Market>, k: int)
    requires
        0 <= k <= ps.len(),
        margin_computable(ps, markets),
    ensures
        margin_computable(ps.take(k), markets),
    decreases ps.len(),
{
    if k == ps.len() {
        assert(ps.take(k) =~= ps);
    } else {
        assert(ps.drop_last().take(k) =~= ps.take(k));
        lemma_margin_computable_prefix(ps.drop_last(), markets, k);
    }
}

/// Computes the aggregate initial-margin requirement of `positions`.
pub fn required_margin(positions: &Vec<Position>, markets: &Vec<Market>) -> (r: Result<
    u128,
    Error,
>)
    requires
        forall|i: int|
            0 <= i < positions@.len() ==> (#[trigger] positions@[i]).market_id < markets@.len()
                && positions@[i].quote_asset_notional_amount.valid(),
        forall|j: int| 0 <= j < markets@.len() ==> market_wf(#[trigger] markets@[j]),
    ensures
        match r {
            Ok(v) => margin_computable(positions@, markets@) && v == spec_required_margin(
                positions@,
                markets@,
            ),
            Err(e) => e == Error::ArithmeticOverflow && !margin_computable(positions@, markets@),
        },
{
    let ghost all = positions@;
    let n: usize = positions.len();
    let n_markets: usize = markets.len();
    let mut acc: u128 = 0;
    let mut i: usize = 0;
    proof {
        assert(all.take(0) =~= Seq::<Position>::empty());
    }
    while i < n
        invariant
            i <= n,
            n == all.len(),
            n_markets == markets@.len(),
            all == positions@,
            forall|k: int|
                0 <= k < all.len() ==> (#[trigger] all[k]).market_id < markets@.len()
                    && all[k].quote_asset_notional_amount.valid(),
            forall|j: int| 0 <= j < markets@.len() ==> market_wf(#[trigger] markets@[j]),
            margin_computable(all.take(i as int), markets@),
            acc == spec_required_margin(all.take(i as int), markets@),
        decreases n - i,
    {
        let p: Position = positions[i];
        let q_mag: u128 = p.quote_asset_notional_amount.magnitude();
        let imr: i128 = markets[p.market_id as usize].margin_ratio_initial.into_inner();
        proof {
            assert(all.take(i as int + 1).drop_last() =~= all.take(i as int));
            assert(all.take(i as int + 1).last() == all[i as int]);
        }
        let imr_u: u128 = imr as u128;
        let term: u128 = match crate::fixed::mul_div_by_scale(q_mag, imr_u) {
            Some(v) => v,
            None => {
                // A term is always below the notional itself, so the
                // scaled product cannot outgrow the unsigned range.
                proof {
                    assert(market_wf(markets@[p.market_id as int]));
                    assert(0 < imr_u < SCALE);
                    vstd::arithmetic::mul::lemma_mul_is_commutative(q_mag as int, imr_u as int);
                    vstd::arithmetic::mul::lemma_mul_inequality(
                        imr_u as int,
                        SCALE as int,
                        q_mag as int,
                    );
                    vstd::arithmetic::div_mod::lemma_multiply_divide_le(
                        q_mag as int * imr_u as int,
                        SCALE as int,
                        q_mag as int,
                    );
                    assert(q_mag * imr_u / (SCALE as int) <= q_mag);
                    assert(false);
                }
                return Err(Error::ArithmeticOverflow);
            },
        };
        acc = match acc.checked_add(term) {
            Some(v) => v,
            None => {
                proof {
                    if margin_computable(all, markets@) {
                        lemma_margin_computable_prefix(all, markets@, i as int + 1);
                    }
                }
                return Err(Error::ArithmeticOverflow);
            },
        };
        i = i + 1;
    }
    proof {
        assert(all.take(n as int) =~= all);
    }
    Ok(acc)
}

/// A margin balance after realized PnL: gains add, losses subtract,
/// and the balance is floored at zero.
pub open spec fn clamped_margin(balance: int, pnl: int) -> int {
    if balance + pnl < 0 {
        0
    } else {
        balance + pnl
    }
}

/// The margin floor: applying any realized profit or loss to any
/// balance never yields a negative balance — losses beyond the posted
/// collateral are absorbed, not carried as debt.
pub proof fn lemma_margin_floor(balance: int, pnl: int)
    ensures
        clamped_margin(balance, pnl) >= 0,
{
}

/// Applies realized PnL to a margin balance.
pub fn apply_pnl(balance: u128, pnl: Decimal) -> (r: Result<u128, Error>)
    requires
        pnl.valid(),
    ensures
        match r {
            Ok(v) => v == clamped_margin(balance as int, pnl.inner as int) && balance + pnl.inner
                <= u128::MAX,
            Err(e) => e == Error::ArithmeticOverflow && balance + pnl.inner > u128::MAX,
        },
{
    if pnl.is_negative() {
        let loss: u128 = pnl.magnitude();
        if loss > balance {
            Ok(0)
        } else {
            Ok(balance - loss)
        }
    } else {
        match balance.checked_add(pnl.magnitude()) {
            Some(v) => Ok(v),
            None => Err(Error::ArithmeticOverflow),
        }
    }
}

/// Cross-market aggregation of initial margin: splitting notional one
/// to two between a market with a one-tenth ratio and a market with a
/// one-twentieth ratio yields a requirement of exactly one fifteenth of
/// the total notional — an effective fifteen-times leverage ceiling —
/// whenever the smaller notional is a multiple of ten fixed-point
/// units.
pub proof fn lemma_cross_market_requirement(
    markets: Seq<Market>,
    p1: Position,
    p2: Position,
    n: int,
)
    requires
        n >= 0,
        n % 10 == 0,
        p1.market_id < markets.len(),
        p2.market_id < markets.len(),
        markets[p1.market_id as int].margin_ratio_initial.inner == SCALE / 10,
        markets[p2.market_id as int].margin_ratio_initial.inner == SCALE / 20,
        mag(p1.quote_asset_notional_amount.inner as int) == n,
        mag(p2.quote_asset_notional_amount.inner as int) == 2 * n,
    ensures
        spec_required_margin(seq![p1, p2], markets) == 3 * n / 15,
{
    let s = seq![p1, p2];
    assert(s.drop_last() =~= seq![p1]);
    assert(seq![p1].drop_last() =~= Seq::<Position>::empty());
    let k = n / 10;
    vstd::arithmetic::div_mod::lemma_fundamental_div_mod(n, 10);
    assert(n == 10 * k);
    let tenth: int = 100_000_000_000_000_000int;
    let twentieth: int = 50_000_000_000_000_000int;
    assert(SCALE / 10 == tenth);
    assert(SCALE / 20 == twentieth);
    assert(n * tenth == (SCALE as int) * k);
    vstd::arithmetic::div_mod::lemma_div_multiples_vanish(k, SCALE as int);
    assert(margin_term(p1.quote_asset_notional_amount.inner as int, tenth) == k);
    assert((2 * n) * twentieth == (SCALE as int) * k);
    assert(margin_term(p2.quote_asset_notional_amount.inner as int, twentieth) == k);
    assert(3 * n == 15 * (2 * k));
    vstd::arithmetic::div_mod::lemma_div_multiples_vanish(2 * k, 15);
    assert(3 * n / 15 == 2 * k);
    assert(spec_required_margin(Seq::<Position>::empty(), markets) == 0);
    assert(spec_required_margin(seq![p1], markets) == k);
    assert(spec_required_margin(s, markets) == 2 * k);
}

} // verus!
