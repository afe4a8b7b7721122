//! The position state machine: open, increase, reduce, close, reverse.
//!
//! A position records signed base exposure and the entry-weighted quote
//! value of that exposure, with equal signs.  A trade in the same
//! direction adds to both.  A trade in the opposite direction closes
//! part or all of the position, realizing profit or loss against the
//! proportional share of the entry value, and a trade larger than the
//! open magnitude reverses the position, sizing the new leg from the
//! leftover part of the trade.

use vstd::prelude::*;
use crate::Error;
use crate::fixed::{mag, representable, Decimal, SCALE};

verus! {

/// An open position in one market.
#[derive(Clone, Copy, Debug, PartialEq, Eq, Structural)]
pub struct Position {
    pub market_id: u64,
    /// Signed base exposure: positive when long, negative when short.
    pub base_asset_amount: Decimal,
    /// Entry-weighted quote value of the exposure, same sign.
    pub quote_asset_notional_amount: Decimal,
}

/// What settling one trade against one position produced.
#[derive(Clone, Copy, Debug, PartialEq, Eq, Structural)]
pub struct TradeEffect {
    /// The position afterwards; `None` when the trade closed it.
    pub position: Option<Position>,
    /// Profit (positive) or loss (negative) locked in by the trade.
    pub realized_pnl: Decimal,
    /// Whether the trade opened, increased or reversed exposure, and so
    /// must pass the margin check.
    pub risk_increasing: bool,
}

/// Every stored position is nonzero in both components, with equal
/// signs.
pub open spec fn position_wf(p: Position) -> bool {
    &&& p.base_asset_amount.valid()
    &&& p.quote_asset_notional_amount.valid()
    &&& p.base_asset_amount.inner != 0
    &&& p.quote_asset_notional_amount.inner != 0
    &&& ((p.base_asset_amount.inner > 0) <==> (p.quote_asset_notional_amount.inner > 0))
}

/// Both strictly positive or both strictly negative.
pub open spec fn same_direction(a: int, b: int) -> bool {
    (a > 0 && b > 0) || (a < 0 && b < 0)
}

/// The magnitude `m` with the direction of `positive`.
pub open spec fn with_sign(positive: bool, m: int) -> int {
    if positive {
        m
    } else {
        -m
    }
}

/// Profit of closing at value `close` what was entered at value
/// `entry`: gain for a long is the close value over the entry value,
/// for a short the entry value over the close value.
pub open spec fn close_pnl(was_long: bool, entry: int, close: int) -> int {
    if was_long {
        close - entry
    } else {
        entry - close
    }
}

/// The fraction `t / m` of a position being closed, in fixed-point
/// units, truncated.
pub open spec fn close_fraction(t: int, m: int) -> int {
    t * (SCALE as int) / m
}

/// The part of `amount` covered by the fixed-point fraction `frac`,
/// truncated.
pub open spec fn prorated(amount: int, frac: int) -> int {
    amount * frac / (SCALE as int)
}

/// The outcome of settling a signed trade of `tb` base for `tq` quote
/// against an optional open position: the case analysis of the
/// open/increase/reduce/close/reverse state machine.
pub open spec fn spec_settle(
    pos: Option<Position>,
    market_id: u64,
    min_size: int,
    tb: int,
    tq: int,
) -> Result<TradeEffect, Error> {
    match pos {
        None => {
            if mag(tb) < min_size {
                Err(Error::TradeSizeTooSmall)
            } else {
                Ok(
                    TradeEffect {
                        position: Some(
                            Position {
                                market_id,
                                base_asset_amount: Decimal { inner: tb as i128 },
                                quote_asset_notional_amount: Decimal { inner: tq as i128 },
                            },
                        ),
                        realized_pnl: Decimal { inner: 0 },
                        risk_increasing: true,
                    },
                )
            }
        },
        Some(p) => {
            let ob = p.base_asset_amount.inner as int;
            let oq = p.quote_asset_notional_amount.inner as int;
            if same_direction(ob, tb) {
                if mag(tb) < min_size {
                    Err(Error::TradeSizeTooSmall)
                } else if !representable(ob + tb) || !representable(oq + tq) {
                    Err(Error::ArithmeticOverflow)
                } else {
                    Ok(
                        TradeEffect {
                            position: Some(
                                Position {
                                    market_id,
                                    base_asset_amount: Decimal { inner: (ob + tb) as i128 },
                                    quote_asset_notional_amount: Decimal { inner: (oq + tq) as i128 },
                                },
                            ),
                            realized_pnl: Decimal { inner: 0 },
                            risk_increasing: true,
                        },
                    )
                }
            } else {
                let m = mag(ob);
                let t = mag(tb);
                if t == m {
                    Ok(
                        TradeEffect {
                            position: None,
                            realized_pnl: Decimal {
                                inner: close_pnl(ob > 0, mag(oq), mag(tq)) as i128,
                            },
                            risk_increasing: false,
                        },
                    )
                } else if t < m {
                    if t < min_size {
                        Err(Error::TradeSizeTooSmall)
                    } else {
                        let f = close_fraction(t, m);
                        let entry_closed = prorated(mag(oq), f);
                        Ok(
                            TradeEffect {
                                position: Some(
                                    Position {
                                        market_id,
                                        base_asset_amount: Decimal { inner: (ob + tb) as i128 },
                                        quote_asset_notional_amount: Decimal {
                                            inner: with_sign(oq > 0, mag(oq) - entry_closed) as i128,
                                        },
                                    },
                                ),
                                realized_pnl: Decimal {
                                    inner: close_pnl(ob > 0, entry_closed, mag(tq)) as i128,
                                },
                                risk_increasing: false,
                            },
                        )
                    }
                } else {
                    if t < min_size {
                        Err(Error::TradeSizeTooSmall)
                    } else {
                        let f = close_fraction(m, t);
                        let quote_closed = prorated(mag(tq), f);
                        Ok(
                            TradeEffect {
                                position: Some(
                                    Position {
                                        market_id,
                                        base_asset_amount: Decimal { inner: (ob + tb) as i128 },
                                        quote_asset_notional_amount: Decimal {
                                            inner: with_sign(tq > 0, mag(tq) - quote_closed) as i128,
                                        },
                                    },
                                ),
                                realized_pnl: Decimal {
                                    inner: close_pnl(ob > 0, mag(oq), quote_closed) as i128,
                                },
                                risk_increasing: true,
                            },
                        )
                    }
                }
            }
        },
    }
}

/// A truncated fraction of a positive amount keeps a positive
/// remainder: for `0 <= f < SCALE` and `amount >= 1`, the prorated part
/// stays strictly below the amount.
pub proof fn lemma_prorated_lt(amount: int, f: int)
    requires
        1 <= amount,
        0 <= f < SCALE,
    ensures
        0 <= prorated(amount, f) < amount,
{
    vstd::arithmetic::div_mod::lemma_div_pos_is_pos(amount * f, SCALE as int);
    vstd::arithmetic::mul::lemma_mul_strict_inequality(f, SCALE as int, amount);
    vstd::arithmetic::div_mod::lemma_multiply_divide_lt(amount * f, SCALE as int, amount);
}

/// A proper partial close keeps a proper fraction: for `0 < t < m`, the
/// close fraction lies strictly between zero and one.
pub proof fn lemma_close_fraction_range(t: int, m: int)
    requires
        0 < t < m,
    ensures
        0 <= close_fraction(t, m) < SCALE,
{
    vstd::arithmetic::div_mod::lemma_div_pos_is_pos(t * (SCALE as int), m);
    vstd::arithmetic::mul::lemma_mul_strict_inequality(t, m, SCALE as int);
    vstd::arithmetic::div_mod::lemma_multiply_divide_lt(t * (SCALE as int), m, SCALE as int);
}

/// Full closes remove the position: a trade of exactly the open
/// magnitude in the opposite direction always settles to no position,
/// whatever the minimum trade size, and realizes the trade value
/// against the whole entry value — close value minus entry value for a
/// long, entry value minus close value for a short.
pub proof fn lemma_full_close_removes_position(p: Position, min_size: int, tb: int, tq: int)
    requires
        position_wf(p),
        tb == -p.base_asset_amount.inner,
        tq != 0,
        (tb > 0) <==> (tq > 0),
        representable(tq),
    ensures
        spec_settle(Some(p), p.market_id, min_size, tb, tq) == Ok::<TradeEffect, Error>(
            TradeEffect {
                position: None,
                realized_pnl: Decimal {
                    inner: close_pnl(
                        p.base_asset_amount.inner > 0,
                        mag(p.quote_asset_notional_amount.inner as int),
                        mag(tq),
                    ) as i128,
                },
                risk_increasing: false,
            },
        ),
{
}

/// A trade that only reduces or closes — opposite direction, magnitude
/// at most the open magnitude — never settles as risk increasing, so
/// it is never subjected to the margin check.
pub proof fn lemma_reduction_not_risk_increasing(
    pos: Position,
    market_id: u64,
    min_size: int,
    tb: int,
    tq: int,
)
    requires
        !same_direction(pos.base_asset_amount.inner as int, tb),
        mag(tb) <= mag(pos.base_asset_amount.inner as int),
    ensures
        match spec_settle(Some(pos), market_id, min_size, tb, tq) {
            Ok(eff) => !eff.risk_increasing,
            Err(_) => true,
        },
{
}

/// Partial-close linearity: closing the fraction `f = t / m` of a
/// position shrinks the base exposure by exactly the trade and the
/// entry value by the prorated share `f` of itself, exact to within one
/// fixed-point unit, and realizes the trade value against exactly that
/// share.  Signs are preserved and the trade never passes the margin
/// check gate.
pub proof fn lemma_partial_close_linearity(p: Position, min_size: int, tb: int, tq: int)
    requires
        position_wf(p),
        tb != 0,
        tq != 0,
        !same_direction(p.base_asset_amount.inner as int, tb),
        (tb > 0) <==> (tq > 0),
        mag(tb) < mag(p.base_asset_amount.inner as int),
        min_size <= mag(tb),
        representable(tq),
    ensures
        ({
            let ob = p.base_asset_amount.inner as int;
            let oq = p.quote_asset_notional_amount.inner as int;
            let f = close_fraction(mag(tb), mag(ob));
            match spec_settle(Some(p), p.market_id, min_size, tb, tq) {
                Ok(eff) => match eff.position {
                    Some(np) => {
                        let closed = mag(oq) - mag(np.quote_asset_notional_amount.inner as int);
                        &&& !eff.risk_increasing
                        &&& np.base_asset_amount.inner == ob + tb
                        &&& ((np.base_asset_amount.inner > 0) <==> (ob > 0))
                        &&& ((np.quote_asset_notional_amount.inner > 0) <==> (oq > 0))
                        &&& closed == prorated(mag(oq), f)
                        &&& f * mag(oq) - SCALE < SCALE * closed <= f * mag(oq)
                        &&& eff.realized_pnl.inner == close_pnl(ob > 0, closed, mag(tq))
                    },
                    None => false,
                },
                Err(_) => false,
            }
        }),
{
    let ob = p.base_asset_amount.inner as int;
    let oq = p.quote_asset_notional_amount.inner as int;
    let f = close_fraction(mag(tb), mag(ob));
    lemma_close_fraction_range(mag(tb), mag(ob));
    lemma_prorated_lt(mag(oq), f);
    vstd::arithmetic::div_mod::lemma_fundamental_div_mod(mag(oq) * f, SCALE as int);
    vstd::arithmetic::div_mod::lemma_mod_division_less_than_divisor(mag(oq) * f, SCALE as int);
    vstd::arithmetic::mul::lemma_mul_is_commutative(f, mag(oq));
    let eff = spec_settle(Some(p), p.market_id, min_size, tb, tq).unwrap();
    let np = eff.position.unwrap();
    let closed = mag(oq) - mag(np.quote_asset_notional_amount.inner as int);
    assert(closed == prorated(mag(oq), f));
    assert(f * mag(oq) - SCALE < SCALE * closed <= f * mag(oq));
}

/// Reversal correctness: a trade of exactly twice the open magnitude in
/// the opposite direction fully realizes the old position's result at
/// the trade's price — half the trade value against the whole entry
/// value — and leaves a position of equal magnitude and opposite sign,
/// whose quote value is the leftover half of the trade value.
pub proof fn lemma_reversal_flips_position(p: Position, min_size: int, tb: int, tq: int)
    requires
        position_wf(p),
        tb == -2 * p.base_asset_amount.inner,
        tq != 0,
        (tb > 0) <==> (tq > 0),
        min_size <= mag(tb),
        representable(tq),
    ensures
        ({
            let ob = p.base_asset_amount.inner as int;
            let oq = p.quote_asset_notional_amount.inner as int;
            match spec_settle(Some(p), p.market_id, min_size, tb, tq) {
                Ok(eff) => match eff.position {
                    Some(np) => {
                        &&& eff.risk_increasing
                        &&& np.base_asset_amount.inner == -ob
                        &&& mag(np.quote_asset_notional_amount.inner as int) == mag(tq) - mag(tq)
                            / 2
                        &&& ((np.quote_asset_notional_amount.inner > 0) <==> (tb > 0))
                        &&& eff.realized_pnl.inner == close_pnl(ob > 0, mag(oq), mag(tq) / 2)
                    },
                    None => false,
                },
                Err(_) => false,
            }
        }),
{
    let ob = p.base_asset_amount.inner as int;
    let m = mag(ob);
    let t = mag(tb);
    let half: int = 500_000_000_000_000_000int;
    assert(half * 2 == SCALE as int);
    assert(t == 2 * m);
    assert(m * (SCALE as int) == t * half);
    vstd::arithmetic::div_mod::lemma_div_multiples_vanish(half, t);
    assert(close_fraction(m, t) == half);
    let q = mag(tq);
    vstd::arithmetic::div_mod::lemma_div_denominator(q * half, half, 2);
    vstd::arithmetic::div_mod::lemma_div_multiples_vanish(q, half);
    assert((q * half) / half == q);
    assert(prorated(q, half) == q / 2);
    lemma_close_fraction_range(m, t);
    lemma_prorated_lt(q, half);
}

/// Settles a signed trade against an optional open position.
///
/// The returned effect carries the replacement position (or `None` on a
/// full close), the realized profit or loss, and whether the trade
/// increased risk.  A full close — trade magnitude exactly equal to the
/// open magnitude, in the opposite direction — always removes the
/// position and realizes the close value against the whole entry value,
/// whatever the minimum trade size.
pub fn settle_trade(
    pos: Option<Position>,
    market_id: u64,
    minimum_trade_size: Decimal,
    trade_base: Decimal,
    trade_quote: Decimal,
) -> (r: Result<TradeEffect, Error>)
    requires
        minimum_trade_size.inner >= 0,
        trade_base.valid(),
        trade_quote.valid(),
        trade_base.inner != 0,
        trade_quote.inner != 0,
        (trade_base.inner > 0) <==> (trade_quote.inner > 0),
        pos matches Some(p) ==> position_wf(p) && p.market_id == market_id,
    ensures
        r == spec_settle(
            pos,
            market_id,
            minimum_trade_size.inner as int,
            trade_base.inner as int,
            trade_quote.inner as int,
        ),
        match r {
            Ok(eff) => {
                &&& eff.realized_pnl.valid()
                &&& match eff.position {
                    Some(np) => position_wf(np) && np.market_id == market_id,
                    None => true,
                }
            },
            Err(_) => true,
        },
{
    let min_mag: u128 = minimum_trade_size.magnitude();
    let tb_mag: u128 = trade_base.magnitude();
    let tq_mag: u128 = trade_quote.magnitude();
    let tb_pos: bool = trade_base.is_positive();
    let p: Position = match pos {
        None => {
            // Opening a fresh position realizes nothing.
            if tb_mag < min_mag {
                return Err(Error::TradeSizeTooSmall);
            }
            return Ok(
                TradeEffect {
                    position: Some(
                        Position {
                            market_id,
                            base_asset_amount: trade_base,
                            quote_asset_notional_amount: trade_quote,
                        },
                    ),
                    realized_pnl: Decimal::zero(),
                    risk_increasing: true,
                },
            );
        },
        Some(p) => p,
    };
    let ob_pos: bool = p.base_asset_amount.is_positive();
    let oq_mag: u128 = p.quote_asset_notional_amount.magnitude();
    if ob_pos == tb_pos {
        // Same direction: exposure and entry value both grow.
        if tb_mag < min_mag {
            return Err(Error::TradeSizeTooSmall);
        }
        let nb: Decimal = match p.base_asset_amount.try_add(trade_base) {
            Ok(d) => d,
            Err(e) => {
                return Err(e);
            },
        };
        let nq: Decimal = match p.quote_asset_notional_amount.try_add(trade_quote) {
            Ok(d) => d,
            Err(_) => {
                return Err(Error::ArithmeticOverflow);
            },
        };
        return Ok(
            TradeEffect {
                position: Some(
                    Position {
                        market_id,
                        base_asset_amount: nb,
                        quote_asset_notional_amount: nq,
                    },
                ),
                realized_pnl: Decimal::zero(),
                risk_increasing: true,
            },
        );
    }
    let m_mag: u128 = p.base_asset_amount.magnitude();
    if tb_mag == m_mag {
        // Full close: the position goes away and the whole entry value
        // is realized against the trade's value.
        let pnl: i128 = if ob_pos {
            (tq_mag as i128) - (oq_mag as i128)
        } else {
            (oq_mag as i128) - (tq_mag as i128)
        };
        return Ok(
            TradeEffect {
                position: None,
                realized_pnl: Decimal::from_inner(pnl),
                risk_increasing: false,
            },
        );
    }
    if tb_mag < m_mag {
        // Partial close: the closed fraction of the entry value is
        // realized, the rest of the position stays open.
        if tb_mag < min_mag {
            return Err(Error::TradeSizeTooSmall);
        }
        let f: u128 = match crate::fixed::scale_div(tb_mag, m_mag) {
            Some(v) => v,
            None => {
                // Unreachable: a proper close fraction is below one.
                proof {
                    lemma_close_fraction_range(tb_mag as int, m_mag as int);
                    assert(false);
                }
                return Err(Error::ArithmeticOverflow);
            },
        };
        proof {
            lemma_close_fraction_range(tb_mag as int, m_mag as int);
            lemma_prorated_lt(oq_mag as int, f as int);
        }
        let entry_closed: u128 = match crate::fixed::mul_div_by_scale(oq_mag, f) {
            Some(v) => v,
            None => {
                // Unreachable: a proper fraction of the entry value
                // stays below the entry value.
                proof {
                    assert(false);
                }
                return Err(Error::ArithmeticOverflow);
            },
        };
        let remaining: u128 = oq_mag - entry_closed;
        let nb: Decimal = match p.base_asset_amount.try_add(trade_base) {
            Ok(d) => d,
            Err(e) => {
                return Err(e);
            },
        };
        let oq_pos: bool = p.quote_asset_notional_amount.is_positive();
        let nq: Decimal = if oq_pos {
            Decimal::from_inner(remaining as i128)
        } else {
            Decimal::from_inner(-(remaining as i128))
        };
        let pnl: i128 = if ob_pos {
            (tq_mag as i128) - (entry_closed as i128)
        } else {
            (entry_closed as i128) - (tq_mag as i128)
        };
        return Ok(
            TradeEffect {
                position: Some(
                    Position {
                        market_id,
                        base_asset_amount: nb,
                        quote_asset_notional_amount: nq,
                    },
                ),
                realized_pnl: Decimal::from_inner(pnl),
                risk_increasing: false,
            },
        );
    }
    // Reversal: the old position is closed at the trade's price and the
    // leftover part of the trade opens the opposite leg.
    if tb_mag < min_mag {
        return Err(Error::TradeSizeTooSmall);
    }
    let f: u128 = match crate::fixed::scale_div(m_mag, tb_mag) {
        Some(v) => v,
        None => {
            // Unreachable: a proper close fraction is below one.
            proof {
                lemma_close_fraction_range(m_mag as int, tb_mag as int);
                assert(false);
            }
            return Err(Error::ArithmeticOverflow);
        },
    };
    proof {
        lemma_close_fraction_range(m_mag as int, tb_mag as int);
        lemma_prorated_lt(tq_mag as int, f as int);
    }
    let quote_closed: u128 = match crate::fixed::mul_div_by_scale(tq_mag, f) {
        Some(v) => v,
        None => {
            // Unreachable: a proper fraction of the trade value stays
            // below the trade value.
            proof {
                assert(false);
            }
            return Err(Error::ArithmeticOverflow);
        },
    };
    let leftover: u128 = tq_mag - quote_closed;
    let nb: Decimal = match p.base_asset_amount.try_add(trade_base) {
        Ok(d) => d,
        Err(e) => {
            return Err(e);
        },
    };
    let nq: Decimal = if tb_pos {
        Decimal::from_inner(leftover as i128)
    } else {
        Decimal::from_inner(-(leftover as i128))
    };
    let pnl: i128 = if ob_pos {
        (quote_closed as i128) - (oq_mag as i128)
    } else {
        (oq_mag as i128) - (quote_closed as i128)
    };
    Ok(
        TradeEffect {
            position: Some(
                Position {
                    market_id,
                    base_asset_amount: nb,
                    quote_asset_notional_amount: nq,
                },
            ),
            realized_pnl: Decimal::from_inner(pnl),
            risk_increasing: true,
        },
    )
}

} // verus!
