//! The clearing house: one state store and the two public operations,
//! creating a market and opening or adjusting a position.
//!
//! Every operation is atomic: it either commits all of its effects —
//! position update, margin update, price-impact write-back, counters,
//! notification — or fails and leaves the whole state untouched.

use vstd::prelude::*;
use crate::{AssetType, Direction, Error, Event};
use crate::fixed::Decimal;
use crate::margin::{
    apply_pnl, clamped_margin, margin_computable, required_margin, spec_required_margin,
};
use crate::market::{config_validation_error, market_wf, Market, MarketConfig};
use crate::position::{position_wf, settle_trade, spec_settle, Position, TradeEffect};
use crate::vamm::{spec_impact_price, spec_swap_value, SwapConfig, Vamm};

verus! {

/// One trader's margin balance and open positions.
pub struct AccountRecord {
    pub account_id: u64,
    /// Posted collateral in quote-asset units; never negative.
    pub margin: u128,
    /// At most one position per market.
    pub positions: Vec<Position>,
}

/// The whole engine state: market registry, price source, accounts and
/// the notification log.
pub struct ClearingHouse {
    /// Whether the oracle supports the assets offered to it.
    pub oracle_asset_support: bool,
    /// The price source consulted for every trade.
    pub vamm: Vamm,
    /// Markets by id: the market with id `i` sits at index `i`.
    pub markets: Vec<Market>,
    /// One record per account that deposited margin or traded.
    pub accounts: Vec<AccountRecord>,
    /// Bound on concurrently open positions per account.
    pub max_positions: usize,
    /// Current chain time in seconds.
    pub now: u64,
    /// Notifications emitted by successful operations, oldest first.
    pub events: Vec<Event>,
}

/// A record is well formed when its positions are well formed, refer to
/// existing markets, are unique per market and fit the bound.
pub open spec fn account_wf(a: AccountRecord, n_markets: int, max_positions: int) -> bool {
    &&& a.positions@.len() <= max_positions
    &&& forall|i: int|
        0 <= i < a.positions@.len() ==> position_wf(#[trigger] a.positions@[i])
            && a.positions@[i].market_id < n_markets
    &&& forall|i: int, j: int|
        0 <= i < j < a.positions@.len() ==> (#[trigger] a.positions@[i]).market_id != (
        #[trigger] a.positions@[j]).market_id
}

pub open spec fn has_account(accounts: Seq<AccountRecord>, account_id: u64) -> bool {
    exists|i: int| 0 <= i < accounts.len() && (#[trigger] accounts[i]).account_id == account_id
}

pub open spec fn account_index(accounts: Seq<AccountRecord>, account_id: u64) -> int {
    choose|i: int| 0 <= i < accounts.len() && (#[trigger] accounts[i]).account_id == account_id
}

pub open spec fn has_position(ps: Seq<Position>, market_id: u64) -> bool {
    exists|i: int| 0 <= i < ps.len() && (#[trigger] ps[i]).market_id == market_id
}

pub open spec fn position_index(ps: Seq<Position>, market_id: u64) -> int {
    choose|i: int| 0 <= i < ps.len() && (#[trigger] ps[i]).market_id == market_id
}

/// In a sequence of pairwise-distinct account ids, any index holding
/// `account_id` is the chosen one.
pub proof fn lemma_account_index_agrees(accounts: Seq<AccountRecord>, account_id: u64, i: int)
    requires
        forall|a: int, b: int|
            0 <= a < b < accounts.len() ==> (#[trigger] accounts[a]).account_id != (
            #[trigger] accounts[b]).account_id,
        0 <= i < accounts.len(),
        accounts[i].account_id == account_id,
    ensures
        has_account(accounts, account_id),
        account_index(accounts, account_id) == i,
{
    assert(has_account(accounts, account_id));
    let j = account_index(accounts, account_id);
    assert(0 <= j < accounts.len() && accounts[j].account_id == account_id);
    if i < j {
        assert(accounts[i].account_id != accounts[j].account_id);
    } else if j < i {
        assert(accounts[j].account_id != accounts[i].account_id);
    }
}

/// In a sequence of pairwise-distinct market ids, any index holding
/// `market_id` is the chosen one.
pub proof fn lemma_position_index_agrees(ps: Seq<Position>, market_id: u64, i: int)
    requires
        forall|a: int, b: int|
            0 <= a < b < ps.len() ==> (#[trigger] ps[a]).market_id != (
            #[trigger] ps[b]).market_id,
        0 <= i < ps.len(),
        ps[i].market_id == market_id,
    ensures
        has_position(ps, market_id),
        position_index(ps, market_id) == i,
{
    assert(has_position(ps, market_id));
    let j = position_index(ps, market_id);
    assert(0 <= j < ps.len() && ps[j].market_id == market_id);
    if i < j {
        assert(ps[i].market_id != ps[j].market_id);
    } else if j < i {
        assert(ps[j].market_id != ps[i].market_id);
    }
}

/// What creating a market from `config` returns: the first violated
/// validation rule, the price source's refusal, or the id equal to the
/// number of markets created so far.
pub open spec fn spec_create_market(s: ClearingHouse, config: MarketConfig) -> Result<u64, Error> {
    match config_validation_error(s.oracle_asset_support, config) {
        Some(e) => Err(e),
        None => match s.vamm.next_vamm_id {
            Some(id) => if id == u64::MAX {
                Err(Error::FailedToCreateVamm)
            } else {
                Ok(s.markets@.len() as u64)
            },
            None => Err(Error::FailedToCreateVamm),
        },
    }
}

/// Market id monotonicity: a successful creation returns exactly the
/// number of markets created before it, whatever the configuration —
/// so `N` creations yield the ids zero through `N - 1` in order.
pub proof fn lemma_market_id_is_creation_count(s: ClearingHouse, config: MarketConfig)
    requires
        s.markets@.len() <= u64::MAX,
    ensures
        spec_create_market(s, config) matches Ok(id) ==> id == s.markets@.len(),
{
}

/// Creation rejects exactly the invalid configurations, with the error
/// of the first violated rule, and (by `create_market`'s contract)
/// stores nothing when it rejects.
pub proof fn lemma_create_market_rejects_invalid(s: ClearingHouse, config: MarketConfig)
    requires
        config_validation_error(s.oracle_asset_support, config) matches Some(e),
    ensures
        spec_create_market(s, config) == Err::<u64, Error>(
            config_validation_error(s.oracle_asset_support, config).unwrap(),
        ),
{
}

/// The position sign invariant: in a well-formed state — and every
/// operation keeps the state well formed — each stored position has a
/// nonzero base amount whose sign agrees with its quote notional.
pub proof fn lemma_position_signs_agree(s: ClearingHouse, i: int, j: int)
    requires
        s.wf(),
        0 <= i < s.accounts@.len(),
        0 <= j < s.accounts@[i].positions@.len(),
    ensures
        ({
            let p = s.accounts@[i].positions@[j];
            &&& p.base_asset_amount.inner != 0
            &&& p.quote_asset_notional_amount.inner != 0
            &&& ((p.base_asset_amount.inner > 0) <==> (p.quote_asset_notional_amount.inner > 0))
        }),
{
    assert(account_wf(s.accounts@[i], s.markets@.len() as int, s.max_positions as int));
    assert(position_wf(s.accounts@[i].positions@[j]));
}

/// The positions of `account`, empty when the account is unknown.
pub open spec fn spec_account_positions(s: ClearingHouse, account: u64) -> Seq<Position> {
    if has_account(s.accounts@, account) {
        s.accounts@[account_index(s.accounts@, account)].positions@
    } else {
        Seq::<Position>::empty()
    }
}

/// The margin balance of `account`, zero when the account is unknown.
pub open spec fn spec_account_margin(s: ClearingHouse, account: u64) -> u128 {
    if has_account(s.accounts@, account) {
        s.accounts@[account_index(s.accounts@, account)].margin
    } else {
        0
    }
}

/// Everything a position-opening attempt decides: the result handed to
/// the caller and, on success, the account's new position list and
/// margin balance and the price override written back by price impact.
pub struct OpenOutcome {
    pub result: Result<u128, Error>,
    pub new_positions: Seq<Position>,
    pub new_margin: u128,
    pub written_price: Option<Decimal>,
}

pub open spec fn open_failed(e: Error) -> OpenOutcome {
    OpenOutcome {
        result: Err(e),
        new_positions: Seq::<Position>::empty(),
        new_margin: 0,
        written_price: None,
    }
}

/// The account's position list after a settled trade: the entry for
/// the market is replaced, removed on a full close, or appended when
/// the market was not yet entered.
pub open spec fn spec_post_positions(
    ps: Seq<Position>,
    market_id: u64,
    newp: Option<Position>,
) -> Seq<Position> {
    if has_position(ps, market_id) {
        let i = position_index(ps, market_id);
        match newp {
            Some(p) => ps.update(i, p),
            None => ps.remove(i),
        }
    } else {
        match newp {
            Some(p) => ps.push(p),
            None => ps,
        }
    }
}

/// The whole position-opening pipeline: market lookup, swap pricing,
/// price impact, conversion, position-count gate, settlement, PnL
/// application, and — only for risk-increasing trades — the margin
/// check against the post-trade position set.
pub open spec fn spec_open_position(
    s: ClearingHouse,
    account: u64,
    market_id: u64,
    direction: Direction,
    quote_amount: u128,
    base_amount_limit: u128,
) -> OpenOutcome {
    if market_id >= s.markets@.len() {
        open_failed(Error::MarketIdNotFound)
    } else {
        let m = s.markets@[market_id as int];
        let cfg = SwapConfig {
            vamm_id: m.vamm_id,
            asset: AssetType::Quote,
            input_amount: quote_amount,
            direction,
            output_amount_limit: base_amount_limit,
        };
        match spec_swap_value(s.vamm, cfg) {
            Err(e) => open_failed(e),
            Ok(out) => match spec_impact_price(s.vamm, m.vamm_id) {
                Err(e) => open_failed(e),
                Ok(written) => {
                    if out == 0 || quote_amount == 0 {
                        open_failed(Error::TradeSizeTooSmall)
                    } else if quote_amount > i128::MAX {
                        open_failed(Error::ArithmeticOverflow)
                    } else {
                        let tb: int = if direction == Direction::Long {
                            out as int
                        } else {
                            -(out as int)
                        };
                        let tq: int = if direction == Direction::Long {
                            quote_amount as int
                        } else {
                            -(quote_amount as int)
                        };
                        let ps = spec_account_positions(s, account);
                        let margin0 = spec_account_margin(s, account);
                        let existing = if has_position(ps, market_id) {
                            Some(ps[position_index(ps, market_id)])
                        } else {
                            None::<Position>
                        };
                        if existing is None && ps.len() >= s.max_positions {
                            open_failed(Error::MaxPositionsExceeded)
                        } else {
                            match spec_settle(
                                existing,
                                market_id,
                                m.minimum_trade_size.inner as int,
                                tb,
                                tq,
                            ) {
                                Err(e) => open_failed(e),
                                Ok(eff) => {
                                    if margin0 + eff.realized_pnl.inner > u128::MAX {
                                        open_failed(Error::ArithmeticOverflow)
                                    } else {
                                        let new_margin = clamped_margin(
                                            margin0 as int,
                                            eff.realized_pnl.inner as int,
                                        ) as u128;
                                        let nps = spec_post_positions(
                                            ps,
                                            market_id,
                                            eff.position,
                                        );
                                        if eff.risk_increasing && !margin_computable(
                                            nps,
                                            s.markets@,
                                        ) {
                                            open_failed(Error::ArithmeticOverflow)
                                        } else if eff.risk_increasing && new_margin
                                            < spec_required_margin(nps, s.markets@) {
                                            open_failed(Error::InsufficientCollateral)
                                        } else {
                                            OpenOutcome {
                                                result: Ok(out),
                                                new_positions: nps,
                                                new_margin,
                                                written_price: written,
                                            }
                                        }
                                    }
                                },
                            }
                        }
                    }
                },
            },
        }
    }
}

/// Decreasing trades bypass the margin check: a rejection for
/// insufficient collateral can only come from a trade whose settlement
/// opened, increased or reversed exposure.  A trade that merely
/// reduces or closes a position is never rejected for margin, whatever
/// the account's balance.
pub proof fn lemma_insufficient_collateral_needs_risk_increase(
    s: ClearingHouse,
    account: u64,
    market_id: u64,
    direction: Direction,
    quote_amount: u128,
    base_amount_limit: u128,
)
    ensures
        ({
            let o = spec_open_position(s, account, market_id, direction, quote_amount, base_amount_limit);
            o.result == Err::<u128, Error>(Error::InsufficientCollateral) ==> ({
                let m = s.markets@[market_id as int];
                let cfg = SwapConfig {
                    vamm_id: m.vamm_id,
                    asset: AssetType::Quote,
                    input_amount: quote_amount,
                    direction,
                    output_amount_limit: base_amount_limit,
                };
                match spec_swap_value(s.vamm, cfg) {
                    Ok(out) => {
                        let tb: int = if direction == Direction::Long {
                            out as int
                        } else {
                            -(out as int)
                        };
                        let tq: int = if direction == Direction::Long {
                            quote_amount as int
                        } else {
                            -(quote_amount as int)
                        };
                        let ps = spec_account_positions(s, account);
                        let existing = if has_position(ps, market_id) {
                            Some(ps[position_index(ps, market_id)])
                        } else {
                            None::<Position>
                        };
                        match spec_settle(
                            existing,
                            market_id,
                            m.minimum_trade_size.inner as int,
                            tb,
                            tq,
                        ) {
                            Ok(eff) => eff.risk_increasing,
                            Err(_) => false,
                        }
                    },
                    Err(_) => false,
                }
            })
        }),
{
}

/// Finds the record of `account_id`, first match.
fn find_account(accounts: &Vec<AccountRecord>, account_id: u64) -> (r: Option<usize>)
    ensures
        match r {
            Some(i) => i < accounts@.len() && accounts@[i as int].account_id == account_id,
            None => !has_account(accounts@, account_id),
        },
{
    let n: usize = accounts.len();
    let mut i: usize = 0;
    while i < n
        invariant
            i <= n,
            n == accounts@.len(),
            forall|j: int| 0 <= j < i ==> (#[trigger] accounts@[j]).account_id != account_id,
        decreases n - i,
    {
        if accounts[i].account_id == account_id {
            return Some(i);
        }
        i = i + 1;
    }
    None
}

/// Finds the position for `market_id`, first match.
fn find_position(ps: &Vec<Position>, market_id: u64) -> (r: Option<usize>)
    ensures
        match r {
            Some(i) => i < ps@.len() && ps@[i as int].market_id == market_id,
            None => !has_position(ps@, market_id),
        },
{
    let n: usize = ps.len();
    let mut i: usize = 0;
    while i < n
        invariant
            i <= n,
            n == ps@.len(),
            forall|j: int| 0 <= j < i ==> (#[trigger] ps@[j]).market_id != market_id,
        decreases n - i,
    {
        if ps[i].market_id == market_id {
            return Some(i);
        }
        i = i + 1;
    }
    None
}

/// Copies a position list.
fn copy_positions(src: &Vec<Position>) -> (r: Vec<Position>)
    ensures
        r@ == src@,
{
    let n: usize = src.len();
    let mut r: Vec<Position> = Vec::new();
    let mut i: usize = 0;
    proof {
        assert(src@.take(0) =~= Seq::<Position>::empty());
    }
    while i < n
        invariant
            i <= n,
            n == src@.len(),
            r@ == src@.take(i as int),
        decreases n - i,
    {
        r.push(src[i]);
        proof {
            assert(src@.take(i as int + 1) =~= src@.take(i as int).push(src@[i as int]));
        }
        i = i + 1;
    }
    proof {
        assert(src@.take(n as int) =~= src@);
    }
    r
}

impl ClearingHouse {
    /// Every market, account and stored price is well formed; accounts
    /// are unique; positions are unique per account and market, carry
    /// equal signs on both components, and refer to existing markets.
    pub open spec fn wf(self) -> bool {
        &&& self.vamm.wf()
        &&& forall|i: int| 0 <= i < self.markets@.len() ==> market_wf(#[trigger] self.markets@[i])
        &&& forall|a: int, b: int|
            0 <= a < b < self.accounts@.len() ==> (#[trigger] self.accounts@[a]).account_id != (
            #[trigger] self.accounts@[b]).account_id
        &&& forall|i: int|
            0 <= i < self.accounts@.len() ==> account_wf(
                #[trigger] self.accounts@[i],
                self.markets@.len() as int,
                self.max_positions as int,
            )
    }

    /// A fresh clearing house with no markets, no accounts and an empty
    /// log.
    pub fn new(
        oracle_asset_support: bool,
        vamm_id: Option<u64>,
        twap: Option<Decimal>,
        max_positions: usize,
        now: u64,
    ) -> (r: ClearingHouse)
        requires
            twap matches Some(t) ==> t.valid(),
        ensures
            r.wf(),
            r.oracle_asset_support == oracle_asset_support,
            r.vamm.next_vamm_id == vamm_id,
            r.vamm.twap == twap,
            r.vamm.price is None,
            r.vamm.slippage is None,
            r.vamm.prices.entries@.len() == 0,
            r.vamm.price_impacts.entries@.len() == 0,
            r.vamm.twaps.entries@.len() == 0,
            r.max_positions == max_positions,
            r.now == now,
            r.markets@.len() == 0,
            r.accounts@.len() == 0,
            r.events@.len() == 0,
    {
        ClearingHouse {
            oracle_asset_support,
            vamm: Vamm::new(vamm_id, twap),
            markets: Vec::new(),
            accounts: Vec::new(),
            max_positions,
            now,
            events: Vec::new(),
        }
    }

    /// Sets the chain time used as the funding timestamp of new markets.
    pub fn set_time(&mut self, now: u64)
        requires
            old(self).wf(),
        ensures
            final(self).wf(),
            *final(self) == (ClearingHouse { now, ..*old(self) }),
    {
        self.now = now;
    }

    /// How many markets have been created.
    pub fn market_count(&self) -> (r: u64)
        ensures
            r == self.markets@.len(),
    {
        self.markets.len() as u64
    }

    /// The market with the given id, if it was created.
    pub fn get_market(&self, market_id: u64) -> (r: Option<Market>)
        ensures
            r == if market_id < self.markets@.len() {
                Some(self.markets@[market_id as int])
            } else {
                None::<Market>
            },
    {
        let n: usize = self.markets.len();
        if market_id < n as u64 {
            Some(self.markets[market_id as usize])
        } else {
            None
        }
    }

    /// The open positions of `account`, empty when it never traded.
    pub fn get_positions(&self, account: u64) -> (r: Vec<Position>)
        requires
            self.wf(),
        ensures
            r@ == spec_account_positions(*self, account),
    {
        match find_account(&self.accounts, account) {
            Some(ai) => {
                proof {
                    lemma_account_index_agrees(self.accounts@, account, ai as int);
                }
                copy_positions(&self.accounts[ai].positions)
            },
            None => Vec::new(),
        }
    }

    /// The margin balance of `account`, if it has a margin account.
    pub fn get_margin(&self, account: u64) -> (r: Option<u128>)
        requires
            self.wf(),
        ensures
            r == if has_account(self.accounts@, account) {
                Some(spec_account_margin(*self, account))
            } else {
                None::<u128>
            },
    {
        match find_account(&self.accounts, account) {
            Some(ai) => {
                proof {
                    lemma_account_index_agrees(self.accounts@, account, ai as int);
                }
                Some(self.accounts[ai].margin)
            },
            None => None,
        }
    }

    /// Creates a market from `config`: the validation outcome and the
    /// price source's ability to hand out a pricing context determine
    /// the result entirely, and the id of a new market is exactly the
    /// number of markets created before it.
    pub fn create_market(&mut self, config: &MarketConfig) -> (r: Result<u64, Error>)
        requires
            old(self).wf(),
        ensures
            final(self).wf(),
            r == spec_create_market(*old(self), *config),
            match r {
                Err(_) => *final(self) == *old(self),
                Ok(id) => {
                    &&& id == old(self).markets@.len()
                    &&& match old(self).vamm.next_vamm_id {
                        Some(vid) => {
                            &&& final(self).markets@ == old(self).markets@.push(
                                Market {
                                    asset_id: config.asset,
                                    vamm_id: vid,
                                    margin_ratio_initial: config.margin_ratio_initial,
                                    margin_ratio_maintenance: config.margin_ratio_maintenance,
                                    minimum_trade_size: config.minimum_trade_size,
                                    funding_frequency: config.funding_frequency,
                                    funding_period: config.funding_period,
                                    funding_rate_ts: old(self).now,
                                },
                            )
                            &&& final(self).vamm == (Vamm {
                                next_vamm_id: Some((vid + 1) as u64),
                                ..old(self).vamm
                            })
                        },
                        None => false,
                    }
                    &&& final(self).events@ == old(self).events@.push(
                        Event::MarketCreated { market: id, asset: config.asset },
                    )
                    &&& final(self).accounts == old(self).accounts
                    &&& final(self).oracle_asset_support == old(self).oracle_asset_support
                    &&& final(self).max_positions == old(self).max_positions
                    &&& final(self).now == old(self).now
                },
            },
    {
        match crate::market::validate_config(self.oracle_asset_support, config) {
            Ok(_) => {},
            Err(e) => {
                return Err(e);
            },
        }
        let vamm_id: u64 = match self.vamm.create(&config.vamm_config) {
            Ok(v) => v,
            Err(e) => {
                return Err(e);
            },
        };
        let id: u64 = self.markets.len() as u64;
        let market = Market {
            asset_id: config.asset,
            vamm_id,
            margin_ratio_initial: config.margin_ratio_initial,
            margin_ratio_maintenance: config.margin_ratio_maintenance,
            minimum_trade_size: config.minimum_trade_size,
            funding_frequency: config.funding_frequency,
            funding_period: config.funding_period,
            funding_rate_ts: self.now,
        };
        self.markets.push(market);
        self.events.push(Event::MarketCreated { market: id, asset: config.asset });
        proof {
            assert(market_wf(market));
            assert forall|i: int|
                0 <= i < self.accounts@.len() implies account_wf(
                #[trigger] self.accounts@[i],
                self.markets@.len() as int,
                self.max_positions as int,
            ) by {
                assert(account_wf(
                    self.accounts@[i],
                    old(self).markets@.len() as int,
                    self.max_positions as int,
                ));
            }
        }
        Ok(id)
    }

    /// Deposits `amount` of collateral into the margin account of
    /// `account`, creating the record on first use.
    pub fn add_margin(&mut self, account: u64, amount: u128) -> (r: Result<(), Error>)
        requires
            old(self).wf(),
        ensures
            final(self).wf(),
            match r {
                Ok(_) => {
                    &&& spec_account_margin(*old(self), account) + amount <= u128::MAX
                    &&& has_account(final(self).accounts@, account)
                    &&& spec_account_margin(*final(self), account) == spec_account_margin(
                        *old(self),
                        account,
                    ) + amount
                    &&& spec_account_positions(*final(self), account) == spec_account_positions(
                        *old(self),
                        account,
                    )
                    &&& final(self).markets == old(self).markets
                    &&& final(self).vamm == old(self).vamm
                    &&& final(self).events == old(self).events
                    &&& final(self).oracle_asset_support == old(self).oracle_asset_support
                    &&& final(self).max_positions == old(self).max_positions
                    &&& final(self).now == old(self).now
                    &&& (if has_account(old(self).accounts@, account) {
                        final(self).accounts@.len() == old(self).accounts@.len() && (forall|
                            j: int,
                        |
                            0 <= j < old(self).accounts@.len() && j != account_index(
                                old(self).accounts@,
                                account,
                            ) ==> final(self).accounts@[j] == old(self).accounts@[j])
                    } else {
                        final(self).accounts@.len() == old(self).accounts@.len() + 1 && (forall|
                            j: int,
                        |
                            0 <= j < old(self).accounts@.len() ==> final(self).accounts@[j] == old(
                                self,
                            ).accounts@[j])
                    })
                },
                Err(e) => e == Error::ArithmeticOverflow && spec_account_margin(
                    *old(self),
                    account,
                ) + amount > u128::MAX && *final(self) == *old(self),
            },
    {
        match find_account(&self.accounts, account) {
            Some(ai) => {
                proof {
                    lemma_account_index_agrees(self.accounts@, account, ai as int);
                }
                let current: u128 = self.accounts[ai].margin;
                let updated: u128 = match current.checked_add(amount) {
                    Some(v) => v,
                    None => {
                        return Err(Error::ArithmeticOverflow);
                    },
                };
                let mut rec: AccountRecord = self.accounts.remove(ai);
                rec.margin = updated;
                self.accounts.insert(ai, rec);
                proof {
                    assert(self.accounts@ =~= old(self).accounts@.update(
                        ai as int,
                        self.accounts@[ai as int],
                    ));
                    assert forall|a: int, b: int|
                        0 <= a < b < self.accounts@.len() implies (
                    #[trigger] self.accounts@[a]).account_id != (
                    #[trigger] self.accounts@[b]).account_id by {
                        assert(self.accounts@[a].account_id == old(self).accounts@[a].account_id);
                        assert(self.accounts@[b].account_id == old(self).accounts@[b].account_id);
                    }
                    assert forall|i: int|
                        0 <= i < self.accounts@.len() implies account_wf(
                        #[trigger] self.accounts@[i],
                        self.markets@.len() as int,
                        self.max_positions as int,
                    ) by {
                        if i != ai as int {
                            assert(self.accounts@[i] == old(self).accounts@[i]);
                        } else {
                            assert(self.accounts@[i].positions == old(self).accounts@[
                                i].positions);
                        }
                    }
                    lemma_account_index_agrees(self.accounts@, account, ai as int);
                }
                Ok(())
            },
            None => {
                let ghost old_len = self.accounts@.len();
                self.accounts.push(
                    AccountRecord { account_id: account, margin: amount, positions: Vec::new() },
                );
                proof {
                    assert forall|a: int, b: int|
                        0 <= a < b < self.accounts@.len() implies (
                    #[trigger] self.accounts@[a]).account_id != (
                    #[trigger] self.accounts@[b]).account_id by {
                        if b < old_len {
                            assert(self.accounts@[a] == old(self).accounts@[a]);
                            assert(self.accounts@[b] == old(self).accounts@[b]);
                        } else {
                            assert(self.accounts@[b].account_id == account);
                            if a < old_len {
                                assert(self.accounts@[a] == old(self).accounts@[a]);
                                assert(!has_account(old(self).accounts@, account));
                            }
                        }
                    }
                    assert forall|i: int|
                        0 <= i < self.accounts@.len() implies account_wf(
                        #[trigger] self.accounts@[i],
                        self.markets@.len() as int,
                        self.max_positions as int,
                    ) by {
                        if i < old_len {
                            assert(self.accounts@[i] == old(self).accounts@[i]);
                        } else {
                            assert(self.accounts@[i].positions@.len() == 0);
                        }
                    }
                    lemma_account_index_agrees(self.accounts@, account, old_len as int);
                }
                Ok(())
            },
        }
    }

    /// Opens or adjusts the position of `account` in `market_id`.
    ///
    /// The trade swaps `quote_asset_amount` of quote at the price
    /// source's execution price, demanding at least
    /// `base_asset_amount_limit` of base out.  The signed trade is
    /// settled against the existing position; realized PnL moves the
    /// margin balance, floored at zero; a trade that opens, increases
    /// or reverses exposure must leave the balance at or above the
    /// aggregate initial-margin requirement of the post-trade position
    /// set, while a trade that only reduces or closes is admitted
    /// regardless.  On success the swapped base amount is returned and
    /// a trade notification appended; on failure nothing changes.
    #[verifier::rlimit(100)]
    pub fn open_position(
        &mut self,
        account: u64,
        market_id: u64,
        direction: Direction,
        quote_asset_amount: u128,
        base_asset_amount_limit: u128,
    ) -> (r: Result<u128, Error>)
        requires
            old(self).wf(),
        ensures
            final(self).wf(),
            ({
                let o = spec_open_position(
                    *old(self),
                    account,
                    market_id,
                    direction,
                    quote_asset_amount,
                    base_asset_amount_limit,
                );
                &&& r == o.result
                &&& (r is Err ==> *final(self) == *old(self))
                &&& (r is Ok ==> {
                    &&& final(self).oracle_asset_support == old(self).oracle_asset_support
                    &&& final(self).markets == old(self).markets
                    &&& final(self).max_positions == old(self).max_positions
                    &&& final(self).now == old(self).now
                    &&& final(self).events@ == old(self).events@.push(
                        Event::TradeExecuted {
                            market: market_id,
                            direction,
                            quote: quote_asset_amount,
                            base: base_asset_amount_limit,
                        },
                    )
                    &&& final(self).vamm.next_vamm_id == old(self).vamm.next_vamm_id
                    &&& final(self).vamm.price == old(self).vamm.price
                    &&& final(self).vamm.slippage == old(self).vamm.slippage
                    &&& final(self).vamm.twap == old(self).vamm.twap
                    &&& final(self).vamm.twaps == old(self).vamm.twaps
                    &&& final(self).vamm.price_impacts == old(self).vamm.price_impacts
                    &&& match o.written_price {
                        Some(p2) => final(self).vamm.prices.entries@ == old(
                            self,
                        ).vamm.prices.entries@.insert(
                            0,
                            (old(self).markets@[market_id as int].vamm_id, Some(p2)),
                        ),
                        None => final(self).vamm.prices == old(self).vamm.prices,
                    }
                    &&& has_account(final(self).accounts@, account)
                    &&& spec_account_positions(*final(self), account) == o.new_positions
                    &&& spec_account_margin(*final(self), account) == o.new_margin
                    &&& (if has_account(old(self).accounts@, account) {
                        final(self).accounts@.len() == old(self).accounts@.len() && (forall|
                            j: int,
                        |
                            0 <= j < old(self).accounts@.len() && j != account_index(
                                old(self).accounts@,
                                account,
                            ) ==> final(self).accounts@[j] == old(self).accounts@[j])
                    } else {
                        final(self).accounts@.len() == old(self).accounts@.len() + 1 && (forall|
                            j: int,
                        |
                            0 <= j < old(self).accounts@.len() ==> final(self).accounts@[j] == old(
                                self,
                            ).accounts@[j])
                    })
                })
            }),
    {
        let ghost pre = *old(self);
        let n_markets: usize = self.markets.len();
        if market_id >= n_markets as u64 {
            return Err(Error::MarketIdNotFound);
        }
        let m: Market = self.markets[market_id as usize];
        let cfg = SwapConfig {
            vamm_id: m.vamm_id,
            asset: AssetType::Quote,
            input_amount: quote_asset_amount,
            direction,
            output_amount_limit: base_asset_amount_limit,
        };
        let out: u128 = match self.vamm.swap_value(&cfg) {
            Ok(v) => v,
            Err(e) => {
                return Err(e);
            },
        };
        let written: Option<Decimal> = match self.vamm.impact_price(m.vamm_id) {
            Ok(w) => w,
            Err(e) => {
                return Err(e);
            },
        };
        if out == 0 || quote_asset_amount == 0 {
            return Err(Error::TradeSizeTooSmall);
        }
        let quote_dec: Decimal = match Decimal::try_from_balance(quote_asset_amount) {
            Ok(d) => d,
            Err(e) => {
                return Err(e);
            },
        };
        let out_dec: Decimal = Decimal::from_inner(out as i128);
        let trade_base: Decimal;
        let trade_quote: Decimal;
        match direction {
            Direction::Long => {
                trade_base = out_dec;
                trade_quote = quote_dec;
            },
            Direction::Short => {
                trade_base = out_dec.neg();
                trade_quote = quote_dec.neg();
            },
        }
        // Snapshot the account before the trade.
        let acct_idx: Option<usize> = find_account(&self.accounts, account);
        let mut cand: Vec<Position>;
        let margin0: u128;
        match acct_idx {
            Some(ai) => {
                proof {
                    lemma_account_index_agrees(self.accounts@, account, ai as int);
                }
                cand = copy_positions(&self.accounts[ai].positions);
                margin0 = self.accounts[ai].margin;
            },
            None => {
                cand = Vec::new();
                margin0 = 0;
            },
        }
        let ghost ps = spec_account_positions(pre, account);
        proof {
            if acct_idx is None {
                assert(cand@ =~= ps);
            }
            assert(cand@ == ps);
            assert(margin0 == spec_account_margin(pre, account));
            // The snapshot inherits well-formedness from the account.
            match acct_idx {
                Some(ai) => {
                    assert(account_wf(
                        pre.accounts@[ai as int],
                        pre.markets@.len() as int,
                        pre.max_positions as int,
                    ));
                },
                None => {},
            }
            assert(forall|a: int, b: int|
                0 <= a < b < ps.len() ==> (#[trigger] ps[a]).market_id != (
                #[trigger] ps[b]).market_id);
            assert(forall|k: int|
                0 <= k < ps.len() ==> position_wf(#[trigger] ps[k]) && ps[k].market_id
                    < pre.markets@.len());
        }
        let pos_idx: Option<usize> = find_position(&cand, market_id);
        let existing: Option<Position> = match pos_idx {
            Some(pi) => {
                proof {
                    lemma_position_index_agrees(ps, market_id, pi as int);
                }
                Some(cand[pi])
            },
            None => None,
        };
        if existing.is_none() && cand.len() >= self.max_positions {
            return Err(Error::MaxPositionsExceeded);
        }
        let eff: TradeEffect = match settle_trade(
            existing,
            market_id,
            m.minimum_trade_size,
            trade_base,
            trade_quote,
        ) {
            Ok(v) => v,
            Err(e) => {
                return Err(e);
            },
        };
        let new_margin: u128 = match apply_pnl(margin0, eff.realized_pnl) {
            Ok(v) => v,
            Err(e) => {
                return Err(e);
            },
        };
        // Build the post-trade position list.
        match pos_idx {
            Some(pi) => {
                cand.remove(pi);
                match eff.position {
                    Some(np) => {
                        cand.insert(pi, np);
                        proof {
                            ps.remove_ensures(pi as int);
                            ps.remove(pi as int).insert_ensures(pi as int, np);
                            assert(cand@ =~= ps.update(pi as int, np));
                        }
                    },
                    None => {},
                }
            },
            None => {
                match eff.position {
                    Some(np) => {
                        cand.push(np);
                    },
                    None => {},
                }
            },
        }
        let ghost nps = spec_post_positions(ps, market_id, eff.position);
        proof {
            assert(cand@ == nps);
            // The post-trade list is well formed: entries are unique per
            // market, well formed, bounded, and refer to real markets.
            match pos_idx {
                Some(pi) => {
                    ps.remove_ensures(pi as int);
                },
                None => {},
            }
            assert forall|k: int|
                0 <= k < cand@.len() implies position_wf(#[trigger] cand@[k]) && cand@[
                k].market_id < pre.markets@.len() by {
                match pos_idx {
                    Some(pi) => {
                        match eff.position {
                            Some(np) => {
                                if k != pi as int {
                                    assert(cand@[k] == ps[k]);
                                }
                            },
                            None => {
                                if k < pi as int {
                                    assert(cand@[k] == ps[k]);
                                } else {
                                    assert(cand@[k] == ps[k + 1]);
                                }
                            },
                        }
                    },
                    None => {
                        if k < ps.len() {
                            assert(cand@[k] == ps[k]);
                        }
                    },
                }
            }
            assert forall|a: int, b: int|
                0 <= a < b < cand@.len() implies (#[trigger] cand@[a]).market_id != (
            #[trigger] cand@[b]).market_id by {
                match pos_idx {
                    Some(pi) => {
                        match eff.position {
                            Some(np) => {
                                if a != pi as int {
                                    assert(cand@[a] == ps[a]);
                                }
                                if b != pi as int {
                                    assert(cand@[b] == ps[b]);
                                }
                                if a == pi as int {
                                    assert(cand@[a].market_id == market_id);
                                    assert(ps[b].market_id != market_id);
                                }
                                if b == pi as int {
                                    assert(cand@[b].market_id == market_id);
                                    assert(ps[a].market_id != market_id);
                                }
                            },
                            None => {
                                let a2 = if a < pi as int {
                                    a
                                } else {
                                    a + 1
                                };
                                let b2 = if b < pi as int {
                                    b
                                } else {
                                    b + 1
                                };
                                assert(cand@[a] == ps[a2]);
                                assert(cand@[b] == ps[b2]);
                            },
                        }
                    },
                    None => {
                        if b < ps.len() {
                            assert(cand@[a] == ps[a]);
                            assert(cand@[b] == ps[b]);
                        } else {
                            assert(cand@[b].market_id == market_id);
                            if a < ps.len() {
                                assert(cand@[a] == ps[a]);
                                assert(ps[a].market_id != market_id);
                            }
                        }
                    },
                }
            }
            assert(cand@.len() <= pre.max_positions);
        }
        if eff.risk_increasing {
            let req: u128 = match required_margin(&cand, &self.markets) {
                Ok(v) => v,
                Err(e) => {
                    return Err(e);
                },
            };
            if new_margin < req {
                return Err(Error::InsufficientCollateral);
            }
        }
        // Commit: price impact, account record, notification.
        match written {
            Some(p2) => {
                self.vamm.set_price_of(m.vamm_id, Some(p2));
            },
            None => {},
        }
        let ghost committed_accounts = self.accounts@;
        match acct_idx {
            Some(ai) => {
                let mut rec: AccountRecord = self.accounts.remove(ai);
                rec.margin = new_margin;
                rec.positions = cand;
                self.accounts.insert(ai, rec);
                proof {
                    assert(self.accounts@ =~= pre.accounts@.update(
                        ai as int,
                        self.accounts@[ai as int],
                    ));
                }
            },
            None => {
                self.accounts.push(
                    AccountRecord { account_id: account, margin: new_margin, positions: cand },
                );
            },
        }
        self.events.push(
            Event::TradeExecuted {
                market: market_id,
                direction,
                quote: quote_asset_amount,
                base: base_asset_amount_limit,
            },
        );
        proof {
            let ghost fin = *self;
            // Uniqueness of accounts is preserved.
            assert forall|a: int, b: int|
                0 <= a < b < fin.accounts@.len() implies (
            #[trigger] fin.accounts@[a]).account_id != (
            #[trigger] fin.accounts@[b]).account_id by {
                match acct_idx {
                    Some(ai) => {
                        assert(fin.accounts@[a].account_id == pre.accounts@[a].account_id);
                        assert(fin.accounts@[b].account_id == pre.accounts@[b].account_id);
                    },
                    None => {
                        if b < pre.accounts@.len() {
                            assert(fin.accounts@[a] == pre.accounts@[a]);
                            assert(fin.accounts@[b] == pre.accounts@[b]);
                        } else {
                            assert(fin.accounts@[b].account_id == account);
                            if a < pre.accounts@.len() {
                                assert(fin.accounts@[a] == pre.accounts@[a]);
                                assert(!has_account(pre.accounts@, account));
                            }
                        }
                    },
                }
            }
            // Every record is still well formed.
            assert forall|i: int|
                0 <= i < fin.accounts@.len() implies account_wf(
                #[trigger] fin.accounts@[i],
                fin.markets@.len() as int,
                fin.max_positions as int,
            ) by {
                match acct_idx {
                    Some(ai) => {
                        if i != ai as int {
                            assert(fin.accounts@[i] == pre.accounts@[i]);
                        } else {
                            assert(fin.accounts@[i].positions@ == nps);
                        }
                    },
                    None => {
                        if i < pre.accounts@.len() {
                            assert(fin.accounts@[i] == pre.accounts@[i]);
                        } else {
                            assert(fin.accounts@[i].positions@ == nps);
                        }
                    },
                }
            }
            // The traded account is found at its (old or appended) slot.
            match acct_idx {
                Some(ai) => {
                    lemma_account_index_agrees(fin.accounts@, account, ai as int);
                },
                None => {
                    lemma_account_index_agrees(
                        fin.accounts@,
                        account,
                        pre.accounts@.len() as int,
                    );
                },
            }
            assert(spec_account_positions(fin, account) == nps);
            assert(spec_account_margin(fin, account) == new_margin);
        }
        Ok(out)
    }

    /// The most recent notification, if any was emitted.
    pub fn last_event(&self) -> (r: Option<Event>)
        ensures
            r == if self.events@.len() > 0 {
                Some(self.events@[self.events@.len() - 1])
            } else {
                None::<Event>
            },
    {
        let n: usize = self.events.len();
        if n > 0 {
            Some(self.events[n - 1])
        } else {
            None
        }
    }
}

} // verus!
