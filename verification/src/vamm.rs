//! A deterministic price source for the clearing house.
//!
//! It hands out pricing-context ids, stores a default execution price
//! with optional per-context overrides, and prices swaps from quote to
//! base (or base to quote) at the stored price, with optional slippage
//! and price impact.  A swap whose output falls short of the caller's
//! limit fails rather than fill badly.

use vstd::prelude::*;
use crate::{AssetType, Direction, Error};
use crate::fixed::{mag, scaled_div, scaled_mul, Decimal, SCALE};

verus! {

/// Parameters for creating a pricing context.  The deterministic price
/// source needs none.
#[derive(Clone, Copy, Debug, PartialEq, Eq, Structural, Default)]
pub struct VammConfig {}

/// A swap request: sell `input_amount` of the given asset side of the
/// pair and demand at least `output_amount_limit` of the other side.
#[derive(Clone, Copy, Debug, PartialEq, Eq, Structural)]
pub struct SwapConfig {
    pub vamm_id: u64,
    pub asset: AssetType,
    pub input_amount: u128,
    pub direction: Direction,
    pub output_amount_limit: u128,
}

/// A swap request without an output limit, priced but also executed.
#[derive(Clone, Copy, Debug, PartialEq, Eq, Structural)]
pub struct SwapSimulationConfig {
    pub vamm_id: u64,
    pub asset: AssetType,
    pub input_amount: u128,
    pub direction: Direction,
}

/// What a swap returned: the output amount and whether it counts toward
/// the short side.
#[derive(Clone, Copy, Debug, PartialEq, Eq, Structural)]
pub struct SwapOutput {
    pub output: u128,
    pub negative: bool,
}

/// Per-context overrides, newest first; an entry holding `None` masks
/// older entries, so the lookup falls back to the default.
pub struct OverrideMap {
    pub entries: Vec<(u64, Option<Decimal>)>,
}

/// First entry for `key`, if any: the newest write wins.
pub open spec fn spec_lookup(entries: Seq<(u64, Option<Decimal>)>, key: u64) -> Option<Decimal>
    decreases entries.len(),
{
    if entries.len() == 0 {
        None
    } else if entries[0].0 == key {
        entries[0].1
    } else {
        spec_lookup(entries.drop_first(), key)
    }
}

/// All stored decimals lie in the symmetric signed range.
pub open spec fn entries_valid(entries: Seq<(u64, Option<Decimal>)>) -> bool {
    forall|i: int|
        0 <= i < entries.len() ==> ((#[trigger] entries[i]).1 matches Some(d) ==> d.valid())
}

pub proof fn lemma_lookup_valid(entries: Seq<(u64, Option<Decimal>)>, key: u64)
    requires
        entries_valid(entries),
    ensures
        spec_lookup(entries, key) matches Some(d) ==> d.valid(),
    decreases entries.len(),
{
    if entries.len() > 0 && entries[0].0 != key {
        assert forall|i: int|
            0 <= i < entries.drop_first().len() implies ((#[trigger] entries.drop_first()[i]).1
            matches Some(d) ==> d.valid()) by {
            assert(entries.drop_first()[i] == entries[i + 1]);
        }
        lemma_lookup_valid(entries.drop_first(), key);
    }
}

pub proof fn lemma_entries_valid_insert_front(
    entries: Seq<(u64, Option<Decimal>)>,
    key: u64,
    value: Option<Decimal>,
)
    requires
        entries_valid(entries),
        value matches Some(d) ==> d.valid(),
    ensures
        entries_valid(entries.insert(0, (key, value))),
{
    let s2 = entries.insert(0, (key, value));
    assert forall|i: int|
        0 <= i < s2.len() implies ((#[trigger] s2[i]).1 matches Some(d) ==> d.valid()) by {
        if i == 0 {
            assert(s2[0] == (key, value));
        } else {
            assert(s2[i] == entries[i - 1]);
        }
    }
}

impl OverrideMap {
    pub fn empty() -> (r: OverrideMap)
        ensures
            r.entries@.len() == 0,
    {
        OverrideMap { entries: Vec::new() }
    }

    pub fn get(&self, key: u64) -> (r: Option<Decimal>)
        ensures
            r == spec_lookup(self.entries@, key),
    {
        let n: usize = self.entries.len();
        let mut i: usize = 0;
        proof {
            assert(self.entries@.skip(0) =~= self.entries@);
        }
        while i < n
            invariant
                i <= n,
                n == self.entries@.len(),
                spec_lookup(self.entries@, key) == spec_lookup(
                    self.entries@.skip(i as int),
                    key,
                ),
            decreases n - i,
        {
            let e: (u64, Option<Decimal>) = self.entries[i];
            proof {
                assert(self.entries@.skip(i as int)[0] == self.entries@[i as int]);
            }
            if e.0 == key {
                return e.1;
            }
            proof {
                assert(self.entries@.skip(i as int).drop_first() =~= self.entries@.skip(
                    i as int + 1,
                ));
            }
            i = i + 1;
        }
        None
    }

    pub fn set(&mut self, key: u64, value: Option<Decimal>)
        ensures
            final(self).entries@ == old(self).entries@.insert(0, (key, value)),
    {
        self.entries.insert(0, (key, value));
    }
}

/// The price source's whole state.
pub struct Vamm {
    /// The id the next created pricing context receives, if any can be.
    pub next_vamm_id: Option<u64>,
    /// Default execution price.
    pub price: Option<Decimal>,
    /// Per-context execution prices, overriding the default.
    pub prices: OverrideMap,
    /// Per-context factors applied to the price after each swap.
    pub price_impacts: OverrideMap,
    /// Fraction of every swap output lost to slippage.
    pub slippage: Option<Decimal>,
    /// Default time-weighted average price.
    pub twap: Option<Decimal>,
    /// Per-context time-weighted average prices.
    pub twaps: OverrideMap,
}

/// The output amount of `amount` of one asset side valued at `price`:
/// base is multiplied by the price, quote divided by it.  Conversions
/// that leave the signed range, negative values and zero prices are
/// rejected.
pub open spec fn spec_get_value(amount: u128, asset: AssetType, price: Decimal) -> Result<
    u128,
    Error,
> {
    if amount > i128::MAX {
        Err(Error::ArithmeticOverflow)
    } else {
        match asset {
            AssetType::Base => {
                let v = scaled_mul(price.inner as int, amount as int);
                if v > i128::MAX || v < 0 {
                    Err(Error::ArithmeticOverflow)
                } else {
                    Ok(v as u128)
                }
            },
            AssetType::Quote => {
                if price.inner == 0 {
                    Err(Error::DivisionByZero)
                } else {
                    let v = scaled_div(amount as int, price.inner as int);
                    if v > i128::MAX || v < 0 {
                        Err(Error::ArithmeticOverflow)
                    } else {
                        Ok(v as u128)
                    }
                }
            },
        }
    }
}

/// The value a swap returns, before any price impact is written back:
/// the priced output, less slippage, checked against the caller's limit.
pub open spec fn spec_swap_value(v: Vamm, config: SwapConfig) -> Result<u128, Error> {
    match v.spec_price_of(config.vamm_id) {
        None => Err(Error::FailedToExecuteSwap),
        Some(price) => match spec_get_value(config.input_amount, config.asset, price) {
            Err(e) => Err(e),
            Ok(out) => match v.slippage {
                None => if out < config.output_amount_limit {
                    Err(Error::FailedToExecuteSwap)
                } else {
                    Ok(out)
                },
                Some(sl) => {
                    if mag(sl.inner as int) * out / (SCALE as int) > i128::MAX {
                        Err(Error::ArithmeticOverflow)
                    } else {
                        let red = scaled_mul(sl.inner as int, out as int);
                        if red < 0 || red > out {
                            Err(Error::ArithmeticOverflow)
                        } else {
                            if out - red < config.output_amount_limit {
                                Err(Error::FailedToExecuteSwap)
                            } else {
                                Ok((out - red) as u128)
                            }
                        }
                    }
                },
            },
        },
    }
}

/// The price override a swap on `vamm_id` writes back, if an impact
/// factor is configured.
pub open spec fn spec_impact_price(v: Vamm, vamm_id: u64) -> Result<Option<Decimal>, Error> {
    match spec_lookup(v.price_impacts.entries@, vamm_id) {
        None => Ok(None),
        Some(factor) => match v.spec_price_of(vamm_id) {
            None => Ok(None),
            Some(price) => {
                if mag(price.inner as int) * mag(factor.inner as int) / (SCALE as int)
                    > i128::MAX {
                    Err(Error::ArithmeticOverflow)
                } else {
                    Ok(Some(Decimal { inner: scaled_mul(price.inner as int, factor.inner as int) as i128 }))
                }
            },
        },
    }
}

/// How a successful swap changes the price source: only the price
/// override for the swapped context moves, and only under a configured
/// impact factor.
pub open spec fn swap_commit_ok(pre: Vamm, post: Vamm, vamm_id: u64) -> bool {
    &&& post.next_vamm_id == pre.next_vamm_id
    &&& post.price == pre.price
    &&& post.slippage == pre.slippage
    &&& post.twap == pre.twap
    &&& post.twaps == pre.twaps
    &&& post.price_impacts == pre.price_impacts
    &&& match spec_impact_price(pre, vamm_id) {
        Ok(opt) => match opt {
            Some(p2) => post.prices.entries@ == pre.prices.entries@.insert(
                0,
                (vamm_id, Some(p2)),
            ),
            None => post.prices == pre.prices,
        },
        Err(_) => false,
    }
}

impl Vamm {
    /// All stored decimals lie in the symmetric signed range.
    pub open spec fn wf(self) -> bool {
        &&& (self.price matches Some(p) ==> p.valid())
        &&& (self.slippage matches Some(s) ==> s.valid())
        &&& (self.twap matches Some(t) ==> t.valid())
        &&& entries_valid(self.prices.entries@)
        &&& entries_valid(self.price_impacts.entries@)
        &&& entries_valid(self.twaps.entries@)
    }

    /// The execution price for a context: its override, else the default.
    pub open spec fn spec_price_of(self, vamm_id: u64) -> Option<Decimal> {
        match spec_lookup(self.prices.entries@, vamm_id) {
            Some(p) => Some(p),
            None => self.price,
        }
    }

    /// The average price for a context: its override, else the default.
    pub open spec fn spec_twap_of(self, vamm_id: u64) -> Option<Decimal> {
        match spec_lookup(self.twaps.entries@, vamm_id) {
            Some(t) => Some(t),
            None => self.twap,
        }
    }

    pub fn new(next_vamm_id: Option<u64>, twap: Option<Decimal>) -> (r: Vamm)
        requires
            twap matches Some(t) ==> t.valid(),
        ensures
            r.next_vamm_id == next_vamm_id,
            r.twap == twap,
            r.price is None,
            r.slippage is None,
            r.prices.entries@.len() == 0,
            r.price_impacts.entries@.len() == 0,
            r.twaps.entries@.len() == 0,
            r.wf(),
    {
        Vamm {
            next_vamm_id,
            price: None,
            prices: OverrideMap::empty(),
            price_impacts: OverrideMap::empty(),
            slippage: None,
            twap,
            twaps: OverrideMap::empty(),
        }
    }

    /// Hands out the next pricing-context id.
    pub fn create(&mut self, _config: &VammConfig) -> (r: Result<u64, Error>)
        requires
            old(self).wf(),
        ensures
            final(self).wf(),
            match r {
                Ok(id) => old(self).next_vamm_id == Some(id) && id < u64::MAX && *final(self)
                    == (Vamm { next_vamm_id: Some((id + 1) as u64), ..*old(self) }),
                Err(e) => e == Error::FailedToCreateVamm && *final(self) == *old(self) && (old(
                    self,
                ).next_vamm_id is None || old(self).next_vamm_id == Some(u64::MAX)),
            },
    {
        match self.next_vamm_id {
            Some(id) => {
                if id == u64::MAX {
                    Err(Error::FailedToCreateVamm)
                } else {
                    self.next_vamm_id = Some(id + 1);
                    Ok(id)
                }
            },
            None => Err(Error::FailedToCreateVamm),
        }
    }

    pub fn get_price(&self, vamm_id: u64, _asset_type: AssetType) -> (r: Result<Decimal, Error>)
        requires
            self.wf(),
        ensures
            r == match self.spec_price_of(vamm_id) {
                Some(p) => Ok::<Decimal, Error>(p),
                None => Err::<Decimal, Error>(Error::FailedToCalculatePrice),
            },
            r matches Ok(p) ==> p.valid(),
    {
        proof {
            lemma_lookup_valid(self.prices.entries@, vamm_id);
        }
        match self.prices.get(vamm_id) {
            Some(p) => Ok(p),
            None => match self.price {
                Some(p) => Ok(p),
                None => Err(Error::FailedToCalculatePrice),
            },
        }
    }

    pub fn get_twap(&self, vamm_id: u64, _asset_type: AssetType) -> (r: Result<Decimal, Error>)
        requires
            self.wf(),
        ensures
            r == match self.spec_twap_of(vamm_id) {
                Some(t) => Ok::<Decimal, Error>(t),
                None => Err::<Decimal, Error>(Error::FailedToCalculateTwap),
            },
            r matches Ok(t) ==> t.valid(),
    {
        proof {
            lemma_lookup_valid(self.twaps.entries@, vamm_id);
        }
        match self.twaps.get(vamm_id) {
            Some(t) => Ok(t),
            None => match self.twap {
                Some(t) => Ok(t),
                None => Err(Error::FailedToCalculateTwap),
            },
        }
    }

    /// Values `amount` of one asset side at `price`.
    pub fn get_value(amount: u128, asset_type: AssetType, price: Decimal) -> (r: Result<
        u128,
        Error,
    >)
        requires
            price.valid(),
        ensures
            r == spec_get_value(amount, asset_type, price),
            r matches Ok(b) ==> b <= i128::MAX,
    {
        let amount_dec: Decimal = match Decimal::try_from_balance(amount) {
            Ok(d) => d,
            Err(e) => {
                return Err(e);
            },
        };
        match asset_type {
            AssetType::Base => {
                match price.try_mul(amount_dec) {
                    Err(e) => Err(e),
                    Ok(v) => {
                        if v.is_negative() {
                            Err(Error::ArithmeticOverflow)
                        } else {
                            Ok(v.into_inner() as u128)
                        }
                    },
                }
            },
            AssetType::Quote => {
                match amount_dec.try_div(price) {
                    Err(e) => Err(e),
                    Ok(v) => {
                        if v.is_negative() {
                            Err(Error::ArithmeticOverflow)
                        } else {
                            Ok(v.into_inner() as u128)
                        }
                    },
                }
            },
        }
    }

    /// Prices a swap without touching any state.
    pub fn swap_value(&self, config: &SwapConfig) -> (r: Result<u128, Error>)
        requires
            self.wf(),
        ensures
            r == spec_swap_value(*self, *config),
            r matches Ok(b) ==> b <= i128::MAX,
    {
        proof {
            lemma_lookup_valid(self.prices.entries@, config.vamm_id);
        }
        let price: Decimal = match self.prices.get(config.vamm_id) {
            Some(p) => p,
            None => match self.price {
                Some(p) => p,
                None => {
                    return Err(Error::FailedToExecuteSwap);
                },
            },
        };
        let out: u128 = match Self::get_value(config.input_amount, config.asset, price) {
            Ok(o) => o,
            Err(e) => {
                return Err(e);
            },
        };
        let out2: u128 = match self.slippage {
            None => out,
            Some(sl) => {
                let out_dec: Decimal = Decimal::from_inner(out as i128);
                let red: Decimal = match sl.try_mul(out_dec) {
                    Ok(d) => d,
                    Err(e) => {
                        return Err(e);
                    },
                };
                if red.is_negative() {
                    return Err(Error::ArithmeticOverflow);
                }
                let red_u: u128 = red.into_inner() as u128;
                if red_u > out {
                    return Err(Error::ArithmeticOverflow);
                }
                out - red_u
            },
        };
        if out2 < config.output_amount_limit {
            return Err(Error::FailedToExecuteSwap);
        }
        Ok(out2)
    }

    /// The price override a swap on this context would write back.
    pub fn impact_price(&self, vamm_id: u64) -> (r: Result<Option<Decimal>, Error>)
        requires
            self.wf(),
        ensures
            r == spec_impact_price(*self, vamm_id),
            match r {
                Ok(opt) => match opt {
                    Some(p2) => p2.valid(),
                    None => true,
                },
                Err(_) => true,
            },
    {
        proof {
            lemma_lookup_valid(self.price_impacts.entries@, vamm_id);
            lemma_lookup_valid(self.prices.entries@, vamm_id);
        }
        let factor: Decimal = match self.price_impacts.get(vamm_id) {
            Some(f) => f,
            None => {
                return Ok(None);
            },
        };
        let price: Decimal = match self.prices.get(vamm_id) {
            Some(p) => p,
            None => match self.price {
                Some(p) => p,
                None => {
                    return Ok(None);
                },
            },
        };
        match price.try_mul(factor) {
            Ok(p2) => Ok(Some(p2)),
            Err(e) => Err(e),
        }
    }

    /// Executes a swap: prices it, then applies any configured price
    /// impact to the context's stored price.
    pub fn swap(&mut self, config: &SwapConfig) -> (r: Result<SwapOutput, Error>)
        requires
            old(self).wf(),
        ensures
            final(self).wf(),
            (r is Ok) == (spec_swap_value(*old(self), *config) is Ok && spec_impact_price(
                *old(self),
                config.vamm_id,
            ) is Ok),
            match r {
                Ok(o) => {
                    &&& spec_swap_value(*old(self), *config) == Ok::<u128, Error>(o.output)
                    &&& o.negative == (config.direction == Direction::Short)
                    &&& swap_commit_ok(*old(self), *final(self), config.vamm_id)
                },
                Err(e) => *final(self) == *old(self) && match spec_swap_value(*old(self), *config) {
                    Err(e1) => e == e1,
                    Ok(_) => spec_impact_price(*old(self), config.vamm_id) == Err::<
                        Option<Decimal>,
                        Error,
                    >(e),
                },
            },
    {
        let out: u128 = match self.swap_value(config) {
            Ok(o) => o,
            Err(e) => {
                return Err(e);
            },
        };
        let impact: Option<Decimal> = match self.impact_price(config.vamm_id) {
            Ok(x) => x,
            Err(e) => {
                return Err(e);
            },
        };
        match impact {
            Some(p2) => {
                self.prices.set(config.vamm_id, Some(p2));
                proof {
                    lemma_entries_valid_insert_front(
                        old(self).prices.entries@,
                        config.vamm_id,
                        Some(p2),
                    );
                }
            },
            None => {},
        }
        let negative: bool = match config.direction {
            Direction::Long => false,
            Direction::Short => true,
        };
        Ok(SwapOutput { output: out, negative })
    }

    /// Prices a swap with no output limit; failures are reported as a
    /// failed simulation.  Like a real swap, it applies price impact.
    pub fn swap_simulation(&mut self, config: &SwapSimulationConfig) -> (r: Result<u128, Error>)
        requires
            old(self).wf(),
        ensures
            final(self).wf(),
            ({
                let full = SwapConfig {
                    vamm_id: config.vamm_id,
                    asset: config.asset,
                    input_amount: config.input_amount,
                    direction: config.direction,
                    output_amount_limit: 0,
                };
                match r {
                    Ok(b) => {
                        &&& spec_swap_value(*old(self), full) == Ok::<u128, Error>(b)
                        &&& spec_impact_price(*old(self), config.vamm_id) is Ok
                        &&& swap_commit_ok(*old(self), *final(self), config.vamm_id)
                    },
                    Err(e) => {
                        &&& e == Error::FailedToSimulateSwap
                        &&& *final(self) == *old(self)
                        &&& (spec_swap_value(*old(self), full) is Err || spec_impact_price(
                            *old(self),
                            config.vamm_id,
                        ) is Err)
                    },
                }
            }),
    {
        let full = SwapConfig {
            vamm_id: config.vamm_id,
            asset: config.asset,
            input_amount: config.input_amount,
            direction: config.direction,
            output_amount_limit: 0,
        };
        match self.swap(&full) {
            Ok(o) => Ok(o.output),
            Err(_) => Err(Error::FailedToSimulateSwap),
        }
    }

    pub fn set_price(&mut self, price: Option<Decimal>)
        requires
            old(self).wf(),
            price matches Some(p) ==> p.valid(),
        ensures
            final(self).wf(),
            *final(self) == (Vamm { price, ..*old(self) }),
    {
        self.price = price;
    }

    pub fn set_slippage(&mut self, slippage: Option<Decimal>)
        requires
            old(self).wf(),
            slippage matches Some(s) ==> s.valid(),
        ensures
            final(self).wf(),
            *final(self) == (Vamm { slippage, ..*old(self) }),
    {
        self.slippage = slippage;
    }

    pub fn set_twap(&mut self, twap: Option<Decimal>)
        requires
            old(self).wf(),
            twap matches Some(t) ==> t.valid(),
        ensures
            final(self).wf(),
            *final(self) == (Vamm { twap, ..*old(self) }),
    {
        self.twap = twap;
    }

    pub fn set_price_of(&mut self, vamm_id: u64, price: Option<Decimal>)
        requires
            old(self).wf(),
            price matches Some(p) ==> p.valid(),
        ensures
            final(self).wf(),
            final(self).prices.entries@ == old(self).prices.entries@.insert(0, (vamm_id, price)),
            final(self).next_vamm_id == old(self).next_vamm_id,
            final(self).price == old(self).price,
            final(self).slippage == old(self).slippage,
            final(self).twap == old(self).twap,
            final(self).twaps == old(self).twaps,
            final(self).price_impacts == old(self).price_impacts,
    {
        proof {
            lemma_entries_valid_insert_front(self.prices.entries@, vamm_id, price);
        }
        self.prices.set(vamm_id, price);
    }

    pub fn set_twap_of(&mut self, vamm_id: u64, twap: Option<Decimal>)
        requires
            old(self).wf(),
            twap matches Some(t) ==> t.valid(),
        ensures
            final(self).wf(),
            final(self).twaps.entries@ == old(self).twaps.entries@.insert(0, (vamm_id, twap)),
            final(self).next_vamm_id == old(self).next_vamm_id,
            final(self).price == old(self).price,
            final(self).slippage == old(self).slippage,
            final(self).twap == old(self).twap,
            final(self).prices == old(self).prices,
            final(self).price_impacts == old(self).price_impacts,
    {
        proof {
            lemma_entries_valid_insert_front(self.twaps.entries@, vamm_id, twap);
        }
        self.twaps.set(vamm_id, twap);
    }

    pub fn set_price_impact_of(&mut self, vamm_id: u64, factor: Option<Decimal>)
        requires
            old(self).wf(),
            factor matches Some(f) ==> f.valid(),
        ensures
            final(self).wf(),
            final(self).price_impacts.entries@ == old(self).price_impacts.entries@.insert(
                0,
                (vamm_id, factor),
            ),
            final(self).next_vamm_id == old(self).next_vamm_id,
            final(self).price == old(self).price,
            final(self).slippage == old(self).slippage,
            final(self).twap == old(self).twap,
            final(self).prices == old(self).prices,
            final(self).twaps == old(self).twaps,
    {
        proof {
            lemma_entries_valid_insert_front(self.price_impacts.entries@, vamm_id, factor);
        }
        self.price_impacts.set(vamm_id, factor);
    }
}

} // verus!
