//! Market configuration and its validation.
//!
//! A market couples an underlying asset with a pricing context, leverage
//! limits, a minimum trade size and a funding schedule.  Creation is
//! validated in a fixed order, failing fast on the first violation, so
//! the outcome is a function of the configuration alone.

use vstd::prelude::*;
use crate::Error;
use crate::fixed::{Decimal, SCALE};
use crate::vamm::VammConfig;

verus! {

/// What a caller supplies to create a market.
#[derive(Clone, Copy, Debug, PartialEq, Eq, Structural)]
pub struct MarketConfig {
    /// Identifier of the underlying traded asset.
    pub asset: u64,
    /// Parameters handed to the price source at creation time.
    pub vamm_config: VammConfig,
    /// Minimum collateral-to-notional fraction to open or increase
    /// exposure, strictly between zero and one.
    pub margin_ratio_initial: Decimal,
    /// Fraction below which a position becomes liquidatable, strictly
    /// between zero and the initial ratio.
    pub margin_ratio_maintenance: Decimal,
    /// Trades of smaller magnitude are rejected unless they fully close
    /// a position; never negative.
    pub minimum_trade_size: Decimal,
    /// Seconds between funding-rate updates; positive.
    pub funding_frequency: u64,
    /// Seconds over which funding is paid; a positive multiple of the
    /// frequency.
    pub funding_period: u64,
}

/// A stored market.
#[derive(Clone, Copy, Debug, PartialEq, Eq, Structural)]
pub struct Market {
    pub asset_id: u64,
    pub vamm_id: u64,
    pub margin_ratio_initial: Decimal,
    pub margin_ratio_maintenance: Decimal,
    pub minimum_trade_size: Decimal,
    pub funding_frequency: u64,
    pub funding_period: u64,
    /// Time of the last funding update, the creation time at genesis.
    pub funding_rate_ts: u64,
}

/// The shape every stored market has: exactly what validation admits.
pub open spec fn market_wf(m: Market) -> bool {
    &&& 0 < m.margin_ratio_initial.inner < SCALE
    &&& 0 < m.margin_ratio_maintenance.inner < SCALE
    &&& m.margin_ratio_maintenance.inner < m.margin_ratio_initial.inner
    &&& m.minimum_trade_size.inner >= 0
    &&& m.funding_frequency > 0
    &&& m.funding_period > 0
    &&& m.funding_period % m.funding_frequency == 0
}

/// The first violated creation rule, if any, in validation order.
pub open spec fn config_validation_error(asset_supported: bool, c: MarketConfig) -> Option<
    Error,
> {
    if !asset_supported {
        Some(Error::NoPriceFeedForAsset)
    } else if c.funding_frequency == 0 || c.funding_period == 0 {
        Some(Error::ZeroLengthFundingPeriodOrFrequency)
    } else if c.funding_period % c.funding_frequency != 0 {
        Some(Error::FundingPeriodNotMultipleOfFrequency)
    } else if !(0 < c.margin_ratio_initial.inner < SCALE) || !(0 < c.margin_ratio_maintenance.inner
        < SCALE) {
        Some(Error::InvalidMarginRatioRequirement)
    } else if c.margin_ratio_initial.inner <= c.margin_ratio_maintenance.inner {
        Some(Error::InitialMarginRatioLessThanMaintenance)
    } else if c.minimum_trade_size.inner < 0 {
        Some(Error::NegativeMinimumTradeSize)
    } else {
        None
    }
}

/// Checks a configuration against every creation rule.
pub fn validate_config(asset_supported: bool, config: &MarketConfig) -> (r: Result<(), Error>)
    ensures
        r == match config_validation_error(asset_supported, *config) {
            Some(e) => Err::<(), Error>(e),
            None => Ok::<(), Error>(()),
        },
{
    if !asset_supported {
        return Err(Error::NoPriceFeedForAsset);
    }
    if config.funding_frequency == 0 || config.funding_period == 0 {
        return Err(Error::ZeroLengthFundingPeriodOrFrequency);
    }
    if config.funding_period % config.funding_frequency != 0 {
        return Err(Error::FundingPeriodNotMultipleOfFrequency);
    }
    let mri: i128 = config.margin_ratio_initial.into_inner();
    let mrm: i128 = config.margin_ratio_maintenance.into_inner();
    if !(0 < mri && mri < SCALE as i128) || !(0 < mrm && mrm < SCALE as i128) {
        return Err(Error::InvalidMarginRatioRequirement);
    }
    if mri <= mrm {
        return Err(Error::InitialMarginRatioLessThanMaintenance);
    }
    if config.minimum_trade_size.into_inner() < 0 {
        return Err(Error::NegativeMinimumTradeSize);
    }
    Ok(())
}

/// Validation is total and its outcome depends on the configuration and
/// asset support alone: each rejection is characterized exactly, and a
/// configuration that no rule rejects yields a well-formed market under
/// any creation time and pricing context.
pub proof fn lemma_validation_characterized(asset_supported: bool, c: MarketConfig)
    ensures
        config_validation_error(asset_supported, c) == Some(Error::NoPriceFeedForAsset)
            <==> !asset_supported,
        config_validation_error(asset_supported, c) == Some(
            Error::ZeroLengthFundingPeriodOrFrequency,
        ) <==> asset_supported && (c.funding_frequency == 0 || c.funding_period == 0),
        config_validation_error(asset_supported, c) == Some(
            Error::FundingPeriodNotMultipleOfFrequency,
        ) <==> asset_supported && c.funding_frequency > 0 && c.funding_period > 0
            && c.funding_period % c.funding_frequency != 0,
        config_validation_error(asset_supported, c) == Some(Error::InvalidMarginRatioRequirement)
            <==> asset_supported && c.funding_frequency > 0 && c.funding_period > 0
            && c.funding_period % c.funding_frequency == 0 && !(0 < c.margin_ratio_initial.inner
            < SCALE && 0 < c.margin_ratio_maintenance.inner < SCALE),
        config_validation_error(asset_supported, c) == Some(
            Error::InitialMarginRatioLessThanMaintenance,
        ) <==> asset_supported && c.funding_frequency > 0 && c.funding_period > 0
            && c.funding_period % c.funding_frequency == 0 && 0 < c.margin_ratio_initial.inner
            < SCALE && 0 < c.margin_ratio_maintenance.inner < SCALE
            && c.margin_ratio_initial.inner <= c.margin_ratio_maintenance.inner,
        config_validation_error(asset_supported, c) == Some(Error::NegativeMinimumTradeSize)
            <==> asset_supported && c.funding_frequency > 0 && c.funding_period > 0
            && c.funding_period % c.funding_frequency == 0 && 0 < c.margin_ratio_initial.inner
            < SCALE && 0 < c.margin_ratio_maintenance.inner < SCALE
            && c.margin_ratio_maintenance.inner < c.margin_ratio_initial.inner
            && c.minimum_trade_size.inner < 0,
        config_validation_error(asset_supported, c) is None ==> market_wf(
            Market {
                asset_id: c.asset,
                vamm_id: 0,
                margin_ratio_initial: c.margin_ratio_initial,
                margin_ratio_maintenance: c.margin_ratio_maintenance,
                minimum_trade_size: c.minimum_trade_size,
                funding_frequency: c.funding_frequency,
                funding_period: c.funding_period,
                funding_rate_ts: 0,
            },
        ),
{
}

} // verus!
