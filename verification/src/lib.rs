//! A margin-accounting and position-lifecycle engine for leveraged
//! perpetual-futures trading.
//!
//! The library maintains, for a set of independently configured markets,
//! each trader's open positions, margin balance and realized profit and
//! loss, enforcing leverage limits and minimum trade sizes on every state
//! transition.  Prices come from a deterministic price source that can be
//! configured per market, mirroring the injection of a pricing adapter.

pub mod fixed;
pub mod tolerance;
pub mod vamm;
pub mod market;
pub mod position;
pub mod margin;
pub mod house;

use vstd::prelude::*;

verus! {

/// Every way an operation of the engine can be rejected.  Errors are
/// ordinary return values: no operation has side effects when it fails.
#[derive(Clone, Copy, Debug, PartialEq, Eq, Structural)]
pub enum Error {
    /// The underlying asset has no supported price feed.
    NoPriceFeedForAsset,
    /// A funding frequency or funding period of zero seconds.
    ZeroLengthFundingPeriodOrFrequency,
    /// The funding period is not an exact multiple of the funding frequency.
    FundingPeriodNotMultipleOfFrequency,
    /// A margin ratio outside the open interval (0, 1).
    InvalidMarginRatioRequirement,
    /// The initial margin ratio does not exceed the maintenance ratio.
    InitialMarginRatioLessThanMaintenance,
    /// A negative minimum trade size.
    NegativeMinimumTradeSize,
    /// The price source could not instantiate a pricing context.
    FailedToCreateVamm,
    /// The price source holds no price for the requested market.
    FailedToCalculatePrice,
    /// The price source holds no time-weighted average price.
    FailedToCalculateTwap,
    /// The price source could not price or fill the requested swap.
    FailedToExecuteSwap,
    /// A simulated swap could not be priced.
    FailedToSimulateSwap,
    /// A trade referenced a market id that was never created.
    MarketIdNotFound,
    /// Opening one more position would exceed the per-account bound.
    MaxPositionsExceeded,
    /// Trade magnitude below the market's floor and not a full close.
    TradeSizeTooSmall,
    /// The post-trade margin requirement exceeds the account's balance.
    InsufficientCollateral,
    /// A fixed-point computation left the representable range.
    ArithmeticOverflow,
    /// A division by a zero price or quantity.
    DivisionByZero,
}

/// The side of a trade: buy the base asset (long) or sell it (short).
#[derive(Clone, Copy, Debug, PartialEq, Eq, Structural)]
pub enum Direction {
    Long,
    Short,
}

/// Which leg of a market's pair a price-source query refers to.
#[derive(Clone, Copy, Debug, PartialEq, Eq, Structural)]
pub enum AssetType {
    Base,
    Quote,
}

/// Notifications emitted on the success of the two public operations.
#[derive(Clone, Copy, Debug, PartialEq, Eq, Structural)]
pub enum Event {
    MarketCreated { market: u64, asset: u64 },
    TradeExecuted { market: u64, direction: Direction, quote: u128, base: u128 },
}

} // verus!
