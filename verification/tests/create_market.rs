use clearing_house::fixed::Decimal;
use clearing_house::house::ClearingHouse;
use clearing_house::market::MarketConfig;
use clearing_house::vamm::VammConfig;
use clearing_house::{Error, Event};

const UNIT: u128 = 1_000_000_000_000_000_000;
const ALICE: u64 = 0;
const DOT: u64 = 101;

fn valid_market_config() -> MarketConfig {
    MarketConfig {
        asset: DOT,
        vamm_config: VammConfig {},
        // 10x max leverage to open a position
        margin_ratio_initial: Decimal::from_inner((UNIT / 10) as i128),
        // liquidate when above 50x leverage
        margin_ratio_maintenance: Decimal::from_inner((UNIT / 50) as i128),
        // one cent of the quote asset
        minimum_trade_size: Decimal::from_inner((UNIT / 100) as i128),
        funding_frequency: 3600,
        funding_period: 3600 * 24,
    }
}

fn default_house() -> ClearingHouse {
    ClearingHouse::new(true, Some(0), Some(Decimal::zero()), 5, 0)
}

#[test]
fn create_first_market_succeeds() {
    let mut ch = default_house();
    ch.set_time(60);
    let old_count = ch.market_count();
    let block_time_now = 60;

    let config = valid_market_config();
    let id = ch.create_market(&config).unwrap();

    // The first market id is zero.
    assert_eq!(id, 0);
    assert_eq!(
        ch.last_event(),
        Some(Event::MarketCreated { market: 0, asset: config.asset })
    );
    assert!(ch.get_market(0).is_some());

    // The market count is increased by one.
    assert_eq!(ch.market_count(), old_count + 1);

    // The new market matches the creation parameters.
    let market = ch.get_market(0).unwrap();
    assert_eq!(market.asset_id, config.asset);
    assert_eq!(market.margin_ratio_initial, config.margin_ratio_initial);
    assert_eq!(market.margin_ratio_maintenance, config.margin_ratio_maintenance);
    assert_eq!(market.funding_frequency, config.funding_frequency);
    assert_eq!(market.funding_period, config.funding_period);

    // The funding timestamp is the current block time.
    assert_eq!(market.funding_rate_ts, block_time_now);
}

#[test]
fn can_create_two_markets_with_same_config() {
    let mut ch = default_house();
    ch.set_time(12);
    let mut count = ch.market_count();
    let block_time_now = 12;

    for _ in 0..2 {
        assert!(ch.create_market(&valid_market_config()).is_ok());
        assert_eq!(ch.get_market(count).unwrap().funding_rate_ts, block_time_now);
        count += 1;
    }
}

#[test]
fn fails_to_create_market_for_unsupported_asset_by_oracle() {
    let mut ch = ClearingHouse::new(false, Some(0), Some(Decimal::zero()), 5, 0);
    assert_eq!(
        ch.create_market(&valid_market_config()),
        Err(Error::NoPriceFeedForAsset)
    );
    assert_eq!(ch.market_count(), 0);
}

#[test]
fn fails_to_create_market_if_fails_to_create_vamm() {
    let mut ch = ClearingHouse::new(true, None, Some(Decimal::zero()), 5, 0);
    assert_eq!(
        ch.create_market(&valid_market_config()),
        Err(Error::FailedToCreateVamm)
    );
    assert_eq!(ch.market_count(), 0);
}

#[test]
fn can_create_market_with_zero_minimum_trade_size() {
    let mut ch = default_house();
    let mut config = valid_market_config();
    config.minimum_trade_size = Decimal::zero();
    assert!(ch.create_market(&config).is_ok());
}

#[test]
fn fails_to_create_market_if_funding_period_is_not_multiple_of_frequency() {
    let mut ch = default_house();
    let mut config = valid_market_config();
    config.funding_frequency = 3600;
    config.funding_period = 3600 * 2 + 17;
    assert_eq!(
        ch.create_market(&config),
        Err(Error::FundingPeriodNotMultipleOfFrequency)
    );
    assert_eq!(ch.market_count(), 0);
}

#[test]
fn fails_to_create_market_if_either_funding_period_or_frequency_are_zero() {
    for (period, frequency) in [(0u64, 3600u64), (86400, 0), (0, 0)] {
        let mut ch = default_house();
        let mut config = valid_market_config();
        config.funding_frequency = frequency;
        config.funding_period = period;
        assert_eq!(
            ch.create_market(&config),
            Err(Error::ZeroLengthFundingPeriodOrFrequency)
        );
        assert_eq!(ch.market_count(), 0);
    }
}

#[test]
fn fails_to_create_market_if_margin_ratios_not_between_zero_and_one() {
    let invalid = [
        0i128,
        -(UNIT as i128) / 10,
        UNIT as i128,
        2 * UNIT as i128,
    ];
    for inner in invalid {
        let mut ch = default_house();
        let mut config = valid_market_config();
        config.margin_ratio_initial = Decimal::from_inner(inner);
        assert_eq!(
            ch.create_market(&config),
            Err(Error::InvalidMarginRatioRequirement)
        );

        let mut ch = default_house();
        let mut config = valid_market_config();
        config.margin_ratio_maintenance = Decimal::from_inner(inner);
        assert_eq!(
            ch.create_market(&config),
            Err(Error::InvalidMarginRatioRequirement)
        );
    }
}

#[test]
fn fails_to_create_market_if_initial_margin_ratio_le_maintenance() {
    let mut ch = default_house();
    let mut config = valid_market_config();
    config.margin_ratio_initial = Decimal::from_inner((UNIT / 50) as i128);
    config.margin_ratio_maintenance = Decimal::from_inner((UNIT / 10) as i128);
    assert_eq!(
        ch.create_market(&config),
        Err(Error::InitialMarginRatioLessThanMaintenance)
    );

    // Equal ratios are rejected as well.
    let mut config = valid_market_config();
    config.margin_ratio_maintenance = config.margin_ratio_initial;
    assert_eq!(
        ch.create_market(&config),
        Err(Error::InitialMarginRatioLessThanMaintenance)
    );
}

#[test]
fn fails_to_create_market_if_minimum_trade_size_is_negative() {
    let mut ch = default_house();
    let mut config = valid_market_config();
    config.minimum_trade_size = Decimal::from_inner(-1_000_000_000);
    assert_eq!(
        ch.create_market(&config),
        Err(Error::NegativeMinimumTradeSize)
    );
    assert_eq!(ch.market_count(), 0);
}

#[test]
fn market_ids_are_assigned_sequentially() {
    let mut ch = default_house();
    for expected in 0..5u64 {
        let id = ch.create_market(&valid_market_config()).unwrap();
        assert_eq!(id, expected);
    }
    assert_eq!(ch.market_count(), 5);
    // A failed creation in between does not burn an id.
    let mut bad = valid_market_config();
    bad.funding_frequency = 0;
    assert!(ch.create_market(&bad).is_err());
    assert_eq!(ch.create_market(&valid_market_config()).unwrap(), 5);
}

#[test]
fn failed_creation_leaves_no_market_behind() {
    let mut ch = default_house();
    let _ = ch.add_margin(ALICE, 5 * UNIT);
    let mut bad = valid_market_config();
    bad.minimum_trade_size = Decimal::from_inner(-1);
    assert!(ch.create_market(&bad).is_err());
    assert_eq!(ch.market_count(), 0);
    assert!(ch.get_market(0).is_none());
    assert_eq!(ch.last_event(), None);
}
