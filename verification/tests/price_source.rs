use clearing_house::fixed::{Decimal, SCALE};
use clearing_house::vamm::{SwapConfig, SwapSimulationConfig, Vamm, VammConfig};
use clearing_house::{AssetType, Direction, Error};

fn swap_cfg(vamm_id: u64, input: u128, limit: u128, direction: Direction) -> SwapConfig {
    SwapConfig {
        vamm_id,
        asset: AssetType::Quote,
        input_amount: input,
        direction,
        output_amount_limit: limit,
    }
}

#[test]
fn create_hands_out_sequential_ids() {
    let mut vamm = Vamm::new(Some(5), None);
    assert_eq!(vamm.create(&VammConfig {}), Ok(5));
    assert_eq!(vamm.create(&VammConfig {}), Ok(6));
    let mut dead = Vamm::new(None, None);
    assert_eq!(dead.create(&VammConfig {}), Err(Error::FailedToCreateVamm));
}

#[test]
fn get_price_prefers_the_override() {
    let mut vamm = Vamm::new(Some(0), None);
    assert_eq!(
        vamm.get_price(0, AssetType::Base),
        Err(Error::FailedToCalculatePrice)
    );
    vamm.set_price(Some(Decimal::from_units(10)));
    assert_eq!(vamm.get_price(0, AssetType::Base), Ok(Decimal::from_units(10)));
    vamm.set_price_of(0, Some(Decimal::from_units(7)));
    assert_eq!(vamm.get_price(0, AssetType::Base), Ok(Decimal::from_units(7)));
    assert_eq!(vamm.get_price(1, AssetType::Base), Ok(Decimal::from_units(10)));
    // Clearing the override falls back to the default.
    vamm.set_price_of(0, None);
    assert_eq!(vamm.get_price(0, AssetType::Base), Ok(Decimal::from_units(10)));
}

#[test]
fn get_twap_prefers_the_override() {
    let mut vamm = Vamm::new(Some(0), Some(Decimal::from_units(4)));
    assert_eq!(vamm.get_twap(0, AssetType::Base), Ok(Decimal::from_units(4)));
    vamm.set_twap_of(0, Some(Decimal::from_units(6)));
    assert_eq!(vamm.get_twap(0, AssetType::Base), Ok(Decimal::from_units(6)));
    vamm.set_twap(None);
    assert_eq!(
        vamm.get_twap(1, AssetType::Base),
        Err(Error::FailedToCalculateTwap)
    );
}

#[test]
fn get_value_prices_both_asset_sides() {
    let price = Decimal::from_units(10);
    // Base amounts are multiplied by the price.
    assert_eq!(Vamm::get_value(3 * SCALE, AssetType::Base, price), Ok(30 * SCALE));
    // Quote amounts are divided by it.
    assert_eq!(Vamm::get_value(30 * SCALE, AssetType::Quote, price), Ok(3 * SCALE));
    assert_eq!(
        Vamm::get_value(SCALE, AssetType::Quote, Decimal::zero()),
        Err(Error::DivisionByZero)
    );
}

#[test]
fn get_value_handles_prices_beyond_the_scale_split() {
    // 500 quote at price 60000 is one one-hundred-twentieth of a base
    // unit: the division is exact even though the scaled numerator far
    // exceeds the unsigned range.
    assert_eq!(
        Vamm::get_value(500 * SCALE, AssetType::Quote, Decimal::from_units(60_000)),
        Ok(8_333_333_333_333_333)
    );
}

#[test]
fn swap_converts_quote_to_base_at_the_stored_price() {
    let mut vamm = Vamm::new(Some(0), None);
    vamm.set_price(Some(Decimal::from_units(10)));
    let out = vamm.swap(&swap_cfg(0, 100 * SCALE, 10 * SCALE, Direction::Long)).unwrap();
    assert_eq!(out.output, 10 * SCALE);
    assert!(!out.negative);
    let out = vamm.swap(&swap_cfg(0, 100 * SCALE, 10 * SCALE, Direction::Short)).unwrap();
    assert!(out.negative);
}

#[test]
fn swap_fails_when_output_misses_the_limit() {
    let mut vamm = Vamm::new(Some(0), None);
    vamm.set_price(Some(Decimal::from_units(10)));
    assert_eq!(
        vamm.swap(&swap_cfg(0, 100 * SCALE, 10 * SCALE + 1, Direction::Long)),
        Err(Error::FailedToExecuteSwap)
    );
}

#[test]
fn swap_applies_slippage() {
    let mut vamm = Vamm::new(Some(0), None);
    vamm.set_price(Some(Decimal::from_units(10)));
    // One tenth of the output is lost to slippage.
    vamm.set_slippage(Some(Decimal::from_inner((SCALE / 10) as i128)));
    let out = vamm.swap(&swap_cfg(0, 100 * SCALE, 0, Direction::Long)).unwrap();
    assert_eq!(out.output, 9 * SCALE);
}

#[test]
fn swap_applies_price_impact() {
    let mut vamm = Vamm::new(Some(0), None);
    vamm.set_price_of(0, Some(Decimal::from_units(10)));
    // Each swap multiplies the price by nine tenths.
    vamm.set_price_impact_of(0, Some(Decimal::from_inner((9 * SCALE / 10) as i128)));
    let out = vamm.swap(&swap_cfg(0, 90 * SCALE, 0, Direction::Long)).unwrap();
    // The swap itself is filled at the old price.
    assert_eq!(out.output, 9 * SCALE);
    assert_eq!(vamm.get_price(0, AssetType::Base), Ok(Decimal::from_units(9)));
}

#[test]
fn swap_simulation_reports_the_output() {
    let mut vamm = Vamm::new(Some(0), None);
    vamm.set_price(Some(Decimal::from_units(10)));
    let cfg = SwapSimulationConfig {
        vamm_id: 0,
        asset: AssetType::Quote,
        input_amount: 100 * SCALE,
        direction: Direction::Long,
    };
    assert_eq!(vamm.swap_simulation(&cfg), Ok(10 * SCALE));
    vamm.set_price(None);
    assert_eq!(vamm.swap_simulation(&cfg), Err(Error::FailedToSimulateSwap));
}
