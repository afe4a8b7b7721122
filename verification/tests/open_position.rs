use clearing_house::fixed::Decimal;
use clearing_house::house::ClearingHouse;
use clearing_house::market::MarketConfig;
use clearing_house::vamm::VammConfig;
use clearing_house::{Direction, Error, Event};

const UNIT: u128 = 1_000_000_000_000_000_000;
const ALICE: u64 = 0;
const DOT: u64 = 101;

fn bal(x: u128) -> u128 {
    x * UNIT
}

fn valid_market_config() -> MarketConfig {
    MarketConfig {
        asset: DOT,
        vamm_config: VammConfig {},
        margin_ratio_initial: Decimal::from_inner((UNIT / 10) as i128),
        margin_ratio_maintenance: Decimal::from_inner((UNIT / 50) as i128),
        minimum_trade_size: Decimal::from_inner((UNIT / 100) as i128),
        funding_frequency: 3600,
        funding_period: 3600 * 24,
    }
}

fn house_with_market(margin: u128) -> ClearingHouse {
    let mut ch = ClearingHouse::new(true, Some(0), Some(Decimal::zero()), 5, 0);
    ch.create_market(&valid_market_config()).unwrap();
    ch.add_margin(ALICE, margin).unwrap();
    ch
}

fn set_price_rational(ch: &mut ClearingHouse, n: u128, d: u128) {
    let price = Decimal::try_from_rational(n, d).unwrap();
    ch.vamm.set_price(Some(price));
}

fn set_price_units(ch: &mut ClearingHouse, units: u64) {
    ch.vamm.set_price(Some(Decimal::from_units(units)));
}

#[test]
fn fails_to_open_position_if_market_id_invalid() {
    let quote_amount = bal(100);
    let base_amount_limit = bal(10);
    let mut ch = house_with_market(quote_amount);
    // Current price = quote_amount / base_amount_limit
    set_price_rational(&mut ch, quote_amount, base_amount_limit);

    let market_id = 0;
    assert_eq!(
        ch.open_position(
            ALICE,
            market_id + 1,
            Direction::Long,
            quote_amount,
            base_amount_limit,
        ),
        Err(Error::MarketIdNotFound)
    );
}

#[test]
fn fails_to_create_new_position_if_violates_maximum_positions_num() {
    let max_positions: u64 = 5;
    let orders = max_positions + 1;
    let quote_amount_total = bal(100);
    let quote_amount = quote_amount_total / orders as u128;
    let base_amount_limit = bal(10) / orders as u128;

    let mut ch = ClearingHouse::new(true, Some(0), Some(Decimal::zero()), max_positions as usize, 0);
    for _ in 0..orders {
        ch.create_market(&valid_market_config()).unwrap();
    }
    ch.add_margin(ALICE, quote_amount_total).unwrap();
    // Current price = quote_amount / base_amount_limit
    set_price_rational(&mut ch, quote_amount, base_amount_limit);

    for market_id in 0..max_positions {
        assert!(ch
            .open_position(ALICE, market_id, Direction::Long, quote_amount, base_amount_limit)
            .is_ok());
    }

    assert_eq!(
        ch.open_position(
            ALICE,
            max_positions,
            Direction::Long,
            quote_amount,
            base_amount_limit,
        ),
        Err(Error::MaxPositionsExceeded)
    );
}

#[test]
fn open_position_in_new_market_succeeds() {
    for direction in [Direction::Long, Direction::Short] {
        let quote_amount = bal(100);
        let base_amount = bal(10);
        let mut ch = house_with_market(quote_amount);
        set_price_rational(&mut ch, quote_amount, base_amount);

        let positions_before = ch.get_positions(ALICE).len();
        assert_eq!(
            ch.open_position(ALICE, 0, direction, quote_amount, base_amount),
            Ok(base_amount)
        );

        let positions = ch.get_positions(ALICE);
        assert_eq!(positions.len(), positions_before + 1);
        let position = positions.iter().find(|p| p.market_id == 0).unwrap();
        match direction {
            Direction::Long => {
                assert!(position.base_asset_amount.into_inner() > 0);
                assert!(position.quote_asset_notional_amount.into_inner() > 0);
            }
            Direction::Short => {
                assert!(position.base_asset_amount.into_inner() < 0);
                assert!(position.quote_asset_notional_amount.into_inner() < 0);
            }
        }

        assert_eq!(
            ch.last_event(),
            Some(Event::TradeExecuted {
                market: 0,
                direction,
                quote: quote_amount,
                base: base_amount,
            })
        );
    }
}

#[test]
fn fails_to_open_position_if_trade_size_too_small() {
    // Minimum trade size is one hundredth of a unit.
    let quote_amount = UNIT / 10_000;
    let mut ch = house_with_market(bal(100));
    set_price_units(&mut ch, 1);

    assert_eq!(
        ch.open_position(ALICE, 0, Direction::Long, quote_amount, 0),
        Err(Error::TradeSizeTooSmall)
    );
    assert!(ch.get_positions(ALICE).is_empty());
}

#[test]
fn open_and_close_round_trip_restores_margin() {
    // Margin 100; long 100 quote at price 10 gives 10 base; closing at
    // the same price realizes nothing and restores the balance.
    let mut ch = house_with_market(bal(100));
    set_price_units(&mut ch, 10);

    assert_eq!(
        ch.open_position(ALICE, 0, Direction::Long, bal(100), bal(10)),
        Ok(bal(10))
    );
    let positions = ch.get_positions(ALICE);
    assert_eq!(positions.len(), 1);
    assert_eq!(positions[0].base_asset_amount.into_inner(), bal(10) as i128);
    assert_eq!(
        positions[0].quote_asset_notional_amount.into_inner(),
        bal(100) as i128
    );

    assert_eq!(
        ch.open_position(ALICE, 0, Direction::Short, bal(100), bal(10)),
        Ok(bal(10))
    );
    assert!(ch.get_positions(ALICE).is_empty());
    assert_eq!(ch.get_margin(ALICE), Some(bal(100)));
}

#[test]
fn full_close_removes_position_and_realizes_pnl() {
    // Long 100 at price 10, close at price 15: PnL is +50.
    let mut ch = house_with_market(bal(100));
    set_price_units(&mut ch, 10);
    ch.open_position(ALICE, 0, Direction::Long, bal(100), bal(10)).unwrap();

    set_price_units(&mut ch, 15);
    assert_eq!(
        ch.open_position(ALICE, 0, Direction::Short, bal(150), bal(10)),
        Ok(bal(10))
    );
    assert!(ch.get_positions(ALICE).is_empty());
    assert_eq!(ch.get_margin(ALICE), Some(bal(150)));
}

#[test]
fn closing_short_position_with_trade_realizes_pnl() {
    // Short 100 at price 10, close at price 8: PnL is +20.
    let mut ch = house_with_market(bal(100));
    set_price_units(&mut ch, 10);
    ch.open_position(ALICE, 0, Direction::Short, bal(100), bal(10)).unwrap();

    set_price_units(&mut ch, 8);
    assert_eq!(
        ch.open_position(ALICE, 0, Direction::Long, bal(80), bal(10)),
        Ok(bal(10))
    );
    assert!(ch.get_positions(ALICE).is_empty());
    assert_eq!(ch.get_margin(ALICE), Some(bal(120)));
}

#[test]
fn partial_close_scales_position_linearly() {
    // Long 100 at price 10 (10 base); price moves to 20; closing half
    // the base realizes half the entry value against the close value.
    let mut ch = house_with_market(bal(100));
    set_price_units(&mut ch, 10);
    ch.open_position(ALICE, 0, Direction::Long, bal(100), bal(10)).unwrap();

    set_price_units(&mut ch, 20);
    assert_eq!(
        ch.open_position(ALICE, 0, Direction::Short, bal(100), bal(5)),
        Ok(bal(5))
    );

    let positions = ch.get_positions(ALICE);
    assert_eq!(positions.len(), 1);
    // Base and entry value are both cut by exactly one half.
    assert_eq!(positions[0].base_asset_amount.into_inner(), bal(5) as i128);
    assert_eq!(
        positions[0].quote_asset_notional_amount.into_inner(),
        bal(50) as i128
    );
    // Realized: close value 100 minus half the entry value 50.
    assert_eq!(ch.get_margin(ALICE), Some(bal(150)));
}

#[test]
fn reversal_flips_position_sign() {
    // Long 100 at price 10 (10 base); price moves to 12; trading twice
    // the open base short closes the long at 120 (PnL +20) and opens a
    // short of 10 base against the leftover 120 quote.
    let mut ch = house_with_market(bal(100));
    set_price_units(&mut ch, 10);
    ch.open_position(ALICE, 0, Direction::Long, bal(100), bal(10)).unwrap();

    set_price_units(&mut ch, 12);
    assert_eq!(
        ch.open_position(ALICE, 0, Direction::Short, bal(240), bal(20)),
        Ok(bal(20))
    );

    let positions = ch.get_positions(ALICE);
    assert_eq!(positions.len(), 1);
    assert_eq!(positions[0].base_asset_amount.into_inner(), -(bal(10) as i128));
    assert_eq!(
        positions[0].quote_asset_notional_amount.into_inner(),
        -(bal(120) as i128)
    );
    assert_eq!(ch.get_margin(ALICE), Some(bal(120)));
}

#[test]
fn margin_floor_absorbs_excess_losses() {
    // Margin 10 backs a 100-quote long at price 10 (maximum leverage).
    // The price collapses to 1: the 90 loss exceeds the posted margin,
    // which is floored at zero rather than going negative.
    let mut ch = house_with_market(bal(10));
    set_price_units(&mut ch, 10);
    ch.open_position(ALICE, 0, Direction::Long, bal(100), bal(10)).unwrap();

    set_price_units(&mut ch, 1);
    assert_eq!(
        ch.open_position(ALICE, 0, Direction::Short, bal(10), bal(10)),
        Ok(bal(10))
    );
    assert!(ch.get_positions(ALICE).is_empty());
    assert_eq!(ch.get_margin(ALICE), Some(0));
}

#[test]
fn partial_close_of_a_large_position_is_exact() {
    // A 1000-base-unit long, reduced by 400 base units: quantities of
    // this size exercise the wide fixed-point division.
    let mut ch = house_with_market(bal(1_000));
    set_price_units(&mut ch, 10);
    ch.open_position(ALICE, 0, Direction::Long, bal(10_000), bal(1_000)).unwrap();

    assert_eq!(
        ch.open_position(ALICE, 0, Direction::Short, bal(4_000), bal(400)),
        Ok(bal(400))
    );
    let positions = ch.get_positions(ALICE);
    assert_eq!(positions.len(), 1);
    assert_eq!(positions[0].base_asset_amount.into_inner(), bal(600) as i128);
    assert_eq!(
        positions[0].quote_asset_notional_amount.into_inner(),
        bal(6_000) as i128
    );
    // Closing at the entry price realizes nothing.
    assert_eq!(ch.get_margin(ALICE), Some(bal(1_000)));
}

#[test]
fn reversal_of_a_large_position_is_exact() {
    let mut ch = house_with_market(bal(800));
    set_price_units(&mut ch, 10);
    ch.open_position(ALICE, 0, Direction::Long, bal(4_000), bal(400)).unwrap();

    assert_eq!(
        ch.open_position(ALICE, 0, Direction::Short, bal(8_000), bal(800)),
        Ok(bal(800))
    );
    let positions = ch.get_positions(ALICE);
    assert_eq!(positions.len(), 1);
    assert_eq!(positions[0].base_asset_amount.into_inner(), -(bal(400) as i128));
    assert_eq!(
        positions[0].quote_asset_notional_amount.into_inner(),
        -(bal(4_000) as i128)
    );
    assert_eq!(ch.get_margin(ALICE), Some(bal(800)));
}

#[test]
fn fails_to_create_new_position_without_enough_margin() {
    // Margin 10 at 10x leverage admits at most 100 of notional.
    let mut ch = house_with_market(bal(10));
    set_price_units(&mut ch, 10);
    assert_eq!(
        ch.open_position(ALICE, 0, Direction::Long, bal(101), bal(10)),
        Err(Error::InsufficientCollateral)
    );
    assert!(ch.get_positions(ALICE).is_empty());
    assert_eq!(ch.get_margin(ALICE), Some(bal(10)));
}

#[test]
fn can_decrease_position_even_if_below_imr() {
    // Margin 10 backs a 100-quote long at price 10.  After the price
    // drops to 8 the account is below its initial margin requirement:
    // increasing exposure is rejected, but reducing it goes through.
    let mut ch = house_with_market(bal(10));
    set_price_units(&mut ch, 10);
    ch.open_position(ALICE, 0, Direction::Long, bal(100), bal(10)).unwrap();

    set_price_units(&mut ch, 8);
    assert_eq!(
        ch.open_position(ALICE, 0, Direction::Long, bal(8), bal(1)),
        Err(Error::InsufficientCollateral)
    );
    assert_eq!(
        ch.open_position(ALICE, 0, Direction::Short, bal(40), bal(5)),
        Ok(bal(5))
    );
    let positions = ch.get_positions(ALICE);
    assert_eq!(positions.len(), 1);
    assert_eq!(positions[0].base_asset_amount.into_inner(), bal(5) as i128);
}

#[test]
fn imr_is_combination_of_market_imrs_with_open_positions() {
    // Two markets with 10x and 20x maximum leverage; splitting notional
    // one to two between them makes the account's ceiling 15x: margin
    // 60 carries 900 of notional, and not one unit more.
    let mut ch = ClearingHouse::new(true, Some(0), Some(Decimal::zero()), 5, 0);
    let mut config = valid_market_config();
    config.margin_ratio_initial = Decimal::from_inner((UNIT / 10) as i128);
    ch.create_market(&config).unwrap();
    config.margin_ratio_initial = Decimal::from_inner((UNIT / 20) as i128);
    ch.create_market(&config).unwrap();
    ch.add_margin(ALICE, bal(60)).unwrap();

    set_price_units(&mut ch, 10);

    // One third of the exposure in the 10x market.
    assert_eq!(
        ch.open_position(ALICE, 0, Direction::Long, bal(300), bal(30)),
        Ok(bal(30))
    );

    // Exceeding the aggregate ceiling in the 20x market fails.
    let quote_amount_fail = bal(600) + 100;
    assert_eq!(
        ch.open_position(
            ALICE,
            1,
            Direction::Long,
            quote_amount_fail,
            quote_amount_fail / 10,
        ),
        Err(Error::InsufficientCollateral)
    );

    // Exactly the ceiling succeeds.
    assert_eq!(
        ch.open_position(ALICE, 1, Direction::Long, bal(600), bal(60)),
        Ok(bal(60))
    );
}

#[test]
fn increasing_position_adds_to_both_components() {
    let mut ch = house_with_market(bal(100));
    set_price_units(&mut ch, 10);
    ch.open_position(ALICE, 0, Direction::Long, bal(40), bal(4)).unwrap();
    ch.open_position(ALICE, 0, Direction::Long, bal(60), bal(6)).unwrap();

    let positions = ch.get_positions(ALICE);
    assert_eq!(positions.len(), 1);
    assert_eq!(positions[0].base_asset_amount.into_inner(), bal(10) as i128);
    assert_eq!(
        positions[0].quote_asset_notional_amount.into_inner(),
        bal(100) as i128
    );
    // No PnL is realized by an increase.
    assert_eq!(ch.get_margin(ALICE), Some(bal(100)));
}

#[test]
fn zero_price_rejects_swap() {
    let mut ch = house_with_market(bal(100));
    ch.vamm.set_price(Some(Decimal::zero()));
    assert_eq!(
        ch.open_position(ALICE, 0, Direction::Long, bal(100), bal(10)),
        Err(Error::DivisionByZero)
    );
}

#[test]
fn missing_price_fails_swap() {
    let mut ch = house_with_market(bal(100));
    assert_eq!(
        ch.open_position(ALICE, 0, Direction::Long, bal(100), bal(10)),
        Err(Error::FailedToExecuteSwap)
    );
}

#[test]
fn output_below_limit_fails_swap() {
    let mut ch = house_with_market(bal(100));
    set_price_units(&mut ch, 10);
    // At price 10, 100 quote buys 10 base; demanding 11 must fail.
    assert_eq!(
        ch.open_position(ALICE, 0, Direction::Long, bal(100), bal(11)),
        Err(Error::FailedToExecuteSwap)
    );
}

#[test]
fn oversized_quote_amount_overflows() {
    let mut ch = house_with_market(bal(100));
    set_price_units(&mut ch, 10);
    assert_eq!(
        ch.open_position(ALICE, 0, Direction::Long, u128::MAX, 0),
        Err(Error::ArithmeticOverflow)
    );
}

#[test]
fn failed_trade_leaves_margin_and_positions_untouched() {
    let mut ch = house_with_market(bal(100));
    set_price_units(&mut ch, 10);
    ch.open_position(ALICE, 0, Direction::Long, bal(50), bal(5)).unwrap();
    let before_positions = ch.get_positions(ALICE);
    let before_margin = ch.get_margin(ALICE);
    let before_count = ch.market_count();

    assert!(ch.open_position(ALICE, 7, Direction::Long, bal(10), bal(1)).is_err());
    assert!(ch
        .open_position(ALICE, 0, Direction::Long, bal(10_000), bal(1_000))
        .is_err());

    assert_eq!(ch.get_positions(ALICE), before_positions);
    assert_eq!(ch.get_margin(ALICE), before_margin);
    assert_eq!(ch.market_count(), before_count);
}
