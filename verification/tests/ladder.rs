use fishermon::{Dec, OrderSpec, Strategy, StrategyError};

fn dec(units: i64) -> Dec {
    Dec::from_units(units)
}

/// One billionth-of-a-unit count per thousandth: the spec values are given
/// to three decimal places.
fn close_to(d: Dec, expected_units: i64) -> bool {
    (d.units - expected_units).abs() < 1_000_000
}

fn ladder_strategy(total_units: i64, delta_units: i64) -> Strategy {
    Strategy {
        total_amount: dec(total_units),
        min_size: dec(1_000_000_000),
        price_delta: dec(delta_units),
        price_growth: dec(2_000_000_000),
        amount_growth: dec(1_500_000_000),
        count: 4,
    }
}

#[test]
fn test_build_asks() {
    let strategy = ladder_strategy(500_000_000_000, 50_000_000_000);
    let orders = strategy.build_orders(dec(100_000_000_000)).unwrap();
    assert_eq!(orders.len(), 4);
    let amounts: Vec<Dec> = orders.iter().map(|o| o.amount).collect();
    let prices: Vec<Dec> = orders.iter().map(|o| o.price).collect();
    assert!(close_to(amounts[0], 29_369_300_934));
    assert!(close_to(amounts[1], 83_068_927_396));
    assert!(close_to(amounts[2], 152_607_364_200));
    assert!(close_to(amounts[3], 234_954_407_470));
    assert_eq!(prices[0], dec(103_125_000_000));
    assert_eq!(prices[1], dec(112_500_000_000));
    assert_eq!(prices[2], dec(128_125_000_000));
    assert_eq!(prices[3], dec(150_000_000_000));
}

#[test]
fn test_build_with_cutoff() {
    // With such a low total_amount the first amount in the sequence is cut
    // off because it is less than the min_size (0.469~ < 1).
    let strategy = ladder_strategy(8_000_000_000, 50_000_000_000);
    let orders = strategy.build_orders(dec(100_000_000_000)).unwrap();
    assert_eq!(orders.len(), 3);
    assert!(close_to(orders[0].amount, 1_329_102_838));
    assert!(close_to(orders[1].amount, 2_441_717_827));
    assert!(close_to(orders[2].amount, 3_759_270_520));
    assert_eq!(orders[0].price, dec(112_500_000_000));
    assert_eq!(orders[1].price, dec(128_125_000_000));
    assert_eq!(orders[2].price, dec(150_000_000_000));
}

#[test]
fn test_build_bids() {
    let strategy = ladder_strategy(500_000_000_000, -50_000_000_000);
    let orders = strategy.build_orders(dec(150_000_000_000)).unwrap();
    assert_eq!(orders.len(), 4);
    assert!(close_to(orders[0].amount, 29_369_300_934));
    assert!(close_to(orders[1].amount, 83_068_927_396));
    assert!(close_to(orders[2].amount, 152_607_364_200));
    assert!(close_to(orders[3].amount, 234_954_407_470));
    assert_eq!(orders[0].price, dec(146_875_000_000));
    assert_eq!(orders[1].price, dec(137_500_000_000));
    assert_eq!(orders[2].price, dec(121_875_000_000));
    assert_eq!(orders[3].price, dec(100_000_000_000));
}

#[test]
fn empty_ladder_for_zero_count() {
    let mut strategy = ladder_strategy(500_000_000_000, 50_000_000_000);
    strategy.count = 0;
    let orders = strategy.build_orders(dec(100_000_000_000)).unwrap();
    assert!(orders.is_empty());
}

#[test]
fn single_rung_takes_whole_total() {
    let mut strategy = ladder_strategy(500_000_000_000, 50_000_000_000);
    strategy.count = 1;
    let orders = strategy.build_orders(dec(100_000_000_000)).unwrap();
    assert_eq!(orders.len(), 1);
    assert_eq!(orders[0].amount, dec(500_000_000_000));
    assert_eq!(orders[0].price, dec(150_000_000_000));
}

#[test]
fn filter_can_drop_every_rung() {
    let strategy = Strategy {
        total_amount: dec(1_000_000_000),
        min_size: dec(10_000_000_000),
        price_delta: dec(50_000_000_000),
        price_growth: dec(1_000_000_000),
        amount_growth: dec(1_000_000_000),
        count: 2,
    };
    let orders = strategy.build_orders(dec(100_000_000_000)).unwrap();
    assert!(orders.is_empty());
}

#[test]
fn vanishing_normalizer_is_degenerate() {
    // 2 ^ -40 scaled to billionths rounds to zero, so the last price weight
    // vanishes and the configuration is rejected.
    let strategy = Strategy {
        total_amount: dec(10_000_000_000),
        min_size: dec(0),
        price_delta: dec(50_000_000_000),
        price_growth: dec(-40_000_000_000),
        amount_growth: dec(1_000_000_000),
        count: 2,
    };
    let err = strategy.build_orders(dec(100_000_000_000)).unwrap_err();
    assert_eq!(err, StrategyError::Degenerate);
}

#[test]
fn oversized_weight_is_overflow() {
    // 100 ^ 5 in billionths exceeds the representable range.
    let strategy = Strategy {
        total_amount: dec(500_000_000_000),
        min_size: dec(0),
        price_delta: dec(50_000_000_000),
        price_growth: dec(1_000_000_000),
        amount_growth: dec(5_000_000_000),
        count: 100,
    };
    let err = strategy.build_orders(dec(100_000_000_000)).unwrap_err();
    assert_eq!(err, StrategyError::Overflow);
}

#[test]
fn conservation_holds_on_scenario_amounts() {
    // The four unfiltered amounts of the reference scenario sum back to the
    // total, short by less than one unit per rung.
    let strategy = ladder_strategy(500_000_000_000, 50_000_000_000);
    let orders: Vec<OrderSpec> = strategy.build_orders(dec(100_000_000_000)).unwrap();
    let total: i64 = orders.iter().map(|o| o.amount.units).sum();
    assert!(total <= 500_000_000_000);
    assert!(total > 500_000_000_000 - 4);
}
