use fishermon::{
    CancelCommand, Dec, ErrorKind, OpenOrder, OrderBook, Strategy, Trader, with_retry,
};

fn dec(units: i64) -> Dec {
    Dec::from_units(units)
}

#[test]
fn trade() {
    let trader = Trader::new(
        0,
        0,
        Strategy {
            total_amount: dec(500_000_000_000),
            min_size: dec(1_000_000_000),
            price_delta: dec(-100_000_000_000),
            price_growth: dec(1_500_000_000),
            amount_growth: dec(1_500_000_000),
            count: 3,
        },
        Strategy {
            total_amount: dec(1_000_000_000),
            min_size: dec(5_000_000),
            price_delta: dec(50_000_000_000),
            price_growth: dec(2_000_000_000),
            amount_growth: dec(2_000_000_000),
            count: 4,
        },
    );

    // The exchange reports two open orders, then an empty list once both
    // are cancelled.
    let listings = vec![
        vec![OpenOrder::Bid { id: 1 }, OpenOrder::Ask { id: 2 }],
        vec![],
    ];
    let trace = trader.clear_all_orders(&listings).unwrap();
    assert_eq!(trace.polls, 2);
    assert_eq!(
        trace.cancels,
        vec![CancelCommand::CancelBid { id: 1 }, CancelCommand::CancelAsk { id: 2 }]
    );

    let book = OrderBook {
        bids: vec![(dec(500_000_000_000), dec(1_000_000_000)), (dec(490_000_000_000), dec(2_000_000_000))],
        asks: vec![(dec(510_000_000_000), dec(1_000_000_000)), (dec(520_000_000_000), dec(2_000_000_000))],
    };
    let plan = trader.trade(&book).unwrap();

    // Bid ladder: three rungs walking down to exactly 500 - 100 = 400.
    assert_eq!(plan.bids.len(), 3);
    assert_eq!(plan.bids.last().unwrap().price, dec(400_000_000_000));
    assert!(plan.bids.iter().all(|o| o.price.units <= 500_000_000_000));

    // Ask ladder: four rungs walking up to exactly 510 + 50 = 560.
    assert_eq!(plan.asks.len(), 4);
    assert_eq!(plan.asks[0].price, dec(513_125_000_000));
    assert_eq!(plan.asks[1].price, dec(522_500_000_000));
    assert_eq!(plan.asks[2].price, dec(538_125_000_000));
    assert_eq!(plan.asks[3].price, dec(560_000_000_000));

    let bid_places = trader.place_bids(&plan.bids);
    let ask_places = trader.place_asks(&plan.asks);
    assert_eq!(bid_places.len(), 3);
    assert_eq!(ask_places.len(), 4);
}

#[test]
fn clear_phase_cancels_each_reported_order_once() {
    let trader = Trader::new(
        0,
        300,
        Strategy {
            total_amount: dec(1),
            min_size: dec(0),
            price_delta: dec(-1),
            price_growth: dec(1_000_000_000),
            amount_growth: dec(1_000_000_000),
            count: 1,
        },
        Strategy {
            total_amount: dec(1),
            min_size: dec(0),
            price_delta: dec(1),
            price_growth: dec(1_000_000_000),
            amount_growth: dec(1_000_000_000),
            count: 1,
        },
    );
    let listings = vec![
        vec![OpenOrder::Ask { id: 7 }],
        vec![OpenOrder::Bid { id: 9 }],
        vec![],
    ];
    let trace = trader.clear_all_orders(&listings).unwrap();
    assert_eq!(trace.polls, 3);
    assert_eq!(
        trace.cancels,
        vec![CancelCommand::CancelAsk { id: 7 }, CancelCommand::CancelBid { id: 9 }]
    );

    // The phase keeps polling while the exchange keeps reporting orders.
    let busy = vec![vec![OpenOrder::Bid { id: 1 }]];
    assert!(trader.clear_all_orders(&busy).is_none());
}

#[test]
fn network_errors_retry_until_success() {
    // Fails twice with a transport error, then succeeds: three attempts,
    // each preceded by one cooldown.
    let outcomes: Vec<Result<u64, ErrorKind>> =
        vec![Err(ErrorKind::Network), Err(ErrorKind::Network), Ok(7)];
    let run = with_retry(&outcomes).unwrap();
    assert_eq!(run.attempts, 3);
    assert_eq!(run.outcome, Ok(7));
}

#[test]
fn unprocessable_entity_fails_on_first_attempt() {
    let outcomes: Vec<Result<u64, ErrorKind>> = vec![Err(ErrorKind::Status(422)), Ok(7)];
    let run = with_retry(&outcomes).unwrap();
    assert_eq!(run.attempts, 1);
    assert_eq!(run.outcome, Err(ErrorKind::Status(422)));
}

#[test]
fn other_status_codes_are_retried() {
    let outcomes: Vec<Result<u64, ErrorKind>> = vec![Err(ErrorKind::Status(503)), Ok(7)];
    let run = with_retry(&outcomes).unwrap();
    assert_eq!(run.attempts, 2);
    assert_eq!(run.outcome, Ok(7));
}

#[test]
fn unclassified_errors_are_not_retried() {
    let outcomes: Vec<Result<u64, ErrorKind>> = vec![Err(ErrorKind::Other), Ok(7)];
    let run = with_retry(&outcomes).unwrap();
    assert_eq!(run.attempts, 1);
    assert_eq!(run.outcome, Err(ErrorKind::Other));
}

#[test]
fn endless_transient_failures_keep_retrying() {
    let outcomes: Vec<Result<u64, ErrorKind>> =
        vec![Err(ErrorKind::Network), Err(ErrorKind::Status(500))];
    assert!(with_retry(&outcomes).is_none());
}
