use chrono::{DateTime, Utc};
use stock_wallet::wallet::{AveragePrice, Event, TransactionInfo, Wallet, WalletTicker};

fn date() -> i64 {
    DateTime::<Utc>::MIN_UTC.timestamp()
}

fn buy(code: &str, amount: i32, price: i32) -> Event {
    Event::Buy(code.to_owned(), TransactionInfo::new(date(), amount, price))
}

fn sell(code: &str, amount: i32, price: i32) -> Event {
    Event::Sell(code.to_owned(), TransactionInfo::new(date(), amount, price))
}

fn in_units(average: AveragePrice) -> f64 {
    match average {
        AveragePrice::Ratio { cost, amount } => cost as f64 / amount as f64 / 100.0,
        AveragePrice::Undefined => f64::NAN,
    }
}

fn create_actions() -> Vec<Event> {
    vec![
        buy("PETR4", 200, 1400),
        buy("PETR4", 300, 1500),
        buy("PETR4", 400, 1600),
    ]
}

fn bought_twice_then_sold(sold: i32) -> Vec<Event> {
    vec![
        buy("BBAS3", 100, 2000),
        buy("BBAS3", 100, 2500),
        sell("BBAS3", sold, 2000),
    ]
}

fn amounts(ticker: &WalletTicker) -> Vec<i32> {
    ticker.events().iter().map(|event| event.amount()).collect()
}

#[test]
fn it_is_able_to_convert_into_a_position() {
    let position = Wallet::from_transactions(create_actions());

    assert_eq!(position.len(), 1);
    assert_eq!(position.ticker("PETR4").unwrap().events().len(), 3);
}

#[test]
fn it_can_calculate_the_average_price_for_a_ticker() {
    let position = Wallet::from_transactions(create_actions());
    assert!((in_units(position.ticker("PETR4").unwrap().average_price()).abs() - 15.22).abs() < 0.1);
}

#[test]
fn it_will_return_none_if_there_is_no_transaction_regarding_a_key() {
    let position = Wallet::from_transactions(create_actions());
    assert!(matches!(position.ticker("nonexistent"), None));
}

#[test]
fn it_should_ignore_sells_when_calculating_the_avg_price() {
    let actions = bought_twice_then_sold(50);

    let ticker_position = WalletTicker::new("BBAS3", &actions);
    assert!((in_units(ticker_position.average_price()).abs() - 22.5).abs() < 0.1);
}

#[test]
fn it_will_return_the_current_position_according_to_the_buys_and_sells() {
    let actions = bought_twice_then_sold(100);

    let ticker_position = WalletTicker::new("BBAS3", &actions);
    let position = ticker_position.position();

    assert!(position.is_some());
    assert_eq!(position.unwrap().current_amount(), 100);
}

#[test]
fn it_will_return_none_if_all_the_stocks_were_sold() {
    let actions = bought_twice_then_sold(200);

    let ticker_position = WalletTicker::new("BBAS3", &actions);
    let position = ticker_position.position();

    assert!(position.is_none());
}

#[test]
fn events_hand_back_what_they_were_made_of() {
    let info = TransactionInfo::new(1_431_648_000, 7, 1234);
    assert_eq!(info.date(), 1_431_648_000);
    assert_eq!(info.amount(), 7);
    assert_eq!(info.price(), 1234);

    let bought = Event::Buy("VALE3".to_owned(), TransactionInfo::new(5, -3, -20));
    assert_eq!(bought.code(), "VALE3");
    assert_eq!(bought.amount(), -3);
    assert_eq!(bought.price(), -20);
    assert_eq!(bought.date(), 5);

    let sold = sell("ITUB4", 0, 0);
    assert_eq!(sold.code(), "ITUB4");
    assert_eq!(sold.amount(), 0);
    assert_eq!(sold.price(), 0);
    assert_eq!(sold.date(), date());
}

#[test]
fn a_trade_by_default_is_of_nothing_at_the_start_of_1970() {
    let info = TransactionInfo::default();
    assert_eq!(info.date(), DateTime::<Utc>::default().timestamp());
    assert_eq!(info.date(), 0);
    assert_eq!(info.amount(), 0);
    assert_eq!(info.price(), 0);
}

#[test]
fn grouping_files_each_event_once_under_its_code_and_in_order() {
    let wallet = Wallet::from_transactions(vec![
        buy("PETR4", 1, 10),
        buy("BBAS3", 2, 10),
        sell("PETR4", 3, 10),
        buy("VALE3", 4, 10),
        buy("BBAS3", 5, 10),
        buy("PETR4", 6, 10),
        buy("PETR4", 1, 10),
    ]);

    assert_eq!(wallet.len(), 3);
    assert_eq!(amounts(&wallet.ticker("PETR4").unwrap()), vec![1, 3, 6, 1]);
    assert_eq!(amounts(&wallet.ticker("BBAS3").unwrap()), vec![2, 5]);
    assert_eq!(amounts(&wallet.ticker("VALE3").unwrap()), vec![4]);

    let petr4 = wallet.ticker("PETR4").unwrap();
    assert_eq!(petr4.name(), "PETR4");
    assert!(petr4.events().iter().all(|event| event.code() == "PETR4"));
    assert!(matches!(petr4.events()[1], Event::Sell(_, _)));
}

#[test]
fn an_empty_wallet_knows_no_code() {
    let wallet = Wallet::from_transactions(Vec::new());

    assert_eq!(wallet.len(), 0);
    assert!(wallet.ticker("NONEXISTENT").is_none());
    assert!(wallet.ticker("").is_none());
    assert!(wallet.wealth().is_empty());
}

#[test]
fn lookup_takes_the_code_as_it_is_written() {
    let wallet = Wallet::from_transactions(create_actions());

    assert!(wallet.ticker("PETR4").is_some());
    assert!(wallet.ticker("NONEXISTENT").is_none());
    assert!(wallet.ticker("petr4").is_none());
    assert!(wallet.ticker("PETR4 ").is_none());
    assert!(wallet.ticker("PETR").is_none());
    assert!(wallet.ticker("PETR44").is_none());
}

#[test]
fn codes_that_differ_only_in_case_are_different_tickers() {
    let wallet = Wallet::from_transactions(vec![buy("abc", 1, 1), buy("ABC", 2, 1)]);

    assert_eq!(wallet.len(), 2);
    assert_eq!(amounts(&wallet.ticker("abc").unwrap()), vec![1]);
    assert_eq!(amounts(&wallet.ticker("ABC").unwrap()), vec![2]);
}

#[test]
fn three_purchases_give_the_position_and_the_exact_average() {
    let wallet = Wallet::from_transactions(create_actions());
    let ticker = wallet.ticker("PETR4").unwrap();

    let position = ticker.position().unwrap();
    assert_eq!(position.code(), "PETR4");
    assert_eq!(position.current_amount(), 900);
    assert_eq!(
        position.average_price(),
        AveragePrice::Ratio { cost: 1_370_000, amount: 900 }
    );
    assert_eq!(ticker.average_price(), AveragePrice::Ratio { cost: 1_370_000, amount: 900 });
    assert!((in_units(ticker.average_price()) - 15.22).abs() < 0.1);
}

#[test]
fn a_sale_lowers_the_position_and_not_the_average() {
    let actions = bought_twice_then_sold(50);
    let ticker = WalletTicker::new("BBAS3", &actions);

    assert_eq!(ticker.average_price(), AveragePrice::Ratio { cost: 450_000, amount: 200 });
    assert!((in_units(ticker.average_price()) - 22.5).abs() < 0.1);
    assert_eq!(ticker.position().unwrap().current_amount(), 150);
}

#[test]
fn the_average_of_two_purchases_ignores_the_sales_around_them() {
    let plain = vec![buy("X", 3, 700), buy("X", 5, 1100)];
    let mixed = vec![
        sell("X", 1, 9999),
        buy("X", 3, 700),
        sell("X", 2, 1),
        buy("X", 5, 1100),
        sell("X", 4, 123),
    ];
    let expected = AveragePrice::Ratio { cost: 3 * 700 + 5 * 1100, amount: 3 + 5 };

    assert_eq!(WalletTicker::new("X", &plain).average_price(), expected);
    assert_eq!(WalletTicker::new("X", &mixed).average_price(), expected);
}

#[test]
fn without_a_purchase_the_average_is_undefined() {
    let only_sales = vec![sell("X", 10, 500), sell("X", 20, 700)];
    let nothing: Vec<Event> = Vec::new();

    assert_eq!(WalletTicker::new("X", &only_sales).average_price(), AveragePrice::Undefined);
    assert_eq!(WalletTicker::new("X", &nothing).average_price(), AveragePrice::Undefined);
    assert!(WalletTicker::new("X", &only_sales).position().is_none());
    assert!(WalletTicker::new("X", &nothing).position().is_none());
}

#[test]
fn purchases_that_add_up_to_no_units_leave_the_average_undefined() {
    let of_nothing = vec![buy("X", 0, 500)];
    let cancelled = vec![buy("X", 5, 500), buy("X", -5, 700)];

    assert_eq!(WalletTicker::new("X", &of_nothing).average_price(), AveragePrice::Undefined);
    assert_eq!(WalletTicker::new("X", &cancelled).average_price(), AveragePrice::Undefined);
}

#[test]
fn a_free_purchase_has_a_defined_average_of_zero() {
    let gift = vec![buy("X", 10, 0)];

    assert_eq!(
        WalletTicker::new("X", &gift).average_price(),
        AveragePrice::Ratio { cost: 0, amount: 10 }
    );
}

#[test]
fn an_oversold_ticker_has_no_position() {
    let actions = bought_twice_then_sold(201);
    let ticker = WalletTicker::new("BBAS3", &actions);

    assert!(ticker.position().is_none());
    assert_eq!(ticker.average_price(), AveragePrice::Ratio { cost: 450_000, amount: 200 });
}

#[test]
fn one_unit_left_is_a_position() {
    let actions = bought_twice_then_sold(199);
    let position_of = WalletTicker::new("BBAS3", &actions);

    assert_eq!(position_of.position().unwrap().current_amount(), 1);
}

#[test]
fn negative_amounts_and_prices_pass_through() {
    let actions = vec![buy("X", -4, 300), sell("X", -10, 100), buy("X", 2, -50)];
    let ticker = WalletTicker::new("X", &actions);

    assert_eq!(ticker.average_price(), AveragePrice::Ratio { cost: -1300, amount: -2 });
    assert_eq!(ticker.position().unwrap().current_amount(), 8);
}

#[test]
fn the_largest_values_do_not_overflow() {
    let actions = vec![
        buy("X", i32::MAX, i32::MAX),
        buy("X", i32::MAX, i32::MAX),
        buy("X", i32::MIN, i32::MIN),
        sell("X", i32::MIN, i32::MIN),
        sell("X", i32::MIN, i32::MAX),
    ];
    let ticker = WalletTicker::new("X", &actions);
    let max = i32::MAX as i128;
    let min = i32::MIN as i128;

    assert_eq!(
        ticker.average_price(),
        AveragePrice::Ratio { cost: 2 * max * max + min * min, amount: 2 * max + min }
    );
    assert_eq!(ticker.position().unwrap().current_amount(), 2 * max + min - 2 * min);
}

#[test]
fn wealth_lists_the_held_tickers_in_the_order_of_their_first_events() {
    let wallet = Wallet::from_transactions(vec![
        buy("PETR4", 200, 1400),
        buy("BBAS3", 100, 2000),
        buy("VALE3", 10, 6000),
        buy("ITUB4", 5, 3000),
        buy("BBAS3", 100, 2500),
        sell("BBAS3", 200, 2000),
        sell("ITUB4", 9, 3000),
        sell("VALE3", 9, 6100),
    ]);

    let held = wallet.wealth();
    let names: Vec<&str> = held.iter().map(|ticker| ticker.name()).collect();
    assert_eq!(names, vec!["PETR4", "VALE3"]);
    assert_eq!(amounts(&held[0]), vec![200]);
    assert_eq!(amounts(&held[1]), vec![10, 9]);
    assert_eq!(held[1].position().unwrap().current_amount(), 1);
}

#[test]
fn a_ticker_that_was_sold_out_is_kept_but_not_listed() {
    let wallet = Wallet::from_transactions(bought_twice_then_sold(200));

    assert!(wallet.wealth().is_empty());
    let ticker = wallet.ticker("BBAS3").unwrap();
    assert_eq!(ticker.events().len(), 3);
    assert!(ticker.position().is_none());
}

#[test]
fn asking_twice_gives_the_same_answers() {
    let wallet = Wallet::from_transactions(bought_twice_then_sold(50));
    let ticker = wallet.ticker("BBAS3").unwrap();

    assert_eq!(ticker.average_price(), ticker.average_price());
    let first = ticker.position().unwrap();
    let second = ticker.position().unwrap();
    assert_eq!(first.code(), second.code());
    assert_eq!(first.current_amount(), second.current_amount());
    assert_eq!(first.average_price(), second.average_price());

    let names = |wallet: &Wallet| -> Vec<String> {
        wallet.wealth().iter().map(|ticker| ticker.name().to_owned()).collect()
    };
    assert_eq!(names(&wallet), names(&wallet));
}

#[test]
fn the_order_of_the_events_does_not_change_the_position() {
    let one_way = vec![buy("X", 7, 100), sell("X", 3, 100), buy("X", 2, 300)];
    let other_way = vec![buy("X", 2, 300), buy("X", 7, 100), sell("X", 3, 100)];

    assert_eq!(WalletTicker::new("X", &one_way).position().unwrap().current_amount(), 6);
    assert_eq!(WalletTicker::new("X", &other_way).position().unwrap().current_amount(), 6);
}

#[test]
fn a_view_takes_the_events_it_is_given() {
    let actions = vec![buy("PETR4", 5, 100), buy("VALE3", 6, 200)];
    let ticker = WalletTicker::new("BBAS3", &actions);

    assert_eq!(ticker.name(), "BBAS3");
    assert_eq!(ticker.events().len(), 2);
    let position = ticker.position().unwrap();
    assert_eq!(position.code(), "BBAS3");
    assert_eq!(position.current_amount(), 11);
}
