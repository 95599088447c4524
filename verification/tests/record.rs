use stock_wallet::record::{parse_date, ActionEntry, CsvEntry, RecordError};
use stock_wallet::wallet::Event;

fn entry(action: ActionEntry) -> CsvEntry {
    CsvEntry { date: 1_431_648_000, code: "PETR4".to_owned(), action, amount: 200, price: 1450 }
}

#[test]
fn a_date_is_read_as_day_month_year_and_time_in_utc() {
    assert_eq!(parse_date("15/05/2015 00:00:00").ok(), Some(1_431_648_000));
    assert_eq!(parse_date("15/05/2015 23:59:59").ok(), Some(1_431_648_000 + 86_399));
    assert_eq!(parse_date("01/01/1970 00:00:00").ok(), Some(0));
    assert_eq!(parse_date("31/12/1969 23:59:59").ok(), Some(-1));
    assert_eq!(parse_date("29/02/2000 00:00:00").ok(), Some(951_782_400));
}

#[test]
fn a_text_that_is_no_date_is_refused() {
    assert!(parse_date("").is_err());
    assert!(parse_date("2015-05-15 00:00:00").is_err());
    assert!(parse_date("15/05/2015").is_err());
    assert!(parse_date("31/02/2015 00:00:00").is_err());
    assert!(parse_date("29/02/2001 00:00:00").is_err());
    assert!(parse_date("15/13/2015 00:00:00").is_err());
    assert!(parse_date("15/05/2015 24:00:00").is_err());
    assert!(parse_date("15/05/2015 00:00:00 and more").is_err());
}

#[test]
fn the_reason_for_a_refusal_is_handed_on() {
    match parse_date("15/05/2015") {
        Err(RecordError::Date(error)) => assert_eq!(error.to_string(), "premature end of input"),
        Ok(_) => panic!("a day without a time is no date"),
    }
    match parse_date("15/05/2015 00:00:00 and more") {
        Err(RecordError::Date(error)) => assert_eq!(error.to_string(), "trailing input"),
        Ok(_) => panic!("more than a date is no date"),
    }
}

#[test]
fn a_record_of_a_sale_stands_for_a_sell_event() {
    let event = Event::from(entry(ActionEntry::Sell));

    assert!(matches!(event, Event::Sell(_, _)));
    assert_eq!(event.code(), "PETR4");
    assert_eq!(event.date(), 1_431_648_000);
    assert_eq!(event.amount(), 200);
    assert_eq!(event.price(), 1450);
}

#[test]
fn a_record_of_a_purchase_stands_for_a_buy_event() {
    let event: Event = entry(ActionEntry::Buy).into();

    assert!(matches!(event, Event::Buy(_, _)));
    assert_eq!(event.code(), "PETR4");
    assert_eq!(event.date(), 1_431_648_000);
    assert_eq!(event.amount(), 200);
    assert_eq!(event.price(), 1450);
}
