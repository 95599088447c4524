//! The records of a file of trades, and the events that they stand for.

use crate::wallet::event::{Currency, Event, Timestamp, TransactionInfo};
use chrono::{ParseError, TimeZone, Utc};
use vstd::prelude::*;
use vstd::std_specs::convert::FromSpecImpl;

verus! {

/// chrono's `ParseError`: why a text is not a date. It is carried, never
/// looked into.
#[verifier::external_type_specification]
#[verifier::external_body]
pub struct ExParseError(ParseError);

/// Why a record cannot be read.
#[derive(Debug)]
pub enum RecordError {
    Date(ParseError),
}

/// The direction of the trade of a record.
#[derive(Debug, Clone, Copy, PartialEq, Eq, Structural)]
pub enum ActionEntry {
    Sell,
    Buy,
}

/// One record: a trade and the ticker that it is for.
#[derive(Debug)]
pub struct CsvEntry {
    pub date: Timestamp,
    pub code: String,
    pub action: ActionEntry,
    pub amount: i32,
    pub price: Currency,
}

/// The event that a record stands for: a sale or a purchase, as the record
/// says, of its ticker, with its date, amount and price.
pub open spec fn event_of(val: CsvEntry) -> Event {
    match val.action {
        ActionEntry::Sell => Event::Sell(
            val.code,
            TransactionInfo::spec_new(val.date, val.amount, val.price),
        ),
        ActionEntry::Buy => Event::Buy(
            val.code,
            TransactionInfo::spec_new(val.date, val.amount, val.price),
        ),
    }
}

impl From<CsvEntry> for Event {
    fn from(val: CsvEntry) -> (event: Event)
        ensures
            event == event_of(val),
            event.spec_code() == val.code@,
            event is Buy <==> val.action is Buy,
            event.spec_date() == val.date,
            event.spec_amount() == val.amount,
            event.spec_price() == val.price,
    {
        match val.action {
            ActionEntry::Sell => Event::Sell(
                val.code,
                TransactionInfo::new(val.date, val.amount, val.price),
            ),
            ActionEntry::Buy => Event::Buy(
                val.code,
                TransactionInfo::new(val.date, val.amount, val.price),
            ),
        }
    }
}

impl FromSpecImpl<CsvEntry> for Event {
    open spec fn obeys_from_spec() -> bool {
        true
    }

    open spec fn from_spec(val: CsvEntry) -> Event {
        event_of(val)
    }
}

/// The event that a record stands for holds what the record holds.
pub proof fn lemma_event_of_record(val: CsvEntry)
    ensures
        event_of(val).spec_code() == val.code@,
        event_of(val) is Buy <==> val.action is Buy,
        event_of(val).spec_date() == val.date,
        event_of(val).spec_amount() == val.amount,
        event_of(val).spec_price() == val.price,
{
    TransactionInfo::lemma_spec_new(val.date, val.amount, val.price);
}

/// The instant that a text of the form `day/month/year hour:minute:second`
/// stands for, taken as UTC, or `None` for a text that is no such date.
pub uninterp spec fn parsed_date(text: Seq<char>) -> Option<i64>;

/// chrono's `TimeZone::datetime_from_str` on `Utc` with the pattern
/// `%d/%m/%Y %H:%M:%S`, followed by `DateTime::timestamp`. The first reads
/// the text or says why it is no date; the second gives the seconds of
/// the instant. The outcome depends on the text alone, and `parsed_date` is
/// the name for it.
#[allow(deprecated)]
#[verifier::external_body]
fn read_date(text: &str) -> (date: Result<Timestamp, ParseError>)
    ensures
        date is Ok <==> parsed_date(text@) is Some,
        date matches Ok(seconds) ==> parsed_date(text@) == Some(seconds),
{
    match Utc.datetime_from_str(text, "%d/%m/%Y %H:%M:%S") {
        Ok(date) => Ok(date.timestamp()),
        Err(error) => Err(error),
    }
}

/// Reads the date of a record.
pub fn parse_date(text: &str) -> (date: Result<Timestamp, RecordError>)
    ensures
        date is Ok <==> parsed_date(text@) is Some,
        date matches Ok(seconds) ==> parsed_date(text@) == Some(seconds),
{
    match read_date(text) {
        Ok(seconds) => Ok(seconds),
        Err(error) => Err(RecordError::Date(error)),
    }
}

} // verus!
