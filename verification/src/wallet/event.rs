//! A single trade and the event that records it for a ticker.

use vstd::prelude::*;

verus! {

/// A ticker code such as `PETR4`. Codes are compared exactly as written:
/// no case folding, no trimming.
pub type Code = String;

/// An amount of money in hundredths of the currency unit.
pub type Currency = i32;

/// An instant, in whole seconds since 1970-01-01 00:00:00 UTC.
pub type Timestamp = i64;

/// What was traded: when, how many units, and the price of one unit.
///
/// Nothing is validated here: zero or negative amounts and prices are
/// stored as given.
#[derive(Debug)]
pub struct TransactionInfo {
    date: Timestamp,
    amount: i32,
    price: Currency,
}

impl TransactionInfo {
    /// The instant of the trade.
    pub closed spec fn spec_date(&self) -> Timestamp {
        self.date
    }

    /// The number of units traded.
    pub closed spec fn spec_amount(&self) -> i32 {
        self.amount
    }

    /// The price of one unit.
    pub closed spec fn spec_price(&self) -> Currency {
        self.price
    }

    /// The trade made of these three values.
    pub closed spec fn spec_new(date: Timestamp, amount: i32, price: Currency) -> Self {
        Self { date, amount, price }
    }

    /// A trade holds the values that it was made of.
    pub proof fn lemma_spec_new(date: Timestamp, amount: i32, price: Currency)
        ensures
            Self::spec_new(date, amount, price).spec_date() == date,
            Self::spec_new(date, amount, price).spec_amount() == amount,
            Self::spec_new(date, amount, price).spec_price() == price,
    {
    }

    pub fn new(date: Timestamp, amount: i32, price: Currency) -> (info: Self)
        ensures
            info == Self::spec_new(date, amount, price),
            info.spec_date() == date,
            info.spec_amount() == amount,
            info.spec_price() == price,
    {
        Self { date, amount, price }
    }

    #[verifier::when_used_as_spec(spec_date)]
    pub fn date(&self) -> (date: Timestamp)
        ensures
            date == self.spec_date(),
    {
        self.date
    }

    #[verifier::when_used_as_spec(spec_amount)]
    pub fn amount(&self) -> (amount: i32)
        ensures
            amount == self.spec_amount(),
    {
        self.amount
    }

    #[verifier::when_used_as_spec(spec_price)]
    pub fn price(&self) -> (price: Currency)
        ensures
            price == self.spec_price(),
    {
        self.price
    }
}

impl Default for TransactionInfo {
    /// A trade of nothing, for nothing, at the start of 1970.
    fn default() -> (info: Self)
        ensures
            info == Self::spec_new(0, 0, 0),
            info.spec_date() == 0,
            info.spec_amount() == 0,
            info.spec_price() == 0,
    {
        Self { date: 0, amount: 0, price: 0 }
    }
}

/// A trade recorded for a ticker. The direction of the trade is the variant.
#[derive(Debug)]
pub enum Event {
    Sell(Code, TransactionInfo),
    Buy(Code, TransactionInfo),
}

impl Event {
    /// The ticker code, as a sequence of characters.
    pub open spec fn spec_code(&self) -> Seq<char> {
        match self {
            Event::Sell(code, _) => code@,
            Event::Buy(code, _) => code@,
        }
    }

    /// The trade that the event carries.
    pub open spec fn transaction(&self) -> TransactionInfo {
        match self {
            Event::Sell(_, transaction) => *transaction,
            Event::Buy(_, transaction) => *transaction,
        }
    }

    /// The number of units traded.
    pub open spec fn spec_amount(&self) -> i32 {
        self.transaction().spec_amount()
    }

    /// The price of one unit.
    pub open spec fn spec_price(&self) -> Currency {
        self.transaction().spec_price()
    }

    /// The instant of the trade.
    pub open spec fn spec_date(&self) -> Timestamp {
        self.transaction().spec_date()
    }

    /// The units that the event adds to a holding: its amount if it is a
    /// purchase, nothing if it is a sale.
    pub open spec fn bought(&self) -> int {
        if self is Buy {
            self.spec_amount() as int
        } else {
            0
        }
    }

    /// The units that the event takes from a holding: its amount if it is a
    /// sale, nothing if it is a purchase.
    pub open spec fn sold(&self) -> int {
        if self is Sell {
            self.spec_amount() as int
        } else {
            0
        }
    }

    /// The money that the event spends: amount times unit price if it is a
    /// purchase, nothing if it is a sale.
    pub open spec fn spent(&self) -> int {
        if self is Buy {
            self.spec_amount() * self.spec_price()
        } else {
            0
        }
    }

    pub fn code(&self) -> (code: &str)
        ensures
            code@ == self.spec_code(),
    {
        match self {
            Event::Sell(code, _) => code.as_str(),
            Event::Buy(code, _) => code.as_str(),
        }
    }

    #[verifier::when_used_as_spec(spec_amount)]
    pub fn amount(&self) -> (amount: i32)
        ensures
            amount == self.spec_amount(),
    {
        match self {
            Event::Sell(_, transaction) => transaction.amount,
            Event::Buy(_, transaction) => transaction.amount,
        }
    }

    #[verifier::when_used_as_spec(spec_price)]
    pub fn price(&self) -> (price: Currency)
        ensures
            price == self.spec_price(),
    {
        match self {
            Event::Sell(_, transaction) => transaction.price,
            Event::Buy(_, transaction) => transaction.price,
        }
    }

    #[verifier::when_used_as_spec(spec_date)]
    pub fn date(&self) -> (date: Timestamp)
        ensures
            date == self.spec_date(),
    {
        match self {
            Event::Sell(_, transaction) => transaction.date,
            Event::Buy(_, transaction) => transaction.date,
        }
    }
}

} // verus!
