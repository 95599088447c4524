//! The requests that the Investidor10 service takes, and the reading of
//! its answers. Sending and receiving are left to the caller.

use super::{AssetType, Ticker};
use crate::text::{decimal, digit, digit_text, digits_of, push_decimal, push_digits};
use crate::wallet::event::{Currency, Event, Timestamp};
use chrono::DateTime;
use vstd::prelude::*;
use vstd::string::StringExecFns;

verus! {

/// reqwest's `Error`: what went wrong while a request was sent or its
/// answer read. It is carried, never looked into.
#[verifier::external_type_specification]
#[verifier::external_body]
pub struct ExReqwestError(reqwest::Error);

/// serde_json's `Error`: what went wrong while JSON was written or read.
/// It is carried, never looked into.
#[verifier::external_type_specification]
#[verifier::external_body]
pub struct ExJsonError(serde_json::Error);

/// Why a trade did not reach the service.
#[derive(Debug)]
pub enum Investidor10Error {
    /// The request could not be sent, or the service refused it.
    Reqwest(reqwest::Error),
    /// What was sent or received is not the JSON that was expected.
    Serde(serde_json::Error),
    /// The service knows no ticker of this code.
    TickerNotFound(String),
    /// The instant of the trade, given here in seconds, lies outside the
    /// calendar, so that it has no day to write.
    DateOutOfRange(Timestamp),
}

/// One entry of the answer to a search: a ticker's number and name.
#[derive(Debug, Clone)]
pub struct TickerInfo {
    pub id: i32,
    pub name: String,
}

/// A trade as the service takes it.
#[derive(Debug)]
pub struct Trade {
    pub ticker_type: String,
    pub user_wallet_id: i32,
    pub trade_type: String,
    pub source: String,
    pub token: String,
    pub date: String,
    pub qty: i32,
    pub ticker: i32,
    pub price: Currency,
    pub cost: Currency,
}

/// The day of an instant, written as day, month and year with `/` between
/// them, or `None` for an instant that no calendar date stands for.
pub uninterp spec fn trade_day(seconds: i64) -> Option<Seq<char>>;

/// What an optional text holds.
pub open spec fn text_of(text: Option<String>) -> Option<Seq<char>> {
    match text {
        Some(text) => Some(text@),
        None => None,
    }
}

/// chrono's `DateTime::from_timestamp` followed by `DateTime::format` with
/// the pattern `%d/%m/%Y`. From the first comes `None` when the seconds lie
/// outside the dates that chrono can hold; otherwise the second writes the
/// UTC day of the instant. The result depends on the seconds alone, and
/// `trade_day` is the name for it.
#[verifier::external_body]
fn format_day(seconds: Timestamp) -> (day: Option<String>)
    ensures
        text_of(day) == trade_day(seconds),
{
    match DateTime::from_timestamp(seconds, 0) {
        Some(date) => Some(date.format("%d/%m/%Y").to_string()),
        None => None,
    }
}

impl AssetType {
    /// The word by which the service tells the kinds apart in a trade.
    pub open spec fn spec_word(&self) -> Seq<char> {
        match self {
            AssetType::Fii => "fii"@,
            AssetType::Ticker => "Ticker"@,
        }
    }

    /// The part of a search address that names the kind.
    pub open spec fn spec_path(&self) -> Seq<char> {
        match self {
            AssetType::Fii => "fii"@,
            AssetType::Ticker => "ticker"@,
        }
    }

    pub fn word(&self) -> (word: &'static str)
        ensures
            word@ == self.spec_word(),
    {
        match self {
            AssetType::Fii => "fii",
            AssetType::Ticker => "Ticker",
        }
    }

    pub fn path(&self) -> (path: &'static str)
        ensures
            path@ == self.spec_path(),
    {
        match self {
            AssetType::Fii => "fii",
            AssetType::Ticker => "ticker",
        }
    }
}

/// The word by which the service tells a sale from a purchase.
pub open spec fn direction_word(event: Event) -> Seq<char> {
    match event {
        Event::Sell(_, _) => "SELL"@,
        Event::Buy(_, _) => "BUY"@,
    }
}

/// A price as the service takes it: the whole units, a comma, the two
/// digits of the hundredths and six zeros, with `-` before a negative one.
pub open spec fn price_text(price: Currency) -> Seq<char> {
    let magnitude: int = if price < 0 {
        -price
    } else {
        price as int
    };
    let sign = if price < 0 {
        seq!['-']
    } else {
        Seq::<char>::empty()
    };
    sign + digits_of((magnitude / 100) as nat) + seq![','] + seq![
        digit(magnitude % 100 / 10),
        digit(magnitude % 10),
    ] + "000000"@
}

/// Writes a price as the service takes it.
pub fn write_price(price: Currency) -> (text: String)
    ensures
        text@ == price_text(price),
{
    let mut text = String::new();
    let magnitude: u64 = if price < 0 {
        proof {
            reveal_strlit("-");
        }
        text.append("-");
        (-(price as i64)) as u64
    } else {
        price as u64
    };
    let ghost sign = text@;
    assert(sign =~= if price < 0 {
        seq!['-']
    } else {
        Seq::<char>::empty()
    });
    push_digits(&mut text, magnitude / 100);
    proof {
        reveal_strlit(",");
    }
    text.append(",");
    text.append(digit_text(magnitude % 100 / 10));
    text.append(digit_text(magnitude % 10));
    text.append("000000");
    assert(text@ =~= price_text(price));
    text
}

/// The address at which the service is asked for the tickers of one kind
/// that match `code`. The code is added as it is.
pub open spec fn search_address(asset_type: AssetType, code: Seq<char>) -> Seq<char> {
    "https://investidor10.com.br/api/buscar/"@ + asset_type.spec_path() + "/?_type=query&q="@
        + code
}

pub fn search_url(asset_type: AssetType, code: &str) -> (url: String)
    ensures
        url@ == search_address(asset_type, code@),
{
    let mut url = "https://investidor10.com.br/api/buscar/".to_owned();
    url.append(asset_type.path());
    url.append("/?_type=query&q=");
    url.append(code);
    url
}

/// The address to which the trades of one wallet are sent.
pub open spec fn trades_address(wallet_id: i32) -> Seq<char> {
    "https://investidor10.com.br/api/minhas-carteiras/lancamentos/"@ + decimal(wallet_id as int)
        + "/"@
}

pub fn trades_url(wallet_id: i32) -> (url: String)
    ensures
        url@ == trades_address(wallet_id),
{
    let mut url = "https://investidor10.com.br/api/minhas-carteiras/lancamentos/".to_owned();
    push_decimal(&mut url, wallet_id as i64);
    url.append("/");
    url
}

/// The cookie that carries a session to the service.
pub fn session_cookie(session: &str) -> (cookie: String)
    ensures
        cookie@ == "laravel_session="@ + session@,
{
    let mut cookie = "laravel_session=".to_owned();
    cookie.append(session);
    cookie
}

impl Trade {
    /// Whether this is the trade that records `event` in the wallet
    /// `wallet_id`, for the ticker known as `ticker`, on the day `day`.
    pub open spec fn records(
        &self,
        event: Event,
        ticker: Ticker,
        wallet_id: i32,
        day: Seq<char>,
    ) -> bool {
        &&& self.ticker_type@ == ticker.asset_type.spec_word()
        &&& self.user_wallet_id == wallet_id
        &&& self.trade_type@ == direction_word(event)
        &&& self.source@ == "Manual"@
        &&& self.token@ == Seq::<char>::empty()
        &&& self.date@ == day
        &&& self.qty == event.spec_amount()
        &&& self.ticker == ticker.id
        &&& self.price == event.spec_price()
        &&& self.cost == 0
    }

    /// The trade that records `event`, with the day of the event already
    /// written out.
    pub fn new(event: &Event, ticker: &Ticker, wallet_id: i32, day: String) -> (trade: Trade)
        ensures
            trade.records(*event, *ticker, wallet_id, day@),
    {
        let trade_type = match event {
            Event::Sell(_, _) => "SELL",
            Event::Buy(_, _) => "BUY",
        };
        Trade {
            ticker_type: ticker.asset_type.word().to_owned(),
            user_wallet_id: wallet_id,
            trade_type: trade_type.to_owned(),
            source: "Manual".to_owned(),
            token: String::new(),
            date: day,
            qty: event.amount(),
            ticker: ticker.id,
            price: event.price(),
            cost: 0,
        }
    }

    /// The price of the trade as the service takes it.
    pub fn price_text(&self) -> (text: String)
        ensures
            text@ == price_text(self.price),
    {
        write_price(self.price)
    }
}

/// The trade that records `event`, dated with the day of its instant. An
/// instant that has no calendar day is the only thing that is refused.
pub fn create_trade_request(event: &Event, ticker: &Ticker, wallet_id: i32) -> (trade: Result<
    Trade,
    Investidor10Error,
>)
    ensures
        trade is Ok <==> trade_day(event.spec_date()) is Some,
        trade matches Ok(made) ==> made.records(
            *event,
            *ticker,
            wallet_id,
            trade_day(event.spec_date()).unwrap(),
        ),
        trade matches Err(error) ==> error == Investidor10Error::DateOutOfRange(event.spec_date()),
{
    match format_day(event.date()) {
        Some(day) => Ok(Trade::new(event, ticker, wallet_id, day)),
        None => Err(Investidor10Error::DateOutOfRange(event.date())),
    }
}

/// The ticker that a search found: the first entry of the answer, taken as
/// of the kind that was searched for. An empty answer means that the
/// service does not know the code.
pub fn first_ticker(found: &Vec<TickerInfo>, asset_type: AssetType, code: &str) -> (ticker: Result<
    Ticker,
    Investidor10Error,
>)
    ensures
        ticker is Ok <==> found@.len() > 0,
        ticker matches Ok(first) ==> {
            &&& first.id == found@[0].id
            &&& first.name@ == found@[0].name@
            &&& first.asset_type == asset_type
        },
        ticker matches Err(error) ==> {
            &&& error matches Investidor10Error::TickerNotFound(missing)
            &&& missing@ == code@
        },
{
    if found.len() > 0 {
        Ok(Ticker { id: found[0].id, name: found[0].name.clone(), asset_type })
    } else {
        Err(Investidor10Error::TickerNotFound(code.to_owned()))
    }
}

/// The outcome of looking a code up as a ticker and as a fund: the first
/// if it found one, otherwise the second, whatever it is.
pub fn ticker_or_fii(
    as_ticker: Result<Ticker, Investidor10Error>,
    as_fii: Result<Ticker, Investidor10Error>,
) -> (ticker: Result<Ticker, Investidor10Error>)
    ensures
        ticker == if as_ticker is Ok {
            as_ticker
        } else {
            as_fii
        },
{
    match as_ticker {
        Ok(found) => Ok(found),
        Err(_) => as_fii,
    }
}

} // verus!
