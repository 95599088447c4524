//! The trades of one ticker and what they add up to: the net position and
//! the average purchase price.

use super::event::Event;
use vstd::prelude::*;

verus! {

/// The sum of `measure` over `events`.
pub open spec fn total(events: Seq<Event>, measure: spec_fn(Event) -> int) -> int
    decreases events.len(),
{
    if events.len() == 0 {
        0
    } else {
        total(events.drop_last(), measure) + measure(events.last())
    }
}

/// The number of units bought in `events`.
pub open spec fn bought_amount(events: Seq<Event>) -> int {
    total(events, |event: Event| event.bought())
}

/// The number of units sold in `events`.
pub open spec fn sold_amount(events: Seq<Event>) -> int {
    total(events, |event: Event| event.sold())
}

/// The money spent on the purchases in `events`, in hundredths.
pub open spec fn bought_cost(events: Seq<Event>) -> int {
    total(events, |event: Event| event.spent())
}

/// The units still held after `events`: what was bought less what was sold.
pub open spec fn net_amount(events: Seq<Event>) -> int {
    bought_amount(events) - sold_amount(events)
}

/// The average price paid per unit bought in `events`: the money spent on
/// the purchases over the units bought, and undefined where no units were
/// bought on balance.
pub open spec fn average_of(events: Seq<Event>) -> AveragePrice {
    if bought_amount(events) == 0 {
        AveragePrice::Undefined
    } else {
        AveragePrice::Ratio {
            cost: bought_cost(events) as i128,
            amount: bought_amount(events) as i128,
        }
    }
}

/// Appending one event adds its measure to the total.
pub proof fn lemma_total_push(events: Seq<Event>, event: Event, measure: spec_fn(Event) -> int)
    ensures
        total(events.push(event), measure) == total(events, measure) + measure(event),
{
    assert(events.push(event).drop_last() =~= events);
}

/// One more event adds what it bought, sold and spent to the sums.
pub proof fn lemma_sums_push(events: Seq<Event>, event: Event)
    ensures
        bought_amount(events.push(event)) == bought_amount(events) + event.bought(),
        sold_amount(events.push(event)) == sold_amount(events) + event.sold(),
        bought_cost(events.push(event)) == bought_cost(events) + event.spent(),
        net_amount(events.push(event)) == net_amount(events) + event.bought() - event.sold(),
{
    lemma_total_push(events, event, |event: Event| event.bought());
    lemma_total_push(events, event, |event: Event| event.sold());
    lemma_total_push(events, event, |event: Event| event.spent());
}

/// A total lies between the bounds of its terms, times their number.
pub proof fn lemma_total_bounds(
    events: Seq<Event>,
    measure: spec_fn(Event) -> int,
    low: int,
    high: int,
)
    requires
        forall|event: Event| low <= #[trigger] measure(event) <= high,
    ensures
        events.len() * low <= total(events, measure) <= events.len() * high,
    decreases events.len(),
{
    if events.len() > 0 {
        lemma_total_bounds(events.drop_last(), measure, low, high);
        assert(events.len() * low == (events.len() - 1) * low + low) by (nonlinear_arith);
        assert(events.len() * high == (events.len() - 1) * high + high) by (nonlinear_arith);
    }
}

/// No amount and no price is larger in magnitude than this.
pub open spec fn amount_limit() -> int {
    0x8000_0000
}

/// No amount times a price is larger in magnitude than this.
pub open spec fn cost_limit() -> int {
    0x4000_0000_0000_0000
}

/// The sums over any sequence that fits in memory fit in an `i128`.
pub proof fn lemma_sums_fit(events: Seq<Event>)
    requires
        events.len() <= usize::MAX,
    ensures
        i128::MIN <= bought_amount(events) <= i128::MAX,
        i128::MIN <= sold_amount(events) <= i128::MAX,
        i128::MIN <= net_amount(events) <= i128::MAX,
        i128::MIN <= bought_cost(events) <= i128::MAX,
{
    let bought = |event: Event| event.bought();
    let sold = |event: Event| event.sold();
    let spent = |event: Event| event.spent();
    assert forall|event: Event| -cost_limit() <= #[trigger] spent(event) <= cost_limit() by {
        let amount = event.spec_amount() as int;
        let price = event.spec_price() as int;
        assert(-0x4000_0000_0000_0000 <= amount * price <= 0x4000_0000_0000_0000)
            by (nonlinear_arith)
            requires
                -0x8000_0000 <= amount < 0x8000_0000,
                -0x8000_0000 <= price < 0x8000_0000,
        ;
    }
    lemma_total_bounds(events, bought, -amount_limit(), amount_limit());
    lemma_total_bounds(events, sold, -amount_limit(), amount_limit());
    lemma_total_bounds(events, spent, -cost_limit(), cost_limit());
    let n = events.len() as int;
    assert(n * amount_limit() <= 0x1_0000_0000_0000_0000 * 0x8000_0000) by (nonlinear_arith)
        requires
            0 <= n <= 0xffff_ffff_ffff_ffff,
            amount_limit() == 0x8000_0000,
    ;
    assert(n * cost_limit() <= 0x1_0000_0000_0000_0000 * 0x4000_0000_0000_0000)
        by (nonlinear_arith)
        requires
            0 <= n <= 0xffff_ffff_ffff_ffff,
            cost_limit() == 0x4000_0000_0000_0000,
    ;
    assert(n * (-amount_limit()) == -(n * amount_limit())) by (nonlinear_arith);
    assert(n * (-cost_limit()) == -(n * cost_limit())) by (nonlinear_arith);
}

/// The average price paid for the units bought: the money spent on
/// purchases over the number of units bought, kept as an exact ratio in
/// hundredths per unit. Sales take no part in it.
///
/// It is `Undefined` when the units bought add up to zero, and so whenever
/// there is no purchase at all.
#[derive(Debug, Clone, Copy, PartialEq, Eq, Structural)]
pub enum AveragePrice {
    Undefined,
    Ratio { cost: i128, amount: i128 },
}

/// What a position says, in mathematical terms.
pub struct Holding {
    pub code: Seq<char>,
    pub current_amount: int,
    pub average_price: AveragePrice,
}

/// The holding that `events` amount to for the ticker `name`: one only if
/// more units were bought than sold.
pub open spec fn holding_of(name: Seq<char>, events: Seq<Event>) -> Option<Holding> {
    if net_amount(events) >= 1 {
        Some(
            Holding {
                code: name,
                current_amount: net_amount(events),
                average_price: average_of(events),
            },
        )
    } else {
        None
    }
}

/// What an optional position says.
pub open spec fn said_by(position: Option<Position<'_>>) -> Option<Holding> {
    match position {
        Some(held) => Some(held@),
        None => None,
    }
}

/// The holding of one ticker: its code, the units held, and the average
/// price paid for what was bought.
#[derive(Debug)]
pub struct Position<'a> {
    code: &'a str,
    current_amount: i128,
    average_price: AveragePrice,
}

impl<'a> View for Position<'a> {
    type V = Holding;

    closed spec fn view(&self) -> Holding {
        Holding {
            code: self.code@,
            current_amount: self.current_amount as int,
            average_price: self.average_price,
        }
    }
}

impl<'a> Position<'a> {
    /// A position is of units that are held: of one at least.
    #[verifier::type_invariant]
    closed spec fn is_held(&self) -> bool {
        self.current_amount >= 1
    }

    /// The ticker code.
    pub fn code(&self) -> (code: &'a str)
        ensures
            code@ == self@.code,
    {
        self.code
    }

    /// The units held: one at least.
    pub fn current_amount(&self) -> (amount: i128)
        ensures
            amount == self@.current_amount,
            amount >= 1,
    {
        proof {
            use_type_invariant(self);
        }
        self.current_amount
    }

    /// The average price paid for the units bought.
    pub fn average_price(&self) -> (average: AveragePrice)
        ensures
            average == self@.average_price,
    {
        self.average_price
    }
}

/// A read-only view of one ticker: its code and the events recorded for it,
/// in the order in which they were recorded.
#[derive(Debug)]
pub struct WalletTicker<'a> {
    name: &'a str,
    events: &'a [Event],
}

impl<'a> WalletTicker<'a> {
    /// The ticker code.
    pub closed spec fn spec_name(&self) -> Seq<char> {
        self.name@
    }

    /// The events of the ticker.
    pub closed spec fn spec_events(&self) -> Seq<Event> {
        self.events@
    }

    /// Whether the view is one that a wallet hands out: it has events, and
    /// every one of them is recorded for its own code.
    pub open spec fn is_filed(&self) -> bool {
        &&& self.spec_events().len() > 0
        &&& forall|i: int|
            0 <= i < self.spec_events().len() ==> (#[trigger] self.spec_events()[i]).spec_code()
                == self.spec_name()
    }

    /// Whether units of the ticker are held: more were bought than sold.
    pub open spec fn holds(&self) -> bool {
        net_amount(self.spec_events()) >= 1
    }

    pub fn new(name: &'a str, events: &'a [Event]) -> (ticker: Self)
        ensures
            ticker.spec_name() == name@,
            ticker.spec_events() == events@,
    {
        Self { name, events }
    }

    pub fn name(&self) -> (name: &'a str)
        ensures
            name@ == self.spec_name(),
    {
        self.name
    }

    pub fn events(&self) -> (events: &'a [Event])
        ensures
            events@ == self.spec_events(),
    {
        self.events
    }

    /// The average price paid per unit bought. Sales are left out of both
    /// the money spent and the units counted.
    pub fn average_price(&self) -> (average: AveragePrice)
        ensures
            average == average_of(self.spec_events()),
            average matches AveragePrice::Ratio { cost, amount } ==> {
                &&& cost == bought_cost(self.spec_events())
                &&& amount == bought_amount(self.spec_events())
            },
    {
        let ghost events = self.events@;
        let count: usize = self.events.len();
        let mut amount: i128 = 0;
        let mut cost: i128 = 0;
        let mut i: usize = 0;
        while i < count
            invariant
                events == self.events@,
                i <= count == events.len(),
                amount == bought_amount(events.take(i as int)),
                cost == bought_cost(events.take(i as int)),
            decreases count - i,
        {
            proof {
                assert(events.take(i + 1) =~= events.take(i as int).push(events[i as int]));
                lemma_sums_push(events.take(i as int), events[i as int]);
                lemma_sums_fit(events.take(i + 1));
            }
            match &self.events[i] {
                Event::Buy(_, transaction) => {
                    let units: i128 = transaction.amount() as i128;
                    let price: i128 = transaction.price() as i128;
                    assert(-cost_limit() <= units * price <= cost_limit()) by (nonlinear_arith)
                        requires
                            -amount_limit() <= units < amount_limit(),
                            -amount_limit() <= price < amount_limit(),
                    ;
                    amount = amount + units;
                    cost = cost + units * price;
                },
                Event::Sell(_, _) => {},
            }
            i = i + 1;
        }
        assert(events.take(i as int) =~= events);
        if amount == 0 {
            AveragePrice::Undefined
        } else {
            AveragePrice::Ratio { cost, amount }
        }
    }

    /// The holding of the ticker: `Some` exactly when the units bought
    /// exceed the units sold. A ticker that was sold out, or oversold, gives
    /// `None`.
    pub fn position(&self) -> (position: Option<Position<'a>>)
        ensures
            said_by(position) == holding_of(self.spec_name(), self.spec_events()),
    {
        let ghost events = self.events@;
        let count: usize = self.events.len();
        let mut amount: i128 = 0;
        let mut i: usize = 0;
        while i < count
            invariant
                events == self.events@,
                i <= count == events.len(),
                amount == net_amount(events.take(i as int)),
            decreases count - i,
        {
            proof {
                assert(events.take(i + 1) =~= events.take(i as int).push(events[i as int]));
                lemma_sums_push(events.take(i as int), events[i as int]);
                lemma_sums_fit(events.take(i + 1));
            }
            match &self.events[i] {
                Event::Sell(_, transaction) => {
                    amount = amount - transaction.amount() as i128;
                },
                Event::Buy(_, transaction) => {
                    amount = amount + transaction.amount() as i128;
                },
            }
            i = i + 1;
        }
        assert(events.take(i as int) =~= events);
        if amount >= 1 {
            Some(
                Position {
                    code: self.name,
                    current_amount: amount,
                    average_price: self.average_price(),
                },
            )
        } else {
            None
        }
    }
}

} // verus!
