//! What holds of every wallet and of every sequence of events.

use super::event::Event;
use super::ledger::{events_of, grouped, has_code, lemma_events_of_push, mentions};
use super::ticker::{
    average_of, bought_amount, bought_cost, holding_of, lemma_sums_push, net_amount, said_by,
    sold_amount, total, AveragePrice, Position, WalletTicker,
};
use vstd::prelude::*;

verus! {

/// The places in `events` of the events recorded for `code`, rising.
pub open spec fn places_of(events: Seq<Event>, code: Seq<char>) -> Seq<int>
    decreases events.len(),
{
    if events.len() == 0 {
        Seq::empty()
    } else {
        let earlier = places_of(events.drop_last(), code);
        if events.last().spec_code() == code {
            earlier.push(events.len() - 1)
        } else {
            earlier
        }
    }
}

/// Grouping files every event under its own code: the code of each event
/// is a key of the grouping, and the event stands among the events of that
/// key.
pub proof fn lemma_every_event_is_filed(events: Seq<Event>, i: int)
    requires
        0 <= i < events.len(),
    ensures
        grouped(events).dom().contains(events[i].spec_code()),
        grouped(events)[events[i].spec_code()].contains(events[i]),
{
    let code = events[i].spec_code();
    assert(mentions(events, code));
    assert(has_code(code)(events[i]));
    events.lemma_filter_contains(has_code(code), i);
}

/// Every event filed under a code is an event for that code, and a code is
/// a key only if it has an event.
pub proof fn lemma_groups_hold_their_own(events: Seq<Event>, code: Seq<char>)
    requires
        grouped(events).dom().contains(code),
    ensures
        grouped(events)[code].len() > 0,
        forall|k: int|
            0 <= k < grouped(events)[code].len() ==> (#[trigger] grouped(events)[code][k]).spec_code()
                == code,
{
    let i = choose|i: int| 0 <= i < events.len() && (#[trigger] events[i]).spec_code() == code;
    lemma_every_event_is_filed(events, i);
    assert forall|k: int| 0 <= k < grouped(events)[code].len() implies (#[trigger] grouped(
        events,
    )[code][k]).spec_code() == code by {
        events.lemma_filter_pred(has_code(code), k);
    }
}

/// The events filed under a code are the events for that code, each
/// exactly once and in the order in which they were given: they are what
/// stands in `events` at the places of that code, and those places rise
/// strictly and leave out no event of the code.
pub proof fn lemma_group_keeps_each_once_in_order(events: Seq<Event>, code: Seq<char>)
    ensures
        places_of(events, code).len() == events_of(events, code).len(),
        forall|k: int|
            0 <= k < places_of(events, code).len() ==> {
                &&& 0 <= #[trigger] places_of(events, code)[k] < events.len()
                &&& events[places_of(events, code)[k]] == events_of(events, code)[k]
                &&& events[places_of(events, code)[k]].spec_code() == code
            },
        forall|j: int, k: int|
            0 <= j < k < places_of(events, code).len() ==> #[trigger] places_of(events, code)[j]
                < #[trigger] places_of(events, code)[k],
        forall|i: int|
            0 <= i < events.len() && (#[trigger] events[i]).spec_code() == code ==> places_of(
                events,
                code,
            ).contains(i),
    decreases events.len(),
{
    if events.len() > 0 {
        let earlier = events.drop_last();
        let last = events.last();
        lemma_group_keeps_each_once_in_order(earlier, code);
        assert(earlier.push(last) =~= events);
        lemma_events_of_push(earlier, last, code);
        let places = places_of(events, code);
        let before = places_of(earlier, code);
        assert forall|k: int| 0 <= k < places.len() implies {
            &&& 0 <= #[trigger] places[k] < events.len()
            &&& events[places[k]] == events_of(events, code)[k]
            &&& events[places[k]].spec_code() == code
        } by {
            if k < before.len() {
                assert(places[k] == before[k]);
                assert(events[before[k]] == earlier[before[k]]);
            }
        }
        assert forall|j: int, k: int| 0 <= j < k < places.len() implies #[trigger] places[j]
            < #[trigger] places[k] by {
            if k < before.len() {
                assert(places[j] == before[j] && places[k] == before[k]);
            } else {
                assert(places[j] == before[j]);
            }
        }
        assert forall|i: int| 0 <= i < events.len() && (#[trigger] events[i]).spec_code()
            == code implies places.contains(i) by {
            if i < earlier.len() {
                assert(earlier[i].spec_code() == code);
                let k = choose|k: int| 0 <= k < before.len() && before[k] == i;
                assert(places[k] == i);
            } else {
                assert(places[places.len() - 1] == i);
            }
        }
    }
}

/// A code for which no event was given is no key of the grouping, and so
/// an empty sequence of events groups to nothing.
pub proof fn lemma_unknown_code_is_no_key(events: Seq<Event>, code: Seq<char>)
    ensures
        !mentions(events, code) ==> !grouped(events).dom().contains(code),
        events.len() == 0 ==> !grouped(events).dom().contains(code),
{
}

/// The purchases among `events`, in the order in which they stand there.
pub open spec fn purchases(events: Seq<Event>) -> Seq<Event> {
    events.filter(|event: Event| event is Buy)
}

/// Sales count for nothing in what was bought: the units bought, the money
/// spent and the average price are those of the purchases alone.
pub proof fn lemma_average_ignores_sales(events: Seq<Event>)
    ensures
        bought_amount(events) == bought_amount(purchases(events)),
        bought_cost(events) == bought_cost(purchases(events)),
        average_of(events) == average_of(purchases(events)),
    decreases events.len(),
{
    reveal(Seq::filter);
    if events.len() > 0 {
        let earlier = events.drop_last();
        let last = events.last();
        lemma_average_ignores_sales(earlier);
        if last is Buy {
            lemma_sums_push(purchases(earlier), last);
        }
    }
}

/// With two purchases, of `q1` units at `p1` and of `q2` units at `p2`, the
/// average price is `(q1 * p1 + q2 * p2) / (q1 + q2)`, whatever sales stand
/// before, between or after them.
pub proof fn lemma_average_of_two_purchases(events: Seq<Event>, first: Event, second: Event)
    requires
        purchases(events) == seq![first, second],
    ensures
        bought_cost(events) == first.spec_amount() * first.spec_price() + second.spec_amount()
            * second.spec_price(),
        bought_amount(events) == first.spec_amount() + second.spec_amount(),
        average_of(events) == if first.spec_amount() + second.spec_amount() == 0 {
            AveragePrice::Undefined
        } else {
            AveragePrice::Ratio {
                cost: (first.spec_amount() * first.spec_price() + second.spec_amount()
                    * second.spec_price()) as i128,
                amount: (first.spec_amount() + second.spec_amount()) as i128,
            }
        },
{
    lemma_average_ignores_sales(events);
    let none = Seq::<Event>::empty();
    assert(seq![first, second] =~= none.push(first).push(second));
    assert(first is Buy && second is Buy) by {
        let is_purchase = |event: Event| event is Buy;
        events.lemma_filter_pred(is_purchase, 0);
        events.lemma_filter_pred(is_purchase, 1);
    }
    lemma_sums_push(none, first);
    lemma_sums_push(none.push(first), second);
}

/// Without a purchase the average price is undefined.
pub proof fn lemma_no_purchase_no_average(events: Seq<Event>)
    requires
        forall|i: int| 0 <= i < events.len() ==> (#[trigger] events[i]) is Sell,
    ensures
        bought_amount(events) == 0,
        bought_cost(events) == 0,
        average_of(events) == AveragePrice::Undefined,
    decreases events.len(),
{
    if events.len() > 0 {
        assert(events[events.len() - 1] is Sell);
        lemma_no_purchase_no_average(events.drop_last());
    }
}

/// A sale lowers the units held by its amount and leaves the average price
/// as it was.
pub proof fn lemma_sale_keeps_average(events: Seq<Event>, sale: Event)
    requires
        sale is Sell,
    ensures
        net_amount(events.push(sale)) == net_amount(events) - sale.spec_amount(),
        average_of(events.push(sale)) == average_of(events),
{
    lemma_sums_push(events, sale);
}

/// A purchase raises the units held by its amount, and adds its amount and
/// its cost to what the average price is taken from.
pub proof fn lemma_purchase_counts(events: Seq<Event>, purchase: Event)
    requires
        purchase is Buy,
    ensures
        net_amount(events.push(purchase)) == net_amount(events) + purchase.spec_amount(),
        bought_amount(events.push(purchase)) == bought_amount(events) + purchase.spec_amount(),
        bought_cost(events.push(purchase)) == bought_cost(events) + purchase.spec_amount()
            * purchase.spec_price(),
{
    lemma_sums_push(events, purchase);
}

/// Asking again gives the same answer: what `average_price` and `position`
/// return for a ticker is fixed by its code and its events, so any two
/// answers to either query agree.
pub proof fn lemma_queries_repeat(
    ticker: WalletTicker<'_>,
    first_average: AveragePrice,
    second_average: AveragePrice,
    first_position: Option<Position<'_>>,
    second_position: Option<Position<'_>>,
)
    requires
        first_average == average_of(ticker.spec_events()),
        second_average == average_of(ticker.spec_events()),
        said_by(first_position) == holding_of(ticker.spec_name(), ticker.spec_events()),
        said_by(second_position) == holding_of(ticker.spec_name(), ticker.spec_events()),
    ensures
        first_average == second_average,
        said_by(first_position) == said_by(second_position),
        first_position is Some <==> second_position is Some,
{
}

/// A ticker is held exactly when its position is one: sold out or
/// oversold, it has none.
pub proof fn lemma_held_means_positive(name: Seq<char>, events: Seq<Event>)
    ensures
        holding_of(name, events) is Some <==> bought_amount(events) > sold_amount(events),
        holding_of(name, events) matches Some(holding) ==> holding.current_amount >= 1,
{
}

/// The units held do not depend on the order of the events: the events of
/// two sequences laid end to end add up to the same in either order.
pub proof fn lemma_net_amount_of_joined(left: Seq<Event>, right: Seq<Event>)
    ensures
        net_amount(left + right) == net_amount(left) + net_amount(right),
        net_amount(left + right) == net_amount(right + left),
{
    lemma_total_of_joined(left, right, |event: Event| event.bought());
    lemma_total_of_joined(left, right, |event: Event| event.sold());
    lemma_total_of_joined(right, left, |event: Event| event.bought());
    lemma_total_of_joined(right, left, |event: Event| event.sold());
}

/// The total over two sequences laid end to end is the sum of their totals.
pub proof fn lemma_total_of_joined(
    left: Seq<Event>,
    right: Seq<Event>,
    measure: spec_fn(Event) -> int,
)
    ensures
        total(left + right, measure) == total(left, measure) + total(right, measure),
    decreases right.len(),
{
    if right.len() == 0 {
        assert(left + right =~= left);
    } else {
        lemma_total_of_joined(left, right.drop_last(), measure);
        assert((left + right).drop_last() =~= left + right.drop_last());
    }
}

} // verus!
