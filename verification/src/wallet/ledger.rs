//! The wallet itself: every event, filed under its ticker code.

use super::event::{Code, Event};
use super::ticker::{net_amount, WalletTicker};
use crate::text::same_text;
use vstd::prelude::*;

verus! {

/// The test "is recorded for `code`".
pub open spec fn has_code(code: Seq<char>) -> spec_fn(Event) -> bool {
    |event: Event| event.spec_code() == code
}

/// The events of `events` that are recorded for `code`, each once and in
/// the order in which they stand in `events`.
pub open spec fn events_of(events: Seq<Event>, code: Seq<char>) -> Seq<Event> {
    events.filter(has_code(code))
}

/// Whether some event of `events` is recorded for `code`.
pub open spec fn mentions(events: Seq<Event>, code: Seq<char>) -> bool {
    exists|i: int| 0 <= i < events.len() && (#[trigger] events[i]).spec_code() == code
}

/// `events` grouped by code: a code is a key when some event is recorded
/// for it, and its value is then the events recorded for it.
pub open spec fn grouped(events: Seq<Event>) -> Map<Seq<char>, Seq<Event>> {
    Map::new(
        |code: Seq<char>| mentions(events, code),
        |code: Seq<char>| events_of(events, code),
    )
}

/// The codes of `events`, each once, in the order of their first event.
pub open spec fn codes_of(events: Seq<Event>) -> Seq<Seq<char>>
    decreases events.len(),
{
    if events.len() == 0 {
        Seq::empty()
    } else {
        let earlier = codes_of(events.drop_last());
        let code = events.last().spec_code();
        if earlier.contains(code) {
            earlier
        } else {
            earlier.push(code)
        }
    }
}

/// One more event joins the events of its own code and leaves those of
/// every other code as they were.
pub proof fn lemma_events_of_push(events: Seq<Event>, event: Event, code: Seq<char>)
    ensures
        events_of(events.push(event), code) == if event.spec_code() == code {
            events_of(events, code).push(event)
        } else {
            events_of(events, code)
        },
{
    reveal(Seq::filter);
    assert(events.push(event).drop_last() =~= events);
}

/// One more event adds its code to the codes unless it is there already.
pub proof fn lemma_codes_of_push(events: Seq<Event>, event: Event)
    ensures
        codes_of(events.push(event)) == if codes_of(events).contains(event.spec_code()) {
            codes_of(events)
        } else {
            codes_of(events).push(event.spec_code())
        },
{
    assert(events.push(event).drop_last() =~= events);
}

/// The codes of `events` hold no code twice, and hold exactly the codes
/// for which `events` has an event.
pub proof fn lemma_codes_of(events: Seq<Event>)
    ensures
        codes_of(events).no_duplicates(),
        forall|code: Seq<char>| #[trigger] codes_of(events).contains(code) <==> mentions(events, code),
    decreases events.len(),
{
    if events.len() > 0 {
        let earlier = events.drop_last();
        let last = events.last();
        lemma_codes_of(earlier);
        assert forall|code: Seq<char>| #[trigger]
            codes_of(events).contains(code) <==> mentions(events, code) by {
            if mentions(earlier, code) {
                let i = choose|i: int| 0 <= i < earlier.len() && (#[trigger] earlier[i]).spec_code() == code;
                assert(events[i].spec_code() == code);
            }
            if last.spec_code() == code {
                assert(events[events.len() - 1].spec_code() == code);
            }
            if mentions(events, code) {
                let i = choose|i: int| 0 <= i < events.len() && (#[trigger] events[i]).spec_code() == code;
                if i < events.len() - 1 {
                    assert(earlier[i].spec_code() == code);
                }
            }
            if !codes_of(earlier).contains(last.spec_code()) {
                let pushed = codes_of(earlier).push(last.spec_code());
                assert(pushed[pushed.len() - 1] == last.spec_code());
                if pushed.contains(code) && code != last.spec_code() {
                    let k = choose|k: int| 0 <= k < pushed.len() && pushed[k] == code;
                    assert(codes_of(earlier)[k] == code);
                }
                if codes_of(earlier).contains(code) {
                    let k = choose|k: int| 0 <= k < codes_of(earlier).len() && codes_of(earlier)[k] == code;
                    assert(pushed[k] == code);
                }
            }
        }
    }
}

/// No event for a code, no events of that code.
pub proof fn lemma_events_of_none(events: Seq<Event>, code: Seq<char>)
    requires
        !mentions(events, code),
    ensures
        events_of(events, code) == Seq::<Event>::empty(),
{
    assert forall|i: int| 0 <= i < events.len() implies !has_code(code)(#[trigger] events[i]) by {
        assert(events[i].spec_code() != code);
    }
    events.lemma_all_neg_filter_empty(has_code(code));
    assert(events_of(events, code) =~= Seq::<Event>::empty());
}

/// The events of one code and their code, as the wallet stores them.
pub type Transactions = Vec<(Code, Vec<Event>)>;

/// The codes of stored groups, in storage order.
spec fn group_codes(groups: Seq<(Code, Vec<Event>)>) -> Seq<Seq<char>> {
    Seq::new(groups.len(), |g: int| groups[g].0@)
}

/// The groups hold exactly the events of `seen`: one group for each code,
/// in the order of the codes' first events, with the events of that code.
spec fn filed(groups: Seq<(Code, Vec<Event>)>, seen: Seq<Event>) -> bool {
    &&& group_codes(groups) == codes_of(seen)
    &&& forall|g: int|
        0 <= g < groups.len() ==> (#[trigger] groups[g]).1@ == events_of(seen, groups[g].0@)
}

/// What holds of the groups of every wallet: no code has two groups, no
/// group is empty, and every event stands in the group of its own code.
spec fn sound(groups: Seq<(Code, Vec<Event>)>) -> bool {
    &&& group_codes(groups).no_duplicates()
    &&& forall|g: int| 0 <= g < groups.len() ==> (#[trigger] groups[g]).1@.len() > 0
    &&& forall|g: int, i: int|
        0 <= g < groups.len() && 0 <= i < groups[g].1@.len() ==> (#[trigger] groups[g].1@[i]).spec_code()
            == groups[g].0@
}

/// The groups as a map from each code to its events.
spec fn as_map(groups: Seq<(Code, Vec<Event>)>) -> Map<Seq<char>, Seq<Event>> {
    Map::new(
        |code: Seq<char>| group_codes(groups).contains(code),
        |code: Seq<char>| groups[group_codes(groups).index_of(code)].1@,
    )
}

/// Groups that hold exactly the events of `events` are sound, and as a map
/// they are `events` grouped by code.
proof fn lemma_filed(groups: Seq<(Code, Vec<Event>)>, events: Seq<Event>)
    requires
        filed(groups, events),
    ensures
        sound(groups),
        as_map(groups) == grouped(events),
{
    lemma_codes_of(events);
    let codes = group_codes(groups);
    assert forall|g: int| 0 <= g < groups.len() implies (#[trigger] groups[g]).1@.len() > 0 by {
        let code = groups[g].0@;
        assert(codes[g] == code);
        assert(codes.contains(code));
        let i = choose|i: int| 0 <= i < events.len() && (#[trigger] events[i]).spec_code() == code;
        assert(has_code(code)(events[i]));
        events.lemma_filter_contains(has_code(code), i);
    }
    assert forall|g: int, i: int| 0 <= g < groups.len() && 0 <= i < groups[g].1@.len() implies (
    #[trigger] groups[g].1@[i]).spec_code() == groups[g].0@ by {
        events.lemma_filter_pred(has_code(groups[g].0@), i);
    }
    assert forall|code: Seq<char>| #[trigger] codes.contains(code) implies as_map(groups)[code]
        == events_of(events, code) by {
        let g = codes.index_of(code);
        assert(codes[g] == code);
    }
    assert(as_map(groups) =~= grouped(events));
}

/// Picking from codes without repeats gives codes without repeats: the
/// codes that were there and that the test picks, and no others.
proof fn lemma_picked(codes: Seq<Seq<char>>, pick: spec_fn(Seq<char>) -> bool)
    requires
        codes.no_duplicates(),
    ensures
        codes.filter(pick).no_duplicates(),
        forall|code: Seq<char>| #[trigger]
            codes.filter(pick).contains(code) <==> codes.contains(code) && pick(code),
    decreases codes.len(),
{
    reveal(Seq::filter);
    if codes.len() > 0 {
        let earlier = codes.drop_last();
        let last = codes.last();
        lemma_picked(earlier, pick);
        let picked = earlier.filter(pick);
        assert forall|code: Seq<char>| codes.contains(code) <==> earlier.contains(code) || code
            == last by {
            if codes.contains(code) {
                let i = choose|i: int| 0 <= i < codes.len() && codes[i] == code;
                if i < earlier.len() {
                    assert(earlier[i] == code);
                }
            }
            if earlier.contains(code) {
                let i = choose|i: int| 0 <= i < earlier.len() && earlier[i] == code;
                assert(codes[i] == code);
            }
            assert(codes[codes.len() - 1] == last);
        }
        assert(!earlier.contains(last)) by {
            if earlier.contains(last) {
                let i = choose|i: int| 0 <= i < earlier.len() && earlier[i] == last;
                assert(codes[i] == codes[codes.len() - 1]);
            }
        }
        if pick(last) {
            let all = picked.push(last);
            assert(all[all.len() - 1] == last);
            assert forall|code: Seq<char>| #[trigger]
                all.contains(code) <==> codes.contains(code) && pick(code) by {
                if all.contains(code) {
                    let k = choose|k: int| 0 <= k < all.len() && all[k] == code;
                    if k < picked.len() {
                        assert(picked[k] == code);
                        assert(picked.contains(code));
                    }
                }
                if picked.contains(code) {
                    let k = choose|k: int| 0 <= k < picked.len() && picked[k] == code;
                    assert(all[k] == code);
                }
            }
            assert forall|j: int, k: int| 0 <= j < all.len() && 0 <= k < all.len() && j
                != k implies all[j] != all[k] by {
                if j < picked.len() && k < picked.len() {
                    assert(picked[j] != picked[k]);
                } else if j < picked.len() {
                    assert(picked.contains(picked[j]));
                } else if k < picked.len() {
                    assert(picked.contains(picked[k]));
                }
            }
        }
    }
}

/// Every event that a wallet was built from, filed under its ticker code.
///
/// A wallet is built once and never changes. Each code that has an event
/// has one group; a group holds the events of its code in the order in
/// which they were given.
pub struct Wallet {
    transactions: Transactions,
}

impl View for Wallet {
    type V = Map<Seq<char>, Seq<Event>>;

    /// From each code in the wallet to the events recorded for it.
    closed spec fn view(&self) -> Map<Seq<char>, Seq<Event>> {
        as_map(self.transactions@)
    }
}

impl Wallet {
    /// The codes in the wallet, in the order in which `wealth` walks them.
    pub closed spec fn codes(&self) -> Seq<Seq<char>> {
        group_codes(self.transactions@)
    }

    /// The test "units of this code are held": more were bought than sold.
    pub open spec fn is_held(&self) -> spec_fn(Seq<char>) -> bool {
        |code: Seq<char>| net_amount(self@[code]) >= 1
    }

    /// The codes that `wealth` lists: those of which units are held, in the
    /// order of `codes`.
    pub open spec fn held_codes(&self) -> Seq<Seq<char>> {
        self.codes().filter(self.is_held())
    }

    #[verifier::type_invariant]
    closed spec fn well_formed(&self) -> bool {
        sound(self.transactions@)
    }

    /// Files every event under its code, in one pass over `transactions`.
    /// Nothing is dropped, merged or checked.
    pub fn from_transactions(transactions: Vec<Event>) -> (wallet: Wallet)
        ensures
            wallet@ == grouped(transactions@),
            wallet.codes() == codes_of(transactions@),
    {
        let ghost events = transactions@;
        let mut groups: Transactions = Vec::new();
        proof {
            assert(events.take(0) =~= Seq::<Event>::empty());
            assert(group_codes(groups@) =~= Seq::<Seq<char>>::empty());
        }
        for event in iter: transactions.into_iter()
            invariant
                iter.seq() == events,
                filed(groups@, events.take(iter.index() as int)),
        {
            let ghost seen = events.take(iter.index() as int);
            let ghost filed_before = groups@;
            let ghost added = event;
            proof {
                assert(events.take(iter.index() + 1) =~= seen.push(added));
                lemma_codes_of_push(seen, added);
                lemma_codes_of(seen);
                assert forall|g: int| 0 <= g < filed_before.len() implies events_of(
                    seen.push(added),
                    (#[trigger] filed_before[g]).0@,
                ) == if filed_before[g].0@ == added.spec_code() {
                    filed_before[g].1@.push(added)
                } else {
                    filed_before[g].1@
                } by {
                    lemma_events_of_push(seen, added, filed_before[g].0@);
                }
            }
            let found = Self::find(&groups, event.code());
            match found {
                Some(g) => {
                    groups[g].1.push(event);
                    proof {
                        assert(group_codes(filed_before)[g as int] == added.spec_code());
                        assert(group_codes(groups@) =~= group_codes(filed_before));
                        assert forall|k: int| 0 <= k < groups@.len() implies (#[trigger] groups@[k]).1@
                            == events_of(seen.push(added), groups@[k].0@) by {
                            if k != g {
                                assert(group_codes(filed_before)[k] != group_codes(filed_before)[g as int]);
                            }
                        }
                    }
                },
                None => {
                    let code = event.code().to_owned();
                    let mut first: Vec<Event> = Vec::new();
                    first.push(event);
                    groups.push((code, first));
                    proof {
                        lemma_events_of_push(seen, added, added.spec_code());
                        lemma_events_of_none(seen, added.spec_code());
                        assert(first@ =~= Seq::<Event>::empty().push(added));
                        assert(group_codes(groups@) =~= group_codes(filed_before).push(
                            added.spec_code(),
                        ));
                        assert forall|k: int| 0 <= k < groups@.len() implies (#[trigger] groups@[k]).1@
                            == events_of(seen.push(added), groups@[k].0@) by {
                            if k < filed_before.len() {
                                assert(groups@[k] == filed_before[k]);
                                assert(group_codes(filed_before)[k] == filed_before[k].0@);
                            }
                        }
                    }
                },
            }
        }
        proof {
            assert(events.take(events.len() as int) =~= events);
            lemma_filed(groups@, events);
        }
        Wallet { transactions: groups }
    }

    /// The number of codes in the wallet. No code is counted twice, for
    /// none stands twice among the codes.
    pub fn len(&self) -> (count: usize)
        ensures
            count == self.codes().len(),
            count == self@.dom().len(),
            self.codes().no_duplicates(),
            self.codes().to_set() == self@.dom(),
    {
        proof {
            use_type_invariant(self);
            self.codes().unique_seq_to_set();
            assert(self@.dom() =~= self.codes().to_set());
        }
        self.transactions.len()
    }

    /// The view of the ticker `key`, if the wallet has any event for that
    /// very code, whether or not units of it are still held.
    pub fn ticker<'a>(&'a self, key: &str) -> (ticker: Option<WalletTicker<'a>>)
        ensures
            ticker is Some <==> self@.dom().contains(key@),
            ticker matches Some(found) ==> {
                &&& found.spec_name() == key@
                &&& found.spec_events() == self@[key@]
                &&& found.is_filed()
            },
    {
        match Self::find(&self.transactions, key) {
            Some(g) => {
                proof {
                    use_type_invariant(self);
                    assert(self.codes()[g as int] == key@);
                }
                Some(self.group(g))
            },
            None => None,
        }
    }

    /// The views of the tickers of which units are held, each once, in the
    /// order of `codes`. Tickers that were sold out or oversold are left out.
    pub fn wealth<'a>(&'a self) -> (tickers: Vec<WalletTicker<'a>>)
        ensures
            tickers@.len() == self.held_codes().len(),
            forall|k: int|
                0 <= k < tickers@.len() ==> {
                    &&& (#[trigger] tickers@[k]).spec_name() == self.held_codes()[k]
                    &&& tickers@[k].spec_events() == self@[self.held_codes()[k]]
                    &&& tickers@[k].is_filed()
                    &&& tickers@[k].holds()
                },
            self.held_codes().no_duplicates(),
            forall|code: Seq<char>| #[trigger]
                self.held_codes().contains(code) <==> self@.dom().contains(code) && net_amount(
                    self@[code],
                ) >= 1,
    {
        let ghost codes = self.codes();
        proof {
            use_type_invariant(self);
            lemma_picked(codes, self.is_held());
        }
        let mut tickers: Vec<WalletTicker<'a>> = Vec::new();
        let mut g: usize = 0;
        proof {
            reveal(Seq::filter);
            assert(codes.take(0) =~= Seq::<Seq<char>>::empty());
        }
        while g < self.transactions.len()
            invariant
                codes == self.codes(),
                g <= self.transactions@.len() == codes.len(),
                tickers@.len() == codes.take(g as int).filter(self.is_held()).len(),
                forall|k: int|
                    0 <= k < tickers@.len() ==> {
                        &&& (#[trigger] tickers@[k]).spec_name() == codes.take(g as int).filter(
                            self.is_held(),
                        )[k]
                        &&& tickers@[k].spec_events() == self@[tickers@[k].spec_name()]
                        &&& tickers@[k].is_filed()
                        &&& tickers@[k].holds()
                    },
            decreases self.transactions@.len() - g,
        {
            let ticker = self.group(g);
            proof {
                reveal(Seq::filter);
                assert(codes.take(g + 1).drop_last() =~= codes.take(g as int));
            }
            if ticker.position().is_some() {
                tickers.push(ticker);
            }
            g = g + 1;
        }
        assert(codes.take(g as int) =~= codes);
        tickers
    }

    /// The view of the group at place `g`.
    fn group<'a>(&'a self, g: usize) -> (ticker: WalletTicker<'a>)
        requires
            g < self.codes().len(),
        ensures
            ticker.spec_name() == self.codes()[g as int],
            ticker.spec_events() == self@[self.codes()[g as int]],
            ticker.is_filed(),
    {
        proof {
            use_type_invariant(self);
            let code = self.codes()[g as int];
            assert(self.codes().contains(code));
            assert(self.codes().index_of(code) == g);
            assert(self.transactions@[g as int].1@.len() > 0);
            assert forall|i: int| 0 <= i < self.transactions@[g as int].1@.len() implies (
            #[trigger] self.transactions@[g as int].1@[i]).spec_code() == code by {}
        }
        WalletTicker::new(self.transactions[g].0.as_str(), self.transactions[g].1.as_slice())
    }

    /// The place of the group of `code`, if there is one.
    fn find(groups: &Transactions, code: &str) -> (found: Option<usize>)
        ensures
            match found {
                Some(g) => g < groups@.len() && groups@[g as int].0@ == code@,
                None => !group_codes(groups@).contains(code@),
            },
    {
        let mut g: usize = 0;
        while g < groups.len()
            invariant
                g <= groups@.len(),
                forall|k: int| 0 <= k < g ==> groups@[k].0@ != code@,
            decreases groups@.len() - g,
        {
            if same_text(groups[g].0.as_str(), code) {
                return Some(g);
            }
            g = g + 1;
        }
        None
    }
}

} // verus!
