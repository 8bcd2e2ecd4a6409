//! Daily returns keyed by date, and the dates that several series share.

use vstd::prelude::*;
use crate::chart::Candle;
use crate::number::Arithmetic;
use crate::number::Number;
use crate::text::text_precedes;

verus! {

/// Texts in strictly ascending order, so without repetition.
pub open spec fn ascending(list: Seq<Seq<char>>) -> bool {
    forall|i: int, j: int|
        0 <= i < j < list.len() ==> #[trigger] crate::text::precedes(list[i], list[j])
}

/// Two ascending lists with the same members are the same list.
pub proof fn lemma_ascending_unique(a: Seq<Seq<char>>, b: Seq<Seq<char>>)
    requires
        ascending(a),
        ascending(b),
        forall|d: Seq<char>| a.contains(d) <==> b.contains(d),
    ensures
        a == b,
    decreases a.len(),
{
    if a.len() == 0 {
        if b.len() > 0 {
            assert(b.contains(b[0]));
        }
        assert(a =~= b);
    } else {
        assert(a.contains(a[0]));
        let k = choose|k: int| 0 <= k < b.len() && b[k] == a[0];
        assert(b.contains(b[0]));
        let l = choose|l: int| 0 <= l < a.len() && a[l] == b[0];
        if k > 0 && l > 0 {
            assert(crate::text::precedes(b[0], b[k]));
            assert(crate::text::precedes(a[0], a[l]));
            crate::text::lemma_precedes_transitive(a[0], b[0], a[0]);
            crate::text::lemma_precedes_irreflexive(a[0]);
        }
        assert(a[0] == b[0]);
        let a1 = a.skip(1);
        let b1 = b.skip(1);
        assert forall|d: Seq<char>| a1.contains(d) implies b1.contains(d) by {
            let i = choose|i: int| 0 <= i < a1.len() && a1[i] == d;
            assert(crate::text::precedes(a[0], a[i + 1]));
            crate::text::lemma_precedes_irreflexive(a[0]);
            assert(a.contains(a[i + 1]));
            let j = choose|j: int| 0 <= j < b.len() && b[j] == d;
            assert(b1[j - 1] == d);
        }
        assert forall|d: Seq<char>| b1.contains(d) implies a1.contains(d) by {
            let i = choose|i: int| 0 <= i < b1.len() && b1[i] == d;
            assert(crate::text::precedes(b[0], b[i + 1]));
            crate::text::lemma_precedes_irreflexive(b[0]);
            assert(b.contains(b[i + 1]));
            let j = choose|j: int| 0 <= j < a.len() && a[j] == d;
            assert(a1[j - 1] == d);
        }
        assert(ascending(a1)) by {
            assert forall|i: int, j: int| 0 <= i < j < a1.len() implies #[trigger]
                crate::text::precedes(a1[i], a1[j]) by {
                assert(crate::text::precedes(a[i + 1], a[j + 1]));
            }
        }
        assert(ascending(b1)) by {
            assert forall|i: int, j: int| 0 <= i < j < b1.len() implies #[trigger]
                crate::text::precedes(b1[i], b1[j]) by {
                assert(crate::text::precedes(b[i + 1], b[j + 1]));
            }
        }
        lemma_ascending_unique(a1, b1);
        assert(a =~= seq![a[0]] + a1);
        assert(b =~= seq![b[0]] + b1);
    }
}

/// The place of `key` in an ascending list: how many members precede it.
fn lower_bound(list: &Vec<String>, key: &str) -> (r: usize)
    requires
        ascending(crate::text::texts(list@)),
    ensures
        r <= list@.len(),
        forall|k: int| 0 <= k < r ==> #[trigger] crate::text::precedes(list@[k]@, key@),
        forall|k: int|
            r <= k < list@.len() ==> !(#[trigger] crate::text::precedes(list@[k]@, key@)),
{
    let ghost all = crate::text::texts(list@);
    let mut low: usize = 0;
    let mut high: usize = list.len();
    while low < high
        invariant
            all == crate::text::texts(list@),
            ascending(all),
            low <= high <= list@.len(),
            forall|k: int| 0 <= k < low ==> #[trigger] crate::text::precedes(list@[k]@, key@),
            forall|k: int|
                high <= k < list@.len() ==> !(#[trigger] crate::text::precedes(list@[k]@, key@)),
        decreases high - low,
    {
        let middle: usize = low + (high - low) / 2;
        if text_precedes(list[middle].as_str(), key) {
            assert forall|k: int| 0 <= k < middle + 1 implies #[trigger] crate::text::precedes(
                list@[k]@,
                key@,
            ) by {
                if k < middle {
                    assert(crate::text::precedes(all[k], all[middle as int]));
                    crate::text::lemma_precedes_transitive(
                        list@[k]@,
                        list@[middle as int]@,
                        key@,
                    );
                }
            }
            low = middle + 1;
        } else {
            assert forall|k: int| middle <= k < list@.len() implies !(
            #[trigger] crate::text::precedes(list@[k]@, key@)) by {
                if middle < k && crate::text::precedes(list@[k]@, key@) {
                    assert(crate::text::precedes(all[middle as int], all[k]));
                    crate::text::lemma_precedes_transitive(
                        list@[middle as int]@,
                        list@[k]@,
                        key@,
                    );
                }
            }
            high = middle;
        }
    }
    low
}

/// Returns keyed by date: the dates in ascending order, each beside its value.
pub struct ReturnMap {
    dates: Vec<String>,
    values: Vec<Number>,
}

/// The map that parallel lists of dates and values stand for.
spec fn listed(dates: Seq<Seq<char>>, values: Seq<Number>) -> Map<Seq<char>, Number> {
    Map::new(
        |d: Seq<char>| dates.contains(d),
        |d: Seq<char>| values[choose|i: int| 0 <= i < dates.len() && dates[i] == d],
    )
}

/// Each date of an ascending list is mapped to the value beside it.
proof fn lemma_listed(dates: Seq<Seq<char>>, values: Seq<Number>, i: int)
    requires
        ascending(dates),
        0 <= i < dates.len(),
    ensures
        listed(dates, values).dom().contains(dates[i]),
        listed(dates, values)[dates[i]] == values[i],
{
    assert(dates.contains(dates[i]));
    let k = choose|k: int| 0 <= k < dates.len() && dates[k] == dates[i];
    crate::text::lemma_precedes_irreflexive(dates[i]);
    if k < i {
        assert(crate::text::precedes(dates[k], dates[i]));
    } else if i < k {
        assert(crate::text::precedes(dates[i], dates[k]));
    }
}

impl View for ReturnMap {
    type V = Map<Seq<char>, Number>;

    closed spec fn view(&self) -> Map<Seq<char>, Number> {
        listed(crate::text::texts(self.dates@), self.values@)
    }
}

/// A new date in its place keeps the list ascending and adds one entry to the map.
proof fn lemma_listed_insert(
    dates: Seq<Seq<char>>,
    values: Seq<Number>,
    at: int,
    date: Seq<char>,
    value: Number,
)
    requires
        ascending(dates),
        dates.len() == values.len(),
        0 <= at <= dates.len(),
        forall|k: int| 0 <= k < at ==> #[trigger] crate::text::precedes(dates[k], date),
        forall|k: int|
            at <= k < dates.len() ==> !(#[trigger] crate::text::precedes(dates[k], date)),
        at == dates.len() || dates[at] != date,
    ensures
        ascending(dates.insert(at, date)),
        listed(dates.insert(at, date), values.insert(at, value)) == listed(dates, values).insert(
            date,
            value,
        ),
{
    let more = dates.insert(at, date);
    let held = values.insert(at, value);
    assert forall|k: int| at <= k < dates.len() implies #[trigger] crate::text::precedes(
        date,
        dates[k],
    ) by {
        crate::text::lemma_precedes_total(date, dates[at]);
        assert(!crate::text::precedes(dates[at], date));
        if at < k {
            assert(crate::text::precedes(dates[at], dates[k]));
            crate::text::lemma_precedes_transitive(date, dates[at], dates[k]);
        }
    }
    assert forall|i: int, j: int| 0 <= i < j < more.len() implies #[trigger] crate::text::precedes(
        more[i],
        more[j],
    ) by {
        let i0 = if i < at { i } else { i - 1 };
        let j0 = if j < at { j } else { j - 1 };
        if i != at && j != at {
            assert(crate::text::precedes(dates[i0], dates[j0]));
        } else if i == at {
            assert(crate::text::precedes(date, dates[j0]));
        } else {
            assert(crate::text::precedes(dates[i0], date));
        }
    }
    let was = listed(dates, values);
    let now = listed(more, held);
    assert forall|d: Seq<char>| now.dom().contains(d) == was.insert(date, value).dom().contains(
        d,
    ) by {
        if dates.contains(d) {
            let i = choose|i: int| 0 <= i < dates.len() && dates[i] == d;
            let i1 = if i < at { i } else { i + 1 };
            assert(more[i1] == d);
        }
        if more.contains(d) {
            let i = choose|i: int| 0 <= i < more.len() && more[i] == d;
            if i != at {
                let i0 = if i < at { i } else { i - 1 };
                assert(dates[i0] == d);
            }
        }
        assert(more[at] == date);
    }
    assert forall|d: Seq<char>| now.dom().contains(d) implies now[d] == was.insert(date, value)[d] by {
        let i = choose|i: int| 0 <= i < more.len() && more[i] == d;
        lemma_listed(more, held, i);
        if i != at {
            let i0 = if i < at { i } else { i - 1 };
            lemma_listed(dates, values, i0);
            crate::text::lemma_precedes_irreflexive(date);
            if i < at {
                assert(crate::text::precedes(more[i], more[at]));
            } else {
                assert(crate::text::precedes(more[at], more[i]));
            }
        }
    }
    assert(now =~= was.insert(date, value));
}

/// A new value beside a date of the list replaces that date's value in the map.
proof fn lemma_listed_update(
    dates: Seq<Seq<char>>,
    values: Seq<Number>,
    at: int,
    value: Number,
)
    requires
        ascending(dates),
        dates.len() == values.len(),
        0 <= at < dates.len(),
    ensures
        listed(dates, values.update(at, value)) == listed(dates, values).insert(dates[at], value),
{
    let was = listed(dates, values);
    let now = listed(dates, values.update(at, value));
    assert(dates.contains(dates[at]));
    assert forall|d: Seq<char>| now.dom().contains(d) implies now[d] == was.insert(
        dates[at],
        value,
    )[d] by {
        let i = choose|i: int| 0 <= i < dates.len() && dates[i] == d;
        lemma_listed(dates, values, i);
        lemma_listed(dates, values.update(at, value), i);
        crate::text::lemma_precedes_irreflexive(dates[at]);
        if i < at {
            assert(crate::text::precedes(dates[i], dates[at]));
        } else if at < i {
            assert(crate::text::precedes(dates[at], dates[i]));
        }
    }
    assert(now =~= was.insert(dates[at], value));
}

impl ReturnMap {
    /// The dates ascend, and each has a value.
    #[verifier::type_invariant]
    spec fn well_formed(self) -> bool {
        &&& ascending(crate::text::texts(self.dates@))
        &&& self.dates@.len() == self.values@.len()
    }

    /// No returns.
    pub fn new() -> (r: ReturnMap)
        ensures
            r@ == Map::<Seq<char>, Number>::empty(),
    {
        let r = ReturnMap { dates: Vec::new(), values: Vec::new() };
        assert(r@ =~= Map::<Seq<char>, Number>::empty());
        r
    }

    /// Keys `value` by `date`, in place of what the date had before.
    pub fn insert(&mut self, date: &String, value: Number)
        ensures
            final(self)@ == old(self)@.insert(date@, value),
    {
        let mut held = ReturnMap::new();
        std::mem::swap(self, &mut held);
        proof {
            use_type_invariant(&held);
        }
        let ReturnMap { mut dates, mut values } = held;
        let ghost known = crate::text::texts(dates@);
        let ghost kept = values@;
        let at = lower_bound(&dates, date.as_str());
        proof {
            assert forall|k: int| 0 <= k < at implies #[trigger] crate::text::precedes(
                known[k],
                date@,
            ) by {
                assert(crate::text::precedes(dates@[k]@, date@));
            }
            assert forall|k: int| at <= k < known.len() implies !(
            #[trigger] crate::text::precedes(known[k], date@)) by {
                assert(!crate::text::precedes(dates@[k]@, date@));
            }
        }
        if at < dates.len() && dates[at] == *date {
            values.set(at, value);
            proof {
                lemma_listed_update(known, kept, at as int, value);
            }
        } else {
            dates.insert(at, date.clone());
            values.insert(at, value);
            proof {
                assert(crate::text::texts(dates@) =~= known.insert(at as int, date@));
                lemma_listed_insert(known, kept, at as int, date@, value);
            }
        }
        *self = ReturnMap { dates, values };
    }

    /// The value of a date, if it has one.
    pub fn get(&self, date: &String) -> (r: Option<Number>)
        ensures
            r == (if self@.dom().contains(date@) {
                Some(self@[date@])
            } else {
                None
            }),
    {
        proof {
            use_type_invariant(self);
        }
        let ghost dates = crate::text::texts(self.dates@);
        let at = lower_bound(&self.dates, date.as_str());
        if at < self.dates.len() && self.dates[at] == *date {
            proof {
                lemma_listed(dates, self.values@, at as int);
            }
            Some(self.values[at])
        } else {
            proof {
                if dates.contains(date@) {
                    let k = choose|k: int| 0 <= k < dates.len() && dates[k] == date@;
                    crate::text::lemma_precedes_irreflexive(date@);
                    assert(!crate::text::precedes(self.dates@[k]@, date@));
                    assert(at < k);
                    assert(crate::text::precedes(dates[at as int], dates[k]));
                    assert(crate::text::precedes(self.dates@[at as int]@, date@));
                }
            }
            None
        }
    }

    /// The dates in ascending order.
    pub fn keys(&self) -> (r: Vec<String>)
        ensures
            ascending(crate::text::texts(r@)),
            forall|d: Seq<char>|
                crate::text::texts(r@).contains(d) <==> self@.dom().contains(d),
    {
        proof {
            use_type_invariant(self);
        }
        let mut out: Vec<String> = Vec::new();
        for i in 0..self.dates.len()
            invariant
                out@ == self.dates@.take(i as int),
        {
            out.push(self.dates[i].clone());
            assert(out@ =~= self.dates@.take(i + 1));
        }
        assert(out@ =~= self.dates@);
        out
    }
}

/// The dates on which a series has a return: those whose candle and the one
/// before it both closed at a positive price.
pub open spec fn return_dates(candles: Seq<crate::chart::CandleView>) -> Set<Seq<char>>
    decreases candles.len(),
{
    if candles.len() < 2 {
        Set::empty()
    } else {
        let before = return_dates(candles.drop_last());
        if candles[candles.len() - 2].close.positive() && candles.last().close.positive() {
            before.insert(candles.last().date)
        } else {
            before
        }
    }
}

/// The log returns of a series by date; of several on one date the last counts.
pub open spec fn daily_returns<A: Arithmetic>(candles: Seq<crate::chart::CandleView>) -> Map<
    Seq<char>,
    Number,
>
    decreases candles.len(),
{
    if candles.len() < 2 {
        Map::empty()
    } else {
        let before = daily_returns::<A>(candles.drop_last());
        let previous = candles[candles.len() - 2].close;
        let current = candles.last().close;
        if previous.positive() && current.positive() {
            before.insert(candles.last().date, crate::stats::log_return::<A>(previous, current))
        } else {
            before
        }
    }
}

/// The dates of the daily returns do not depend on the arithmetic.
pub proof fn law_return_dates_do_not_depend_on_the_arithmetic<A: Arithmetic>(candles: Seq<crate::chart::CandleView>)
    ensures
        daily_returns::<A>(candles).dom() == return_dates(candles),
    decreases candles.len(),
{
    if candles.len() >= 2 {
        law_return_dates_do_not_depend_on_the_arithmetic::<A>(candles.drop_last());
        assert(daily_returns::<A>(candles).dom() =~= return_dates(candles));
    } else {
        assert(daily_returns::<A>(candles).dom() =~= return_dates(candles));
    }
}

/// The log returns of a series, keyed by date, so that series of different
/// trading calendars can be aligned.
pub fn daily_log_returns<A: Arithmetic>(candles: &Vec<Candle>) -> (r: ReturnMap)
    ensures
        r@.dom() == return_dates(crate::chart::candle_views(candles@)),
        crate::number::repeatable::<A>() ==> r@ == daily_returns::<A>(
            crate::chart::candle_views(candles@),
        ),
{
    let ghost all = crate::chart::candle_views(candles@);
    let mut map = ReturnMap::new();
    if candles.len() == 0 {
        assert(map@.dom() =~= return_dates(all));
        return map;
    }
    assert(map@.dom() =~= return_dates(all.take(1)));
    for i in 1..candles.len()
        invariant
            candles@.len() > 0,
            all == crate::chart::candle_views(candles@),
            map@.dom() == return_dates(all.take(i as int)),
            crate::number::repeatable::<A>() ==> map@ == daily_returns::<A>(all.take(i as int)),
    {
        assert(all.take(i + 1).drop_last() =~= all.take(i as int));
        let previous = candles[i - 1].close;
        let current = candles[i].close;
        if previous.is_positive() && current.is_positive() {
            map.insert(&candles[i].date, A::ln(A::divide(current, previous)));
            assert(map@.dom() =~= return_dates(all.take(i + 1)));
        }
    }
    assert(all.take(candles@.len() as int) =~= all);
    map
}

/// The date belongs to all of the maps.
pub open spec fn shared_by(maps: Seq<Map<Seq<char>, Number>>, d: Seq<char>) -> bool {
    forall|i: int| 0 <= i < maps.len() ==> (#[trigger] maps[i]).dom().contains(d)
}

/// The maps that a list holds.
pub open spec fn map_views(maps: Seq<ReturnMap>) -> Seq<Map<Seq<char>, Number>> {
    maps.map_values(|m: ReturnMap| m@)
}

/// The dates that all of the maps have, in ascending order.
pub fn shared_dates(maps: &Vec<ReturnMap>) -> (r: Vec<String>)
    requires
        maps@.len() > 0,
    ensures
        ascending(crate::text::texts(r@)),
        forall|d: Seq<char>|
            crate::text::texts(r@).contains(d) <==> shared_by(map_views(maps@), d),
{
    let ghost all = map_views(maps@);
    let mut dates = maps[0].keys();
    proof {
        assert forall|d: Seq<char>|
            crate::text::texts(dates@).contains(d) <==> shared_by(all.take(1), d) by {
            if shared_by(all.take(1), d) {
                assert(all.take(1)[0].dom().contains(d));
            }
        }
    }
    for i in 1..maps.len()
        invariant
            maps@.len() > 0,
            all == map_views(maps@),
            ascending(crate::text::texts(dates@)),
            forall|d: Seq<char>|
                crate::text::texts(dates@).contains(d) <==> shared_by(all.take(i as int), d),
    {
        let ghost held = crate::text::texts(dates@);
        let kept = keep_known(&dates, &maps[i]);
        proof {
            assert forall|d: Seq<char>|
                crate::text::texts(kept@).contains(d) <==> shared_by(all.take(i + 1), d) by {
                if shared_by(all.take(i + 1), d) {
                    assert(all.take(i + 1)[i as int].dom().contains(d));
                    assert forall|k: int| 0 <= k < i implies (#[trigger] all.take(
                        i as int,
                    )[k]).dom().contains(d) by {
                        assert(all.take(i + 1)[k].dom().contains(d));
                    }
                }
                if crate::text::texts(kept@).contains(d) {
                    assert(shared_by(all.take(i as int), d));
                    assert forall|k: int| 0 <= k < i + 1 implies (#[trigger] all.take(
                        i + 1,
                    )[k]).dom().contains(d) by {
                        if k < i {
                            assert(all.take(i as int)[k].dom().contains(d));
                        }
                    }
                }
            }
        }
        dates = kept;
    }
    assert(all.take(maps@.len() as int) =~= all);
    dates
}

/// The dates that a map knows, in their order.
fn keep_known(dates: &Vec<String>, map: &ReturnMap) -> (r: Vec<String>)
    requires
        ascending(crate::text::texts(dates@)),
    ensures
        ascending(crate::text::texts(r@)),
        forall|d: Seq<char>|
            crate::text::texts(r@).contains(d) <==> crate::text::texts(dates@).contains(d)
                && map@.dom().contains(d),
{
    let ghost all = crate::text::texts(dates@);
    let mut kept: Vec<String> = Vec::new();
    for i in 0..dates.len()
        invariant
            all == crate::text::texts(dates@),
            ascending(all),
            ascending(crate::text::texts(kept@)),
            forall|d: Seq<char>|
                crate::text::texts(kept@).contains(d) <==> all.take(i as int).contains(d)
                    && map@.dom().contains(d),
    {
        let ghost before = crate::text::texts(kept@);
        assert(all.take(i + 1) =~= all.take(i as int).push(all[i as int]));
        if map.get(&dates[i]).is_some() {
            kept.push(dates[i].clone());
            proof {
                let now = crate::text::texts(kept@);
                assert(now =~= before.push(all[i as int]));
                assert forall|j: int, k: int| 0 <= j < k < now.len() implies #[trigger]
                    crate::text::precedes(now[j], now[k]) by {
                    if k < before.len() {
                        assert(crate::text::precedes(before[j], before[k]));
                    } else {
                        assert(before.contains(before[j]));
                        let l = choose|l: int|
                            0 <= l < all.take(i as int).len() && all.take(i as int)[l]
                                == before[j];
                        assert(crate::text::precedes(all[l], all[i as int]));
                    }
                }
                assert forall|d: Seq<char>|
                    now.contains(d) <==> all.take(i + 1).contains(d) && map@.dom().contains(d) by {
                    lemma_push_contains(before, all[i as int], d);
                    lemma_push_contains(all.take(i as int), all[i as int], d);
                }
            }
        } else {
            proof {
                assert forall|d: Seq<char>|
                    before.contains(d) <==> all.take(i + 1).contains(d) && map@.dom().contains(
                        d,
                    ) by {
                    lemma_push_contains(all.take(i as int), all[i as int], d);
                }
            }
        }
    }
    assert(all.take(dates@.len() as int) =~= all);
    kept
}

/// A list with one more member has that member and its old ones.
proof fn lemma_push_contains(list: Seq<Seq<char>>, x: Seq<char>, d: Seq<char>)
    ensures
        list.push(x).contains(d) <==> list.contains(d) || d == x,
{
    if list.contains(d) {
        let i = choose|i: int| 0 <= i < list.len() && list[i] == d;
        assert(list.push(x)[i] == d);
    }
    if d == x {
        assert(list.push(x)[list.len() as int] == d);
    }
}

/// How many members of an ascending list precede a text.
spec fn place(list: Seq<Seq<char>>, text: Seq<char>) -> int
    decreases list.len(),
{
    if list.len() == 0 {
        0
    } else if crate::text::precedes(list.last(), text) {
        list.len() as int
    } else {
        place(list.drop_last(), text)
    }
}

proof fn lemma_place(list: Seq<Seq<char>>, text: Seq<char>)
    requires
        ascending(list),
    ensures
        0 <= place(list, text) <= list.len(),
        forall|k: int|
            0 <= k < place(list, text) ==> #[trigger] crate::text::precedes(list[k], text),
        forall|k: int|
            place(list, text) <= k < list.len() ==> !(#[trigger] crate::text::precedes(
                list[k],
                text,
            )),
    decreases list.len(),
{
    if list.len() > 0 {
        let last = list.len() - 1;
        if crate::text::precedes(list.last(), text) {
            assert forall|k: int| 0 <= k < list.len() implies #[trigger] crate::text::precedes(
                list[k],
                text,
            ) by {
                if k < last {
                    assert(crate::text::precedes(list[k], list[last]));
                    crate::text::lemma_precedes_transitive(list[k], list[last], text);
                }
            }
        } else {
            let front = list.drop_last();
            assert(ascending(front)) by {
                assert forall|i: int, j: int| 0 <= i < j < front.len() implies #[trigger]
                    crate::text::precedes(front[i], front[j]) by {
                    assert(crate::text::precedes(list[i], list[j]));
                }
            }
            lemma_place(front, text);
            assert forall|k: int| 0 <= k < place(list, text) implies #[trigger]
                crate::text::precedes(list[k], text) by {
                assert(crate::text::precedes(front[k], text));
            }
            assert forall|k: int| place(list, text) <= k < list.len() implies !(
            #[trigger] crate::text::precedes(list[k], text)) by {
                if k < last {
                    assert(!crate::text::precedes(front[k], text));
                }
            }
        }
    }
}

/// The members of a finite set of texts can be listed in ascending order.
pub proof fn lemma_listable(texts: Set<Seq<char>>) -> (list: Seq<Seq<char>>)
    requires
        texts.finite(),
    ensures
        ascending(list),
        forall|d: Seq<char>| #[trigger] list.contains(d) <==> texts.contains(d),
    decreases texts.len(),
{
    if texts.len() == 0 {
        Seq::empty()
    } else {
        let x = texts.choose();
        let rest = lemma_listable(texts.remove(x));
        lemma_place(rest, x);
        let at = place(rest, x);
        if at < rest.len() && rest[at] == x {
            assert(rest.contains(x));
        }
        let values = Seq::new(rest.len(), |i: int| crate::number::zero());
        lemma_listed_insert(rest, values, at, x, crate::number::zero());
        let list = rest.insert(at, x);
        assert forall|d: Seq<char>| #[trigger] list.contains(d) <==> texts.contains(d) by {
            assert(list[at] == x);
            if rest.contains(d) {
                let i = choose|i: int| 0 <= i < rest.len() && rest[i] == d;
                assert(list[if i < at { i } else { i + 1 }] == d);
            }
            if list.contains(d) && d != x {
                let i = choose|i: int| 0 <= i < list.len() && list[i] == d;
                assert(rest[if i < at { i } else { i - 1 }] == d);
            }
            if d != x {
                assert(rest.contains(d) <==> texts.remove(x).contains(d));
            }
        }
        list
    }
}

/// A series has returns on finitely many dates.
pub proof fn lemma_return_dates_finite(candles: Seq<crate::chart::CandleView>)
    ensures
        return_dates(candles).finite(),
    decreases candles.len(),
{
    if candles.len() >= 2 {
        lemma_return_dates_finite(candles.drop_last());
    }
}

} // verus!
