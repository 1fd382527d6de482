use vstd::prelude::*;
use std::collections::HashMap;
use crate::levels::{find_price, key_position, lemma_key_position, lemma_key_position_splits, price_keys, sorted_keys, Priced};
use crate::{Decimal, MoexOrderLog, Price, Side};

verus! {

broadcast use vstd::std_specs::hash::group_hash_axioms;

/// The orders resting at one price.
pub struct OrderStack<T> {
    pub price: Decimal,
    /// {OrderLog::id => OrderLog}
    pub map: HashMap<u64, T>,
    /// stack is here to track order position
    pub set: Vec<u64>,
}

/// The contents of an order stack: its price, its orders by order number,
/// and the order numbers in the order of their arrival.
#[verifier::ext_equal]
pub struct StackView<T> {
    pub price: Decimal,
    pub orders: Map<u64, T>,
    pub queue: Seq<u64>,
}

impl<T> View for OrderStack<T> {
    type V = StackView<T>;

    open spec fn view(&self) -> StackView<T> {
        StackView { price: self.price, orders: self.map@, queue: self.set@ }
    }
}

/// Every element of `s` is smaller than the ones after it.
pub open spec fn strictly_increasing(s: Seq<u64>) -> bool {
    forall|i: int, j: int| 0 <= i < j < s.len() ==> s[i] < s[j]
}

/// The stack `s` with the order `log` added: filed under its order number and
/// queued last.
pub open spec fn with_order<T: MoexOrderLog>(s: StackView<T>, log: T) -> StackView<T> {
    StackView {
        price: s.price,
        orders: s.orders.insert(log.spec_order_no(), log),
        queue: s.queue.push(log.spec_order_no()),
    }
}

/// `after` is the stack `before` once the order number `id` is taken out:
/// no order is filed under `id` any more, and the queue has lost one entry
/// `id` or none. Where the queue is in increasing order, it has lost `id`
/// exactly when it held it; otherwise which happens is not fixed.
pub open spec fn removed_by_id<T>(before: StackView<T>, id: u64, after: StackView<T>) -> bool {
    &&& after.price == before.price
    &&& after.orders == before.orders.remove(id)
    &&& {
        ||| after.queue == before.queue && (strictly_increasing(before.queue) ==> !before.queue.contains(id))
        ||| exists|i: int|
            0 <= i < before.queue.len() && before.queue[i] == id && after.queue == before.queue.remove(i)
    }
}

/// Looks for `x` in `v` by bisection: `Ok` with a position that holds `x`,
/// or `Err`; where `v` is in increasing order, `Err` comes exactly when `x` is
/// missing and gives the position where `x` would go.
fn search_u64(v: &Vec<u64>, x: u64) -> (r: Result<usize, usize>)
    ensures
        r matches Ok(i) ==> i < v@.len() && v@[i as int] == x,
        r matches Err(i) ==> i <= v@.len() && (strictly_increasing(v@) ==> {
            &&& forall|j: int| 0 <= j < i ==> v@[j] < x
            &&& forall|j: int| i <= j < v@.len() ==> v@[j] > x
        }),
{
    let mut lo: usize = 0;
    let mut hi: usize = v.len();
    while lo < hi
        invariant
            lo <= hi <= v@.len(),
            strictly_increasing(v@) ==> forall|j: int| 0 <= j < lo ==> v@[j] < x,
            strictly_increasing(v@) ==> forall|j: int| hi <= j < v@.len() ==> v@[j] > x,
        decreases hi - lo,
    {
        let mid = lo + (hi - lo) / 2;
        let m = v[mid];
        if m == x {
            return Ok(mid);
        } else if m < x {
            lo = mid + 1;
        } else {
            hi = mid;
        }
    }
    Err(lo)
}

impl<T: MoexOrderLog> OrderStack<T> {
    /// Files the order under its order number and queues it last.
    pub fn add(&mut self, log: T)
        ensures
            final(self)@ == with_order(old(self)@, log),
    {
        self.set.push(log.order_no());
        self.map.insert(log.order_no(), log);
    }

    /// Takes the order number `id` out of the stack: out of the orders by
    /// number and, where the queue's bisection finds it, out of the queue.
    /// The result is always `None`: the order is dropped from the orders by
    /// number before they are asked for it a second time.
    pub fn remove_by_id(&mut self, id: &u64) -> (r: Option<T>)
        ensures
            r is None,
            removed_by_id(old(self)@, *id, final(self)@),
    {
        self.map.remove(id);
        match search_u64(&self.set, *id) {
            Ok(idx) => {
                self.set.remove(idx);
                assert(old(self)@.queue[idx as int] == *id);
            },
            Err(_) => {
                proof {
                    if strictly_increasing(old(self)@.queue) && old(self)@.queue.contains(*id) {
                        let k = choose|k: int| 0 <= k < old(self)@.queue.len() && old(self)@.queue[k] == *id;
                        assert(old(self)@.queue[k] == *id);
                    }
                }
            },
        }
        let r = self.map.remove(id);
        assert(self.map@ =~= old(self)@.orders.remove(*id));
        r
    }

    /// Takes `volume` off the order filed under `no`, and takes the order out
    /// once nothing of it is left.
    fn execute_order(&mut self, no: u64, volume: i64)
        requires
            can_execute(old(self)@, no, volume),
        ensures
            executed(old(self)@, no, volume, final(self)@),
    {
        let (check, id) = match self.map.remove(&no) {
            Some(mut item) => {
                proof {
                    item.lemma_with_volume((item.spec_volume() - volume) as i64);
                }
                *item.volume_mut() -= volume;
                let check = item.volume() == 0;
                let id = item.order_no();
                self.map.insert(no, item);
                (check, id)
            },
            None => {
                return;
            },
        };
        assert(self@ =~= filled(old(self)@, no, volume));
        if check {
            self.remove_by_id(&id);
        }
    }
}

/// The order filed under `no` in `s` can take `volume` off its volume.
pub open spec fn can_execute<T: MoexOrderLog>(s: StackView<T>, no: u64, volume: i64) -> bool {
    &&& s.orders.contains_key(no)
    &&& i64::MIN <= s.orders[no].spec_volume() - volume <= i64::MAX
}

/// The stack `s` with `volume` taken off the order filed under `no`.
pub open spec fn filled<T: MoexOrderLog>(s: StackView<T>, no: u64, volume: i64) -> StackView<T> {
    let item = s.orders[no];
    StackView {
        price: s.price,
        orders: s.orders.insert(no, item.spec_with_volume((item.spec_volume() - volume) as i64)),
        queue: s.queue,
    }
}

/// `after` is the stack `before` once `volume` of the order filed under `no`
/// has traded: what is left of the order stays in place, and an order with
/// nothing left is taken out under its own order number.
pub open spec fn executed<T: MoexOrderLog>(before: StackView<T>, no: u64, volume: i64, after: StackView<T>) -> bool {
    let item = before.orders[no];
    if item.spec_volume() - volume == 0 {
        removed_by_id(filled(before, no, volume), item.spec_order_no(), after)
    } else {
        after == filled(before, no, volume)
    }
}

impl<T> Default for OrderStack<T> {
    /// An empty stack at the price zero.
    fn default() -> (r: OrderStack<T>)
        ensures
            r@ == empty_stack::<T>(Decimal::spec_new(0, 0)),
    {
        let r = OrderStack { price: Decimal::default(), map: HashMap::new(), set: Vec::new() };
        assert(r@ =~= empty_stack::<T>(Decimal::spec_new(0, 0)));
        r
    }
}

/// The views of a sequence of order stacks.
pub open spec fn levels_view<T>(v: Seq<OrderStack<T>>) -> Seq<StackView<T>> {
    v.map_values(|s: OrderStack<T>| s@)
}

/// The price levels `s` are in strictly increasing order of price.
pub open spec fn sorted_levels<T>(s: Seq<StackView<T>>) -> bool {
    forall|i: int, j: int| 0 <= i < j < s.len() ==> s[i].price.key() < s[j].price.key()
}

/// The keys of the prices of the levels `s`, in their order.
pub open spec fn level_keys<T>(s: Seq<StackView<T>>) -> Seq<int> {
    s.map_values(|l: StackView<T>| l.price.key())
}

/// How many of the levels `s` have a price below the one with key `k`: where
/// the levels are sorted, the position of the level at that price, or the
/// position where it would go.
pub open spec fn level_position<T>(s: Seq<StackView<T>>, k: int) -> int {
    key_position(level_keys(s), k)
}

/// A position that splits the levels into those priced below `k` and the
/// rest is `level_position`.
proof fn lemma_level_position<T>(s: Seq<StackView<T>>, k: int, i: int)
    requires
        0 <= i <= s.len(),
        forall|j: int| 0 <= j < i ==> s[j].price.key() < k,
        forall|j: int| i <= j < s.len() ==> s[j].price.key() >= k,
    ensures
        level_position(s, k) == i,
{
    let keys = level_keys(s);
    assert forall|j: int| 0 <= j < i implies keys[j] < k by {
        assert(keys[j] == s[j].price.key());
    }
    assert forall|j: int| i <= j < keys.len() implies keys[j] >= k by {
        assert(keys[j] == s[j].price.key());
    }
    lemma_key_position(keys, k, i);
}

/// In sorted levels, `level_position` splits the levels priced below `k` from
/// the rest.
proof fn lemma_level_position_splits<T>(s: Seq<StackView<T>>, k: int)
    requires
        sorted_levels(s),
    ensures
        0 <= level_position(s, k) <= s.len(),
        forall|j: int| 0 <= j < level_position(s, k) ==> s[j].price.key() < k,
        forall|j: int| level_position(s, k) <= j < s.len() ==> s[j].price.key() >= k,
{
    let keys = level_keys(s);
    assert(sorted_keys(keys)) by {
        assert forall|i: int, j: int| 0 <= i < j < keys.len() implies keys[i] < keys[j] by {
            assert(keys[i] == s[i].price.key() && keys[j] == s[j].price.key());
        }
    }
    lemma_key_position_splits(keys, k);
    assert forall|j: int| 0 <= j < level_position(s, k) implies s[j].price.key() < k by {
        assert(keys[j] == s[j].price.key());
    }
    assert forall|j: int| level_position(s, k) <= j < s.len() implies s[j].price.key() >= k by {
        assert(keys[j] == s[j].price.key());
    }
}

/// Whether the levels `s` hold a level whose price has the key `k`, where
/// they are sorted.
pub open spec fn has_level<T>(s: Seq<StackView<T>>, k: int) -> bool {
    let p = level_position(s, k);
    p < s.len() && s[p].price.key() == k
}

impl<T> Priced for OrderStack<T> {
    open spec fn level_price(&self) -> Decimal {
        self.price
    }

    fn price_of(&self) -> (r: &Decimal) {
        &self.price
    }
}

/// Finds the level priced at `price` by bisection: `Ok` with its position, or
/// `Err` with the position where it would go.
fn find_level<T>(levels: &Vec<OrderStack<T>>, price: &Decimal) -> (r: Result<usize, usize>)
    requires
        sorted_levels(levels_view(levels@)),
    ensures
        r matches Ok(i) ==> i == level_position(levels_view(levels@), price.key())
            && has_level(levels_view(levels@), price.key()),
        r matches Err(i) ==> i == level_position(levels_view(levels@), price.key())
            && !has_level(levels_view(levels@), price.key()),
        r matches Err(i) ==> i <= levels@.len()
            && (forall|j: int| 0 <= j < i ==> levels@[j].price.key() < price.key())
            && (forall|j: int| i <= j < levels@.len() ==> levels@[j].price.key() > price.key()),
{
    let ghost lv = levels_view(levels@);
    proof {
        assert(price_keys(levels@) =~= level_keys(lv));
        lemma_level_position_splits(lv, price.key());
        assert forall|i: int, j: int| 0 <= i < j < levels@.len() implies price_keys(levels@)[i] < price_keys(
            levels@,
        )[j] by {
            assert(lv[i] == levels@[i]@ && lv[j] == levels@[j]@);
        }
    }
    let r = find_price(levels, price);
    proof {
        if let Err(i) = r {
            let keys = price_keys(levels@);
            assert forall|j: int| 0 <= j < i implies levels@[j].price.key() < price.key() by {
                assert(keys[j] == levels@[j].price.key());
            }
            assert forall|j: int| i <= j < levels@.len() implies levels@[j].price.key() > price.key() by {
                assert(keys[j] == levels@[j].price.key());
            }
        }
    }
    r
}

/// The limit price of a limit order.
pub open spec fn limit_of(p: Price) -> Decimal
    recommends
        p is Limit,
{
    match p {
        Price::Limit(d) => d,
        Price::Market => arbitrary(),
    }
}

/// The empty stack at `price`.
pub open spec fn empty_stack<T>(price: Decimal) -> StackView<T> {
    StackView { price, orders: Map::empty(), queue: Seq::empty() }
}

/// The price levels `levels` with the order `log` added at the price `price`:
/// to the level at that price where there is one, else to a new level put in
/// its place in the order of prices.
pub open spec fn add_to_levels<T: MoexOrderLog>(levels: Seq<StackView<T>>, price: Decimal, log: T) -> Seq<
    StackView<T>,
> {
    let p = level_position(levels, price.key());
    if has_level(levels, price.key()) {
        levels.update(p, with_order(levels[p], log))
    } else {
        levels.insert(p, with_order(empty_stack(price), log))
    }
}

/// An order book: the price levels of the asks and of the bids of one
/// instrument.
pub struct MoexOrderBook<T> where T: MoexOrderLog {
    pub ticker: String,
    pub asks: Vec<OrderStack<T>>,
    pub bids: Vec<OrderStack<T>>,
}

/// The contents of an order book.
#[verifier::ext_equal]
pub struct BookView<T> {
    pub ticker: Seq<char>,
    pub asks: Seq<StackView<T>>,
    pub bids: Seq<StackView<T>>,
}

impl<T: MoexOrderLog> View for MoexOrderBook<T> {
    type V = BookView<T>;

    open spec fn view(&self) -> BookView<T> {
        BookView {
            ticker: self.ticker@,
            asks: levels_view(self.asks@),
            bids: levels_view(self.bids@),
        }
    }
}

/// The levels that orders of the side `side` rest in: buy orders go to
/// `asks` and sell orders to `bids`.
pub open spec fn side_levels<T>(b: BookView<T>, side: Side) -> Seq<StackView<T>> {
    match side {
        Side::Buy => b.asks,
        Side::Sell => b.bids,
    }
}

/// The book `b` with `levels` as the levels of the side `side`.
pub open spec fn with_side_levels<T>(b: BookView<T>, side: Side, levels: Seq<StackView<T>>) -> BookView<T> {
    match side {
        Side::Buy => BookView { ticker: b.ticker, asks: levels, bids: b.bids },
        Side::Sell => BookView { ticker: b.ticker, asks: b.asks, bids: levels },
    }
}

impl<T: MoexOrderLog> MoexOrderBook<T> {
    /// Both sides keep their levels in strictly increasing order of price.
    pub open spec fn wf(&self) -> bool {
        &&& sorted_levels(self@.asks)
        &&& sorted_levels(self@.bids)
    }

    /// An empty book for the instrument `ticker`.
    pub fn new(ticker: String) -> (r: Self)
        ensures
            r@.ticker == ticker@,
            r@.asks == Seq::<StackView<T>>::empty(),
            r@.bids == Seq::<StackView<T>>::empty(),
            r.wf(),
    {
        let r = MoexOrderBook { ticker, asks: Vec::with_capacity(1024), bids: Vec::with_capacity(1024) };
        assert(r@.asks =~= Seq::<StackView<T>>::empty());
        assert(r@.bids =~= Seq::<StackView<T>>::empty());
        r
    }

    /// The levels that orders of the side `side` rest in.
    fn mut_ord_stack(&mut self, side: &Side) -> (r: &mut Vec<OrderStack<T>>)
        ensures
            *side == Side::Buy ==> *r == old(self).asks && final(self).asks == *final(r)
                && final(self).bids == old(self).bids && final(self).ticker == old(self).ticker,
            *side == Side::Sell ==> *r == old(self).bids && final(self).bids == *final(r)
                && final(self).asks == old(self).asks && final(self).ticker == old(self).ticker,
    {
        let refmut = match side {
            Side::Buy => &mut self.asks,
            Side::Sell => &mut self.bids,
        };
        refmut
    }

    /// Adds the limit order `log` to the levels of its side: to the level at
    /// its price where there is one, else to a new level put in its place.
    pub fn add(&mut self, log: T)
        requires
            old(self).wf(),
            log.spec_price() is Limit,
        ensures
            final(self).wf(),
            final(self)@ == with_side_levels(
                old(self)@,
                log.spec_side(),
                add_to_levels(side_levels(old(self)@, log.spec_side()), limit_of(log.spec_price()), log),
            ),
    {
        let side = *log.side();
        let limitp: Decimal = match log.price().as_limit() {
            Some(d) => *d,
            None => {
                return;
            },
        };
        let ghost k = limitp.key();
        let refmut = self.mut_ord_stack(&side);
        let ghost old_levels = levels_view(refmut@);
        assert(old_levels == side_levels(old(self)@, side));
        let res = find_level(refmut, &limitp);
        match res {
            Ok(n) => {
                refmut[n].add(log);
                assert(levels_view(refmut@) =~= old_levels.update(n as int, with_order(old_levels[n as int], log)));
            },
            Err(n) => {
                let mut stack = OrderStack {
                    price: limitp,
                    map: HashMap::with_capacity(1024),
                    set: Vec::with_capacity(1024),
                };
                assert(stack@ =~= empty_stack(limitp));
                stack.add(log);
                refmut.insert(n, stack);
                assert(levels_view(refmut@) =~= old_levels.insert(n as int, with_order(empty_stack(limitp), log)));
            },
        }
        assert(sorted_levels(levels_view(refmut@)));
    }

    /// Takes the limit order `log` out of the level at its price, which must
    /// hold it, as `OrderStack::remove_by_id` does. The result is `None`, as
    /// `remove_by_id` gives nothing back.
    pub fn remove(&mut self, log: &T) -> (r: Option<T>)
        requires
            old(self).wf(),
            log.spec_price() is Limit,
            has_level(side_levels(old(self)@, log.spec_side()), limit_of(log.spec_price()).key()),
            side_levels(old(self)@, log.spec_side())[level_position(
                side_levels(old(self)@, log.spec_side()),
                limit_of(log.spec_price()).key(),
            )].orders.contains_key(log.spec_order_no()),
        ensures
            r is None,
            final(self).wf(),
            ({
                let side = log.spec_side();
                let lv = side_levels(old(self)@, side);
                let p = level_position(lv, limit_of(log.spec_price()).key());
                &&& final(self)@ == with_side_levels(
                    old(self)@,
                    side,
                    lv.update(p, side_levels(final(self)@, side)[p]),
                )
                &&& removed_by_id(lv[p], log.spec_order_no(), side_levels(final(self)@, side)[p])
            }),
    {
        let side = *log.side();
        let limitp: Decimal = match log.price().as_limit() {
            Some(d) => *d,
            None => {
                return None;
            },
        };
        let refmut = self.mut_ord_stack(&side);
        let ghost old_levels = levels_view(refmut@);
        let res = find_level(refmut, &limitp);
        match res {
            Ok(idx) => {
                let item = refmut[idx].remove_by_id(&log.order_no());
                assert(levels_view(refmut@) =~= old_levels.update(idx as int, refmut@[idx as int]@));
                match item {
                    Some(item) => {
                        if refmut[idx].set.len() == 0 {
                            refmut.remove(idx);
                        }
                        Some(item)
                    },
                    None => None,
                }
            },
            Err(_) => None,
        }
    }

    /// Takes the volume of the trade `log` off the resting order it names, at
    /// the level of its price, and takes the order out once nothing of it is
    /// left.
    pub fn execute(&mut self, log: &T)
        requires
            old(self).wf(),
            log.spec_price() is Limit,
            has_level(side_levels(old(self)@, log.spec_side()), limit_of(log.spec_price()).key()),
            can_execute(
                side_levels(old(self)@, log.spec_side())[level_position(
                    side_levels(old(self)@, log.spec_side()),
                    limit_of(log.spec_price()).key(),
                )],
                log.spec_order_no(),
                log.spec_volume(),
            ),
        ensures
            final(self).wf(),
            ({
                let side = log.spec_side();
                let lv = side_levels(old(self)@, side);
                let p = level_position(lv, limit_of(log.spec_price()).key());
                &&& final(self)@ == with_side_levels(
                    old(self)@,
                    side,
                    lv.update(p, side_levels(final(self)@, side)[p]),
                )
                &&& executed(lv[p], log.spec_order_no(), log.spec_volume(), side_levels(final(self)@, side)[p])
            }),
    {
        let side = *log.side();
        let limitp: Decimal = match log.price().as_limit() {
            Some(d) => *d,
            None => {
                return;
            },
        };
        let refmut = self.mut_ord_stack(&side);
        let ghost old_levels = levels_view(refmut@);
        let res = find_level(refmut, &limitp);
        match res {
            Ok(idx) => {
                assert(old_levels[idx as int] == refmut@[idx as int]@);
                refmut[idx].execute_order(log.order_no(), log.volume());
                assert(levels_view(refmut@) =~= old_levels.update(idx as int, refmut@[idx as int]@));
            },
            Err(_) => {},
        }
    }
}

/// Read after write: once a limit order is added at `price`, the levels hold
/// a level at that price which files the order under its order number and
/// queues it last; the levels stay in increasing order of price, and every
/// level at another price is as it was.
pub proof fn lemma_added_order_rests_at_its_price<T: MoexOrderLog>(
    levels: Seq<StackView<T>>,
    price: Decimal,
    log: T,
)
    requires
        sorted_levels(levels),
    ensures
        ({
            let r = add_to_levels(levels, price, log);
            let p = level_position(r, price.key());
            &&& sorted_levels(r)
            &&& has_level(r, price.key())
            &&& r[p].orders.contains_key(log.spec_order_no())
            &&& r[p].orders[log.spec_order_no()] == log
            &&& r[p].queue.last() == log.spec_order_no()
            &&& forall|k: int|
                k != price.key() ==> (has_level(r, k) <==> has_level(levels, k)) && (has_level(levels, k)
                    ==> r[level_position(r, k)] == levels[level_position(levels, k)])
        }),
{
    let k0 = price.key();
    let r = add_to_levels(levels, price, log);
    let p = level_position(levels, k0);
    lemma_level_position_splits(levels, k0);
    if has_level(levels, k0) {
        assert(sorted_levels(r));
        lemma_level_position(r, k0, p);
        assert forall|k: int| k != k0 implies (has_level(r, k) <==> has_level(levels, k)) && (
        has_level(levels, k) ==> r[level_position(r, k)] == levels[level_position(levels, k)]) by {
            lemma_level_position_splits(levels, k);
            lemma_level_position(r, k, level_position(levels, k));
        }
    } else {
        assert forall|j: int| p <= j < levels.len() implies levels[j].price.key() > k0 by {
            if levels[j].price.key() == k0 {
                assert(levels[p].price.key() <= levels[j].price.key());
            }
        }
        assert(sorted_levels(r));
        lemma_level_position(r, k0, p);
        assert forall|k: int| k != k0 implies (has_level(r, k) <==> has_level(levels, k)) && (
        has_level(levels, k) ==> r[level_position(r, k)] == levels[level_position(levels, k)]) by {
            lemma_level_position_splits(levels, k);
            let q = level_position(levels, k);
            if k < k0 {
                assert(q <= p) by {
                    if q > p {
                        assert(levels[p].price.key() < k);
                        assert(levels[p].price.key() >= k0);
                    }
                }
                assert forall|j: int| q <= j < r.len() implies r[j].price.key() >= k by {
                    if j < p {
                        assert(r[j] == levels[j]);
                    } else if j > p {
                        assert(r[j] == levels[j - 1]);
                    }
                }
                lemma_level_position(r, k, q);
            } else {
                assert(q >= p) by {
                    if q < p {
                        assert(levels[q].price.key() < k0);
                        assert(levels[q].price.key() >= k);
                    }
                }
                assert forall|j: int| 0 <= j < q + 1 implies r[j].price.key() < k by {
                    if j < p {
                        assert(r[j] == levels[j]);
                    } else if j > p {
                        assert(r[j] == levels[j - 1]);
                    }
                }
                assert forall|j: int| q + 1 <= j < r.len() implies r[j].price.key() >= k by {
                    assert(r[j] == levels[j - 1]);
                }
                lemma_level_position(r, k, q + 1);
            }
        }
    }
}

/// What one call undoes: adding an order whose number the stack does not
/// hold, then taking that number out, gives back the orders by number; and
/// where the queue was in increasing order with every number below the new
/// one, it gives back the queue too.
pub proof fn lemma_add_then_remove_by_id<T: MoexOrderLog>(s: StackView<T>, log: T, after: StackView<T>)
    requires
        !s.orders.contains_key(log.spec_order_no()),
        removed_by_id(with_order(s, log), log.spec_order_no(), after),
    ensures
        after.orders == s.orders,
        after.price == s.price,
        strictly_increasing(s.queue) && (forall|i: int| 0 <= i < s.queue.len() ==> s.queue[i] < log.spec_order_no())
            ==> after.queue == s.queue,
{
    let no = log.spec_order_no();
    let w = with_order(s, log);
    assert(after.orders =~= s.orders);
    if strictly_increasing(s.queue) && (forall|i: int| 0 <= i < s.queue.len() ==> s.queue[i] < no) {
        assert(strictly_increasing(w.queue));
        assert(w.queue[w.queue.len() - 1] == no);
        if after.queue == w.queue {
            assert(w.queue.contains(no));
        } else {
            let i = choose|i: int| 0 <= i < w.queue.len() && w.queue[i] == no && after.queue == w.queue.remove(i);
            assert(i == w.queue.len() - 1);
            assert(after.queue =~= s.queue);
        }
    }
}

/// A trade for the whole volume of an order takes it out of the orders by
/// number; a trade for less leaves the rest of it in place.
pub proof fn lemma_execute_fills_order<T: MoexOrderLog>(before: StackView<T>, no: u64, volume: i64, after: StackView<T>)
    requires
        can_execute(before, no, volume),
        before.orders[no].spec_order_no() == no,
        executed(before, no, volume, after),
    ensures
        volume == before.orders[no].spec_volume() ==> !after.orders.contains_key(no),
        volume != before.orders[no].spec_volume() ==> after.orders.contains_key(no)
            && after.orders[no].spec_volume() == before.orders[no].spec_volume() - volume
            && after.queue == before.queue,
{
    let item = before.orders[no];
    item.lemma_with_volume((item.spec_volume() - volume) as i64);
}

/// The invariant of an order stack: its queue is in strictly increasing
/// order, holds exactly the order numbers that orders are filed under, and
/// each order is filed under its own order number.
pub open spec fn stack_wf<T: MoexOrderLog>(s: StackView<T>) -> bool {
    &&& strictly_increasing(s.queue)
    &&& forall|k: u64| #[trigger] s.orders.contains_key(k) <==> s.queue.contains(k)
    &&& forall|k: u64| #[trigger] s.orders.contains_key(k) ==> s.orders[k].spec_order_no() == k
}

/// Well-formed price levels: in strictly increasing order of price, none of
/// them empty, and each a well-formed stack.
pub open spec fn levels_wf<T: MoexOrderLog>(s: Seq<StackView<T>>) -> bool {
    &&& sorted_levels(s)
    &&& forall|i: int| 0 <= i < s.len() ==> #[trigger] s[i].queue.len() > 0 && stack_wf(s[i])
}

/// A well-formed stack queues exactly as many order numbers as it files
/// orders.
pub proof fn lemma_stack_wf_counts<T: MoexOrderLog>(s: StackView<T>)
    requires
        stack_wf(s),
    ensures
        s.orders.dom().finite(),
        s.queue.len() == s.orders.len(),
{
    assert(s.queue.no_duplicates()) by {
        assert forall|i: int, j: int|
            0 <= i < s.queue.len() && 0 <= j < s.queue.len() && i != j implies s.queue[i] != s.queue[j] by {
            if i < j {
                assert(s.queue[i] < s.queue[j]);
            } else {
                assert(s.queue[j] < s.queue[i]);
            }
        }
    }
    s.queue.unique_seq_to_set();
    assert(s.orders.dom() =~= s.queue.to_set());
    vstd::seq_lib::seq_to_set_is_finite(s.queue);
}

/// What every addition keeps: adding to a well-formed stack an order whose
/// number is above every number it queues gives a well-formed stack, with
/// as many queued numbers as filed orders.
pub proof fn lemma_stack_add_keeps_wf<T: MoexOrderLog>(s: StackView<T>, log: T)
    requires
        stack_wf(s),
        forall|i: int| 0 <= i < s.queue.len() ==> s.queue[i] < log.spec_order_no(),
    ensures
        stack_wf(with_order(s, log)),
        with_order(s, log).queue.len() == with_order(s, log).orders.len(),
{
    let no = log.spec_order_no();
    let w = with_order(s, log);
    let n = s.queue.len() as int;
    assert(w.queue[n] == no);
    assert forall|i: int, j: int| 0 <= i < j < w.queue.len() implies w.queue[i] < w.queue[j] by {
        assert(w.queue[i] == s.queue[i]);
        if j < n {
            assert(w.queue[j] == s.queue[j]);
        }
    }
    assert forall|k: u64| #[trigger] w.orders.contains_key(k) <==> w.queue.contains(k) by {
        if k != no {
            if s.queue.contains(k) {
                let i = choose|i: int| 0 <= i < n && s.queue[i] == k;
                assert(w.queue[i] == k);
            }
            if w.queue.contains(k) {
                let i = choose|i: int| 0 <= i < w.queue.len() && w.queue[i] == k;
                assert(i < n);
                assert(s.queue[i] == k);
            }
        }
    }
    lemma_stack_wf_counts(w);
}

/// What every addition to a book keeps: adding a limit order to well-formed
/// price levels, with a number above every number queued at its price, gives
/// well-formed levels, with one level more where none was at that price and
/// as many as before otherwise.
pub proof fn lemma_add_keeps_levels_wf<T: MoexOrderLog>(levels: Seq<StackView<T>>, price: Decimal, log: T)
    requires
        levels_wf(levels),
        has_level(levels, price.key()) ==> forall|i: int|
            0 <= i < levels[level_position(levels, price.key())].queue.len() ==> levels[level_position(
                levels,
                price.key(),
            )].queue[i] < log.spec_order_no(),
    ensures
        levels_wf(add_to_levels(levels, price, log)),
        add_to_levels(levels, price, log).len() == levels.len() + if has_level(levels, price.key()) {
            0int
        } else {
            1int
        },
{
    let r = add_to_levels(levels, price, log);
    let p = level_position(levels, price.key());
    lemma_added_order_rests_at_its_price(levels, price, log);
    lemma_level_position_splits(levels, price.key());
    if has_level(levels, price.key()) {
        lemma_stack_add_keeps_wf(levels[p], log);
        assert forall|i: int| 0 <= i < r.len() implies #[trigger] r[i].queue.len() > 0 && stack_wf(r[i]) by {
            if i != p {
                assert(r[i] == levels[i]);
            }
        }
    } else {
        let e = empty_stack::<T>(price);
        assert(stack_wf(e)) by {
            assert forall|k: u64| #[trigger] e.orders.contains_key(k) <==> e.queue.contains(k) by {
                if e.queue.contains(k) {
                    let i = choose|i: int| 0 <= i < e.queue.len() && e.queue[i] == k;
                }
            }
        }
        lemma_stack_add_keeps_wf(e, log);
        assert forall|i: int| 0 <= i < r.len() implies #[trigger] r[i].queue.len() > 0 && stack_wf(r[i]) by {
            if i < p {
                assert(r[i] == levels[i]);
            } else if i > p {
                assert(r[i] == levels[i - 1]);
            }
        }
    }
}

/// What every addition to a book keeps: adding a limit order to a book whose
/// two sides hold well-formed levels, with a number above every number
/// queued at its price on its side, leaves both sides well-formed; its side
/// gains one level where none was at that price, and the other side is as
/// it was.
pub proof fn lemma_add_keeps_book_wf<T: MoexOrderLog>(b: BookView<T>, log: T)
    requires
        levels_wf(b.asks),
        levels_wf(b.bids),
        log.spec_price() is Limit,
        ({
            let lv = side_levels(b, log.spec_side());
            let k = limit_of(log.spec_price()).key();
            has_level(lv, k) ==> forall|i: int|
                0 <= i < lv[level_position(lv, k)].queue.len() ==> lv[level_position(lv, k)].queue[i]
                    < log.spec_order_no()
        }),
    ensures
        ({
            let side = log.spec_side();
            let lv = side_levels(b, side);
            let price = limit_of(log.spec_price());
            let nb = with_side_levels(b, side, add_to_levels(lv, price, log));
            &&& levels_wf(nb.asks)
            &&& levels_wf(nb.bids)
            &&& side_levels(nb, side).len() == lv.len() + if has_level(lv, price.key()) {
                0int
            } else {
                1int
            }
            &&& side_levels(nb, side.opposite()) == side_levels(b, side.opposite())
        }),
{
    lemma_add_keeps_levels_wf(side_levels(b, log.spec_side()), limit_of(log.spec_price()), log);
}

impl<T: MoexOrderLog> Default for MoexOrderBook<T> {
    /// An empty book with an empty ticker.
    fn default() -> (r: MoexOrderBook<T>)
        ensures
            r@.ticker == Seq::<char>::empty(),
            r@.asks == Seq::<StackView<T>>::empty(),
            r@.bids == Seq::<StackView<T>>::empty(),
            r.wf(),
    {
        MoexOrderBook::new(String::new())
    }
}

} // verus!
