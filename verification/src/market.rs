use vstd::prelude::*;
use std::collections::HashMap;
use crate::order_book::{
    empty_stack, lemma_add_then_remove_by_id, limit_of, removed_by_id, strictly_increasing, with_order, OrderStack,
    StackView,
};
use crate::levels::{find_price, key_position, lemma_key_position, lemma_key_position_bounds, lemma_key_position_splits, price_keys, sorted_keys, Priced};
use crate::{Action, AssetClass, Decimal, DerivativeOrderLog, OrderBookId, Price, Side};

verus! {

broadcast use vstd::std_specs::hash::group_hash_axioms;

/// The order book of one derivative: its resting limit orders by price on
/// each side, and its market orders that wait to be filled, by order id.
pub struct OrderBook {
    pub id: OrderBookId,
    /// The bids, by price in increasing order.
    pub bids: Vec<(Decimal, OrderStack<DerivativeOrderLog>)>,
    /// The asks, by price in increasing order.
    pub asks: Vec<(Decimal, OrderStack<DerivativeOrderLog>)>,
    pub remaining_market_orders: HashMap<i64, DerivativeOrderLog>,
}

/// The order books of all derivatives seen so far.
pub struct Market {
    pub books: Vec<OrderBook>,
}

/// One side of a book: order stacks by price.
pub type TreeView = Seq<(Decimal, StackView<DerivativeOrderLog>)>;

/// The contents of an order book.
#[verifier::ext_equal]
pub struct OrderBookView {
    pub name: Seq<char>,
    pub asset_class: AssetClass,
    pub bids: TreeView,
    pub asks: TreeView,
    pub remaining_market_orders: Map<i64, DerivativeOrderLog>,
}

/// The views of one side of a book.
pub open spec fn tree_view(t: Seq<(Decimal, OrderStack<DerivativeOrderLog>)>) -> TreeView {
    t.map_values(|e: (Decimal, OrderStack<DerivativeOrderLog>)| (e.0, e.1@))
}

impl View for OrderBook {
    type V = OrderBookView;

    open spec fn view(&self) -> OrderBookView {
        OrderBookView {
            name: self.id.name@,
            asset_class: self.id.asset_class,
            bids: tree_view(self.bids@),
            asks: tree_view(self.asks@),
            remaining_market_orders: self.remaining_market_orders@,
        }
    }
}

impl View for Market {
    type V = Seq<OrderBookView>;

    open spec fn view(&self) -> Seq<OrderBookView> {
        self.books@.map_values(|b: OrderBook| b@)
    }
}

/// The prices of one side are in strictly increasing order.
pub open spec fn sorted_tree(t: TreeView) -> bool {
    forall|i: int, j: int| 0 <= i < j < t.len() ==> t[i].0.key() < t[j].0.key()
}

/// The keys of the prices of one side, in their order.
pub open spec fn tree_keys(t: TreeView) -> Seq<int> {
    t.map_values(|e: (Decimal, StackView<DerivativeOrderLog>)| e.0.key())
}

/// How many prices of `t` are below the price with key `k`: in a sorted side,
/// the position of that price or the position where it would go.
pub open spec fn tree_position(t: TreeView, k: int) -> int {
    key_position(tree_keys(t), k)
}

/// A position that splits the side into the prices below `k` and the rest
/// is `tree_position`.
proof fn lemma_tree_position(t: TreeView, k: int, i: int)
    requires
        0 <= i <= t.len(),
        forall|j: int| 0 <= j < i ==> t[j].0.key() < k,
        forall|j: int| i <= j < t.len() ==> t[j].0.key() >= k,
    ensures
        tree_position(t, k) == i,
{
    let keys = tree_keys(t);
    assert forall|j: int| 0 <= j < i implies keys[j] < k by {
        assert(keys[j] == t[j].0.key());
    }
    assert forall|j: int| i <= j < keys.len() implies keys[j] >= k by {
        assert(keys[j] == t[j].0.key());
    }
    lemma_key_position(keys, k, i);
}

/// In a sorted side, `tree_position` splits the prices below `k` from the
/// rest.
proof fn lemma_tree_position_splits(t: TreeView, k: int)
    requires
        sorted_tree(t),
    ensures
        0 <= tree_position(t, k) <= t.len(),
        forall|j: int| 0 <= j < tree_position(t, k) ==> t[j].0.key() < k,
        forall|j: int| tree_position(t, k) <= j < t.len() ==> t[j].0.key() >= k,
{
    let keys = tree_keys(t);
    assert(sorted_keys(keys)) by {
        assert forall|i: int, j: int| 0 <= i < j < keys.len() implies keys[i] < keys[j] by {
            assert(keys[i] == t[i].0.key() && keys[j] == t[j].0.key());
        }
    }
    lemma_key_position_splits(keys, k);
    assert forall|j: int| 0 <= j < tree_position(t, k) implies t[j].0.key() < k by {
        assert(keys[j] == t[j].0.key());
    }
    assert forall|j: int| tree_position(t, k) <= j < t.len() implies t[j].0.key() >= k by {
        assert(keys[j] == t[j].0.key());
    }
}

/// The side `t` has orders at the price with key `k`, where it is sorted.
pub open spec fn tree_has(t: TreeView, k: int) -> bool {
    let p = tree_position(t, k);
    p < t.len() && t[p].0.key() == k
}

/// The side `t` with the order `log` added at the price `price`: to the stack
/// at that price where there is one, else to a new empty stack filed under
/// that price in its place.
pub open spec fn tree_add(t: TreeView, price: Decimal, log: DerivativeOrderLog) -> TreeView {
    let p = tree_position(t, price.key());
    if tree_has(t, price.key()) {
        t.update(p, (t[p].0, with_order(t[p].1, log)))
    } else {
        t.insert(p, (price, with_order(empty_stack(Decimal::spec_new(0, 0)), log)))
    }
}

/// `after` is the stack `before` once the trade `log` has filled the order
/// filed under `id`: a trade for its whole volume takes the order out, a
/// smaller one takes the traded volume off it.
pub open spec fn traded(
    before: StackView<DerivativeOrderLog>,
    id: u64,
    log: DerivativeOrderLog,
    after: StackView<DerivativeOrderLog>,
) -> bool {
    let item = before.orders[id];
    if item.volume == log.volume {
        removed_by_id(before, id, after)
    } else {
        after == StackView {
            price: before.price,
            orders: before.orders.insert(id, DerivativeOrderLog { volume: (item.volume - log.volume) as i64, ..item }),
            queue: before.queue,
        }
    }
}

/// The side of a book that orders of the side `side` rest in: buy orders go
/// to the bids and sell orders to the asks.
pub open spec fn side_tree(b: OrderBookView, side: Side) -> TreeView {
    match side {
        Side::Buy => b.bids,
        Side::Sell => b.asks,
    }
}

/// The book `b` with `t` as the side that orders of the side `side` rest in.
pub open spec fn with_side_tree(b: OrderBookView, side: Side, t: TreeView) -> OrderBookView {
    match side {
        Side::Buy => OrderBookView { bids: t, ..b },
        Side::Sell => OrderBookView { asks: t, ..b },
    }
}

/// The book `b` can take the order log line `log`: a market order is added
/// under a new id and cancelled or traded under a waiting one; a limit order
/// is cancelled or traded at a price with a stack that holds its id, and a
/// partial trade leaves a volume that fits in 64 bits.
pub open spec fn book_allows(b: OrderBookView, log: DerivativeOrderLog) -> bool {
    match log.price {
        Price::Market => match log.action {
            Action::Add => !b.remaining_market_orders.contains_key(log.id),
            _ => b.remaining_market_orders.contains_key(log.id),
        },
        Price::Limit(l) => match log.action {
            Action::Add => true,
            _ => {
                let t = side_tree(b, log.side);
                let p = tree_position(t, l.key());
                let id = log.id as u64;
                &&& tree_has(t, l.key())
                &&& t[p].1.orders.contains_key(id)
                &&& (log.action is Trade ==> i64::MIN <= t[p].1.orders[id].volume - log.volume <= i64::MAX)
            },
        },
    }
}

/// `after` is the book `b` once it has handled `log`, and `r` what it gave back.
pub open spec fn book_after(
    b: OrderBookView,
    log: DerivativeOrderLog,
    after: OrderBookView,
    r: Option<DerivativeOrderLog>,
) -> bool {
    match log.price {
        Price::Market => match log.action {
            Action::Add => {
                &&& after == OrderBookView {
                    remaining_market_orders: b.remaining_market_orders.insert(log.id, log),
                    ..b
                }
                &&& r is None
            },
            _ => {
                &&& after == OrderBookView {
                    remaining_market_orders: b.remaining_market_orders.remove(log.id),
                    ..b
                }
                &&& r == Some(b.remaining_market_orders[log.id])
            },
        },
        Price::Limit(l) => {
            let t = side_tree(b, log.side);
            let t2 = side_tree(after, log.side);
            let p = tree_position(t, l.key());
            let id = log.id as u64;
            &&& r is None
            &&& match log.action {
                Action::Add => after == with_side_tree(b, log.side, tree_add(t, l, log)),
                Action::Cancel => {
                    &&& after == with_side_tree(b, log.side, t.update(p, (t[p].0, t2[p].1)))
                    &&& removed_by_id(t[p].1, id, t2[p].1)
                },
                Action::Trade(_) => {
                    &&& after == with_side_tree(b, log.side, t.update(p, (t[p].0, t2[p].1)))
                    &&& traded(t[p].1, id, log, t2[p].1)
                },
            }
        },
    }
}

/// An order book for `name` with nothing in it.
pub open spec fn empty_book(name: Seq<char>) -> OrderBookView {
    OrderBookView {
        name,
        asset_class: AssetClass::Equity,
        bids: Seq::empty(),
        asks: Seq::empty(),
        remaining_market_orders: Map::empty(),
    }
}

/// The book `b` is the one that order log lines for `name` go to.
pub open spec fn is_book_for(b: OrderBookView, name: Seq<char>) -> bool {
    b.name == name && b.asset_class == AssetClass::Equity
}

/// The position of the first book of `books` for `name`, or the number of
/// books where there is none.
pub open spec fn book_position(books: Seq<OrderBookView>, name: Seq<char>) -> int
    decreases books.len(),
{
    if books.len() == 0 {
        0
    } else if is_book_for(books[0], name) {
        0
    } else {
        1 + book_position(books.drop_first(), name)
    }
}

proof fn lemma_book_position(books: Seq<OrderBookView>, name: Seq<char>, i: int)
    requires
        0 <= i <= books.len(),
        forall|j: int| 0 <= j < i ==> !is_book_for(books[j], name),
        i < books.len() ==> is_book_for(books[i], name),
    ensures
        book_position(books, name) == i,
    decreases books.len(),
{
    if books.len() > 0 && i > 0 {
        lemma_book_position(books.drop_first(), name, i - 1);
    }
}

/// `book_position` is the first book for `name`.
proof fn lemma_book_position_props(books: Seq<OrderBookView>, name: Seq<char>)
    ensures
        0 <= book_position(books, name) <= books.len(),
        forall|j: int| 0 <= j < book_position(books, name) ==> !is_book_for(#[trigger] books[j], name),
        book_position(books, name) < books.len() ==> is_book_for(books[book_position(books, name)], name),
    decreases books.len(),
{
    if books.len() > 0 && !is_book_for(books[0], name) {
        let t = books.drop_first();
        lemma_book_position_props(t, name);
        assert forall|j: int| 0 <= j < book_position(books, name) implies !is_book_for(#[trigger] books[j], name) by {
            if j > 0 {
                assert(books[j] == t[j - 1]);
            }
        }
    }
}

/// The books, with a new empty one for `name` at the end where none is for it.
pub open spec fn books_for(books: Seq<OrderBookView>, name: Seq<char>) -> Seq<OrderBookView> {
    if book_position(books, name) < books.len() {
        books
    } else {
        books.push(empty_book(name))
    }
}

/// The market `books` can take the order log line `log`.
pub open spec fn market_allows(books: Seq<OrderBookView>, log: DerivativeOrderLog) -> bool {
    book_allows(books_for(books, log.name@)[book_position(books, log.name@)], log)
}

/// `after` is the market `before` once it has handled `log`, and `r` what it
/// gave back: the book for the line's symbol, made where there was none, has
/// handled the line, and every other book is as it was.
pub open spec fn market_after(
    before: Seq<OrderBookView>,
    log: DerivativeOrderLog,
    after: Seq<OrderBookView>,
    r: Option<DerivativeOrderLog>,
) -> bool {
    let bs = books_for(before, log.name@);
    let i = book_position(before, log.name@);
    &&& after.len() == bs.len()
    &&& forall|j: int| 0 <= j < bs.len() && j != i ==> after[j] == bs[j]
    &&& book_after(bs[i], log, after[i], r)
}

impl Market {
    /// No two books are for the same instrument, and every side of every
    /// book keeps its prices in increasing order.
    pub open spec fn wf(&self) -> bool {
        &&& forall|i: int, j: int|
            0 <= i < j < self@.len() ==> !(self@[i].name == self@[j].name && self@[i].asset_class
                == self@[j].asset_class)
        &&& forall|i: int| 0 <= i < self@.len() ==> sorted_tree(#[trigger] self@[i].bids) && sorted_tree(self@[i].asks)
    }
}

impl Priced for (Decimal, OrderStack<DerivativeOrderLog>) {
    open spec fn level_price(&self) -> Decimal {
        self.0
    }

    fn price_of(&self) -> (r: &Decimal) {
        &self.0
    }
}

/// Finds the price `price` in one side of a book by bisection: `Ok` with its
/// position, or `Err` with the position where it would go.
fn find_in_tree(t: &Vec<(Decimal, OrderStack<DerivativeOrderLog>)>, price: &Decimal) -> (r: Result<usize, usize>)
    requires
        sorted_tree(tree_view(t@)),
    ensures
        r matches Ok(i) ==> i == tree_position(tree_view(t@), price.key()) && tree_has(tree_view(t@), price.key()),
        r matches Err(i) ==> i == tree_position(tree_view(t@), price.key()) && !tree_has(tree_view(t@), price.key()),
        r matches Err(i) ==> i <= t@.len()
            && (forall|j: int| 0 <= j < i ==> t@[j].0.key() < price.key())
            && (forall|j: int| i <= j < t@.len() ==> t@[j].0.key() > price.key()),
{
    let ghost tv = tree_view(t@);
    proof {
        assert(price_keys(t@) =~= tree_keys(tv));
        lemma_tree_position_splits(tv, price.key());
        assert forall|i: int, j: int| 0 <= i < j < t@.len() implies price_keys(t@)[i] < price_keys(t@)[j] by {
            assert(tv[i].0 == t@[i].0 && tv[j].0 == t@[j].0);
        }
    }
    let r = find_price(t, price);
    proof {
        if let Err(i) = r {
            let keys = price_keys(t@);
            assert forall|j: int| 0 <= j < i implies t@[j].0.key() < price.key() by {
                assert(keys[j] == t@[j].0.key());
            }
            assert forall|j: int| i <= j < t@.len() implies t@[j].0.key() > price.key() by {
                assert(keys[j] == t@[j].0.key());
            }
        }
    }
    r
}

/// Adds the limit order `log` at `price` to one side of a book: to the stack
/// filed under that price, made empty where there is none.
fn tree_add_order(t: &mut Vec<(Decimal, OrderStack<DerivativeOrderLog>)>, price: Decimal, log: DerivativeOrderLog)
    requires
        sorted_tree(tree_view(old(t)@)),
    ensures
        tree_view(final(t)@) == tree_add(tree_view(old(t)@), price, log),
        sorted_tree(tree_view(final(t)@)),
{
    let ghost before = tree_view(t@);
    match find_in_tree(t, &price) {
        Ok(n) => {
            t[n].1.add(log);
            assert(tree_view(t@) =~= before.update(n as int, (before[n as int].0, with_order(before[n as int].1, log))));
        },
        Err(n) => {
            let stack: OrderStack<DerivativeOrderLog> = OrderStack::default();
            t.insert(n, (price, stack));
            t[n].1.add(log);
            assert(tree_view(t@) =~= before.insert(
                n as int,
                (price, with_order(empty_stack(Decimal::spec_new(0, 0)), log)),
            ));
        },
    }
}

/// Cancels the order filed under `id` in the stack at `price` of one side of
/// a book.
fn tree_cancel_order(t: &mut Vec<(Decimal, OrderStack<DerivativeOrderLog>)>, price: Decimal, id: u64)
    requires
        sorted_tree(tree_view(old(t)@)),
        tree_has(tree_view(old(t)@), price.key()),
        tree_view(old(t)@)[tree_position(tree_view(old(t)@), price.key())].1.orders.contains_key(id),
    ensures
        sorted_tree(tree_view(final(t)@)),
        ({
            let before = tree_view(old(t)@);
            let after = tree_view(final(t)@);
            let p = tree_position(before, price.key());
            &&& after == before.update(p, (before[p].0, after[p].1))
            &&& removed_by_id(before[p].1, id, after[p].1)
        }),
{
    let ghost before = tree_view(t@);
    match find_in_tree(t, &price) {
        Ok(n) => {
            t[n].1.remove_by_id(&id);
            assert(tree_view(t@) =~= before.update(n as int, (before[n as int].0, tree_view(t@)[n as int].1)));
        },
        Err(_) => {},
    }
}

/// Fills the order filed under `id` in the stack at `price` of one side of a
/// book with the trade `log`.
fn tree_trade_order(
    t: &mut Vec<(Decimal, OrderStack<DerivativeOrderLog>)>,
    price: Decimal,
    id: u64,
    log: &DerivativeOrderLog,
)
    requires
        sorted_tree(tree_view(old(t)@)),
        tree_has(tree_view(old(t)@), price.key()),
        tree_view(old(t)@)[tree_position(tree_view(old(t)@), price.key())].1.orders.contains_key(id),
        i64::MIN <= tree_view(old(t)@)[tree_position(tree_view(old(t)@), price.key())].1.orders[id].volume
            - log.volume <= i64::MAX,
    ensures
        sorted_tree(tree_view(final(t)@)),
        ({
            let before = tree_view(old(t)@);
            let after = tree_view(final(t)@);
            let p = tree_position(before, price.key());
            &&& after == before.update(p, (before[p].0, after[p].1))
            &&& traded(before[p].1, id, *log, after[p].1)
        }),
{
    let ghost before = tree_view(t@);
    match find_in_tree(t, &price) {
        Ok(n) => {
            t[n].1.trade_order(id, log);
            assert(tree_view(t@) =~= before.update(n as int, (before[n as int].0, tree_view(t@)[n as int].1)));
        },
        Err(_) => {},
    }
}

impl OrderStack<DerivativeOrderLog> {
    /// Fills the order filed under `id` with the trade `log`: a trade for its
    /// whole volume takes the order out, a smaller one takes the traded
    /// volume off it.
    fn trade_order(&mut self, id: u64, log: &DerivativeOrderLog)
        requires
            old(self)@.orders.contains_key(id),
            i64::MIN <= old(self)@.orders[id].volume - log.volume <= i64::MAX,
        ensures
            traded(old(self)@, id, *log, final(self)@),
    {
        match self.map.remove(&id) {
            Some(mut to_mut) => {
                if to_mut.volume == log.volume {
                    self.map.insert(id, to_mut);
                    assert(self.map@ =~= old(self)@.orders);
                    self.remove_by_id(&id);
                } else {
                    to_mut.volume = to_mut.volume - log.volume;
                    self.map.insert(id, to_mut);
                    assert(self@ =~= StackView {
                        price: old(self)@.price,
                        orders: old(self)@.orders.insert(
                            id,
                            DerivativeOrderLog {
                                volume: (old(self)@.orders[id].volume - log.volume) as i64,
                                ..old(self)@.orders[id]
                            },
                        ),
                        queue: old(self)@.queue,
                    });
                }
            },
            None => {},
        }
    }
}

impl OrderBook {
    /// Both sides keep their prices in increasing order.
    pub open spec fn wf(&self) -> bool {
        sorted_tree(self@.bids) && sorted_tree(self@.asks)
    }

    /// Applies the order log line `log` to this book; gives back the waiting
    /// market order that a cancel or a trade at the market price takes out.
    fn handle_log(&mut self, log: DerivativeOrderLog) -> (r: Option<DerivativeOrderLog>)
        requires
            old(self).wf(),
            book_allows(old(self)@, log),
        ensures
            final(self).wf(),
            book_after(old(self)@, log, final(self)@, r),
    {
        let ghost b = self@;
        let action = log.action;
        let price = log.price;
        let side = log.side;
        match price {
            Price::Market => match action {
                Action::Add => {
                    // an id that is already waiting is left out by `book_allows`
                    let _check = self.remaining_market_orders.insert(log.id, log);
                    assert(self@ =~= OrderBookView {
                        remaining_market_orders: b.remaining_market_orders.insert(log.id, log),
                        ..b
                    });
                    None
                },
                _ => {
                    let found = self.remaining_market_orders.remove(&log.id);
                    assert(self@ =~= OrderBookView {
                        remaining_market_orders: b.remaining_market_orders.remove(log.id),
                        ..b
                    });
                    found
                },
            },
            Price::Limit(l) => {
                let id = log.id as u64;
                match action {
                    Action::Add => {
                        match side {
                            Side::Buy => tree_add_order(&mut self.bids, l, log),
                            Side::Sell => tree_add_order(&mut self.asks, l, log),
                        }
                    },
                    Action::Cancel => {
                        match side {
                            Side::Buy => tree_cancel_order(&mut self.bids, l, id),
                            Side::Sell => tree_cancel_order(&mut self.asks, l, id),
                        }
                    },
                    Action::Trade(_) => {
                        match side {
                            Side::Buy => tree_trade_order(&mut self.bids, l, id, &log),
                            Side::Sell => tree_trade_order(&mut self.asks, l, id, &log),
                        }
                    },
                }
                assert(self@ =~= with_side_tree(b, side, side_tree(self@, side)));
                None
            },
        }
    }
}

impl Default for OrderBook {
    /// An empty book for the default instrument.
    fn default() -> (r: OrderBook)
        ensures
            r@ == empty_book(Seq::empty()),
            r.wf(),
    {
        let r = OrderBook {
            id: OrderBookId { name: String::new(), asset_class: AssetClass::default() },
            bids: Vec::new(),
            asks: Vec::new(),
            remaining_market_orders: HashMap::new(),
        };
        assert(r@ =~= empty_book(Seq::empty()));
        r
    }
}

/// The position of the first book in `books` for the instrument `id`, or
/// the number of books where there is none.
fn find_book(books: &Vec<OrderBook>, id: &OrderBookId) -> (r: usize)
    requires
        id.asset_class == AssetClass::Equity,
    ensures
        r == book_position(books@.map_values(|b: OrderBook| b@), id.name@),
{
    let ghost bv = books@.map_values(|b: OrderBook| b@);
    let mut i: usize = 0;
    while i < books.len()
        invariant
            i <= books@.len(),
            bv == books@.map_values(|b: OrderBook| b@),
            id.asset_class == AssetClass::Equity,
            forall|j: int| 0 <= j < i ==> !is_book_for(#[trigger] bv[j], id.name@),
        decreases books.len() - i,
    {
        assert(bv[i as int] == books@[i as int]@);
        if books[i].id.same_as(id) {
            proof {
                lemma_book_position(bv, id.name@, i as int);
            }
            return i;
        }
        i = i + 1;
    }
    proof {
        lemma_book_position(bv, id.name@, i as int);
    }
    i
}

impl Market {
    /// Applies the derivatives order log line `log` to the book of its
    /// symbol, made empty where there is none yet: a market order is added
    /// to the waiting market orders or, cancelled or traded, taken out of
    /// them and given back; a limit order is added to the stack at its price
    /// on its side (buy orders rest with the bids, sell orders with the
    /// asks), cancelled out of it, or filled by a trade.
    #[verifier::spinoff_prover]
    pub fn handle(&mut self, log: DerivativeOrderLog) -> (r: Option<DerivativeOrderLog>)
        requires
            old(self).wf(),
            market_allows(old(self)@, log),
        ensures
            final(self).wf(),
            market_after(old(self)@, log, final(self)@, r),
    {
        let ghost before = self@;
        proof {
            lemma_book_position_props(before, log.name@);
        }
        let id = OrderBookId { name: log.name.clone(), asset_class: AssetClass::default() };
        let i = find_book(&self.books, &id);
        if i == self.books.len() {
            let book = OrderBook {
                id,
                bids: Vec::new(),
                asks: Vec::new(),
                remaining_market_orders: HashMap::new(),
            };
            assert(book@ =~= empty_book(log.name@));
            self.books.push(book);
            assert(self@ =~= before.push(empty_book(log.name@)));
        }
        let ghost mid = self@;
        assert(mid == books_for(before, log.name@));
        assert(self.books@[i as int].wf());
        let r = self.books[i].handle_log(log);
        assert(self@[i as int] == self.books@[i as int]@);
        assert forall|j: int| 0 <= j < self@.len() implies sorted_tree(#[trigger] self@[j].bids) && sorted_tree(
            self@[j].asks,
        ) by {
            if j != i {
                assert(self@[j] == mid[j]);
                if j < before.len() {
                    assert(mid[j] == before[j]);
                } else {
                    assert(mid[j] == empty_book(log.name@));
                }
            }
        }
        assert(self@[i as int].name == mid[i as int].name && self@[i as int].asset_class == mid[i as int].asset_class);
        assert forall|a: int, c: int| 0 <= a < c < self@.len() implies !(self@[a].name == self@[c].name
            && self@[a].asset_class == self@[c].asset_class) by {
            assert(self@[a].name == mid[a].name && self@[a].asset_class == mid[a].asset_class);
            assert(self@[c].name == mid[c].name && self@[c].asset_class == mid[c].asset_class);
        }
        assert(self.wf());
        r
    }
}

/// A trade for less than the whole volume of a resting limit order, handled
/// by the market, changes only that order's volume: the order keeps its
/// place in the arrival queue of its stack, which is exactly as it was; every
/// other order of that stack, every other price level of that side and every
/// other book is as it was, and nothing is given back.
pub proof fn lemma_partial_trade_keeps_queue(
    before: Seq<OrderBookView>,
    log: DerivativeOrderLog,
    after: Seq<OrderBookView>,
    r: Option<DerivativeOrderLog>,
)
    requires
        market_allows(before, log),
        market_after(before, log, after, r),
        log.price is Limit,
        log.action is Trade,
        ({
            let b = books_for(before, log.name@)[book_position(before, log.name@)];
            let t = side_tree(b, log.side);
            let p = tree_position(t, limit_of(log.price).key());
            t[p].1.orders[log.id as u64].volume != log.volume
        }),
    ensures
        ({
            let i = book_position(before, log.name@);
            let bs = books_for(before, log.name@);
            let t = side_tree(bs[i], log.side);
            let p = tree_position(t, limit_of(log.price).key());
            let t2 = side_tree(after[i], log.side);
            let id = log.id as u64;
            &&& r is None
            &&& after.len() == bs.len()
            &&& forall|j: int| 0 <= j < bs.len() && j != i ==> after[j] == bs[j]
            &&& t2.len() == t.len()
            &&& forall|j: int| 0 <= j < t.len() && j != p ==> t2[j] == t[j]
            &&& t2[p].0 == t[p].0
            &&& t2[p].1.queue == t[p].1.queue
            &&& t2[p].1.orders.contains_key(id)
            &&& t2[p].1.orders[id].volume == t[p].1.orders[id].volume - log.volume
            &&& t2[p].1.orders[id].id == t[p].1.orders[id].id
            &&& forall|k: u64| k != id ==> (t2[p].1.orders.contains_key(k) == t[p].1.orders.contains_key(k)
                && t2[p].1.orders[k] == t[p].1.orders[k])
        }),
{
    lemma_book_position_props(before, log.name@);
    let i = book_position(before, log.name@);
    let bs = books_for(before, log.name@);
    let b = bs[i];
    let t = side_tree(b, log.side);
    let k = limit_of(log.price).key();
    let p = tree_position(t, k);
    let t2 = side_tree(after[i], log.side);
    let id = log.id as u64;
    assert(i < bs.len());
    lemma_key_position_bounds(tree_keys(t), k);
    assert(book_allows(b, log));
    assert(book_after(b, log, after[i], r));
    assert(tree_has(t, k));
    assert(after[i] == with_side_tree(b, log.side, t.update(p, (t[p].0, t2[p].1))));
    assert(t2 == t.update(p, (t[p].0, t2[p].1)));
    assert(traded(t[p].1, id, log, t2[p].1));
}

/// What one call undoes: a market order added to a book and then cancelled
/// (or traded) under the same id is given back, and the book is as it was.
pub proof fn lemma_market_order_add_then_take_out(
    b: OrderBookView,
    add: DerivativeOrderLog,
    take: DerivativeOrderLog,
    mid: OrderBookView,
    after: OrderBookView,
    r1: Option<DerivativeOrderLog>,
    r2: Option<DerivativeOrderLog>,
)
    requires
        add.price is Market,
        add.action is Add,
        take.price is Market,
        !(take.action is Add),
        take.id == add.id,
        !b.remaining_market_orders.contains_key(add.id),
        book_after(b, add, mid, r1),
        book_after(mid, take, after, r2),
    ensures
        r1 is None,
        r2 == Some(add),
        after == b,
{
    assert(after.remaining_market_orders =~= b.remaining_market_orders);
}

/// What one call undoes, for limit orders: a limit order added to a book
/// under an id that the stack at its price does not hold, then cancelled
/// under the same id, side and price, leaves that stack with the orders by
/// number it had (none where the stack is new), and its queue as it was where
/// that queue was in increasing order below the id. The waiting market orders
/// and the other side are as they were.
pub proof fn lemma_limit_order_add_then_cancel(
    b: OrderBookView,
    add: DerivativeOrderLog,
    cancel: DerivativeOrderLog,
    mid: OrderBookView,
    after: OrderBookView,
    r1: Option<DerivativeOrderLog>,
    r2: Option<DerivativeOrderLog>,
)
    requires
        sorted_tree(side_tree(b, add.side)),
        add.price is Limit,
        add.action is Add,
        cancel.action is Cancel,
        cancel.price == add.price,
        cancel.side == add.side,
        cancel.id == add.id,
        ({
            let t = side_tree(b, add.side);
            let k = limit_of(add.price).key();
            tree_has(t, k) ==> !t[tree_position(t, k)].1.orders.contains_key(add.id as u64)
        }),
        book_after(b, add, mid, r1),
        book_after(mid, cancel, after, r2),
    ensures
        r1 is None,
        r2 is None,
        after.remaining_market_orders == b.remaining_market_orders,
        side_tree(after, add.side.opposite()) == side_tree(b, add.side.opposite()),
        ({
            let t = side_tree(b, add.side);
            let k = limit_of(add.price).key();
            let p = tree_position(t, k);
            let s2 = side_tree(after, add.side)[p].1;
            &&& tree_position(side_tree(mid, add.side), k) == p
            &&& s2.orders == (if tree_has(t, k) {
                t[p].1.orders
            } else {
                Map::empty()
            })
            &&& (tree_has(t, k) && strictly_increasing(t[p].1.queue) && (forall|i: int|
                0 <= i < t[p].1.queue.len() ==> t[p].1.queue[i] < add.id as u64)) ==> s2.queue == t[p].1.queue
        }),
{
    let side = add.side;
    let t = side_tree(b, side);
    let l = limit_of(add.price);
    let k = l.key();
    let p = tree_position(t, k);
    let tm = side_tree(mid, side);
    let no = add.id as u64;
    lemma_tree_position_splits(t, k);
    assert(tm == tree_add(t, l, add));
    let base = if tree_has(t, k) {
        t[p].1
    } else {
        empty_stack::<DerivativeOrderLog>(Decimal::spec_new(0, 0))
    };
    if tree_has(t, k) {
        lemma_tree_position(tm, k, p);
    } else {
        assert forall|j: int| p <= j < t.len() implies t[j].0.key() > k by {
            if t[j].0.key() == k {
                assert(t[p].0.key() <= t[j].0.key());
            }
        }
        lemma_tree_position(tm, k, p);
    }
    assert(tm[p].1 == with_order(base, add));
    lemma_add_then_remove_by_id(base, add, side_tree(after, side)[p].1);
    assert(base.orders == (if tree_has(t, k) {
        t[p].1.orders
    } else {
        Map::empty()
    }));
}

} // verus!
