//! Reading and writing orders through a relational store.

use crate::models::{
    lemma_views_push, views, LineItemView, Order, OrderLineItems, OrderView, UtcDateTime,
};
use crate::outside::{sorted_ascending, utc_now};
use crate::transaction::{delete_start, list_sql, save_start, DeleteTransaction, SaveTransaction};
use std::collections::HashMap;
use vstd::prelude::*;

verus! {

/// One row of the inner join of orders with their line items: the columns of
/// the order, then the columns of one of its lines.
#[derive(Clone, Debug, PartialEq, Eq)]
pub struct JoinedRow {
    pub order_id: i64,
    pub order_number: String,
    pub created_at: Option<UtcDateTime>,
    pub order_item_id: i64,
    pub sku_code: String,
    pub price: i64,
    pub quantity: i64,
}

/// What a `JoinedRow` holds, as mathematical values.
pub ghost struct JoinedRowView {
    pub order_id: i64,
    pub order_number: Seq<char>,
    pub created_at: Option<UtcDateTime>,
    pub order_item_id: i64,
    pub sku_code: Seq<char>,
    pub price: i64,
    pub quantity: i64,
}

impl View for JoinedRow {
    type V = JoinedRowView;

    open spec fn view(&self) -> JoinedRowView {
        JoinedRowView {
            order_id: self.order_id,
            order_number: self.order_number@,
            created_at: self.created_at,
            order_item_id: self.order_item_id,
            sku_code: self.sku_code@,
            price: self.price,
            quantity: self.quantity,
        }
    }
}

/// The line item that a joined row carries.
pub open spec fn item_of(row: JoinedRowView) -> LineItemView {
    LineItemView {
        id: Some(row.order_item_id),
        sku_code: row.sku_code,
        price: row.price,
        quantity: row.quantity,
    }
}

/// The rows that belong to the order `id`, in the order in which they came.
pub open spec fn rows_of(rows: Seq<JoinedRowView>, id: i64) -> Seq<JoinedRowView> {
    rows.filter(|row: JoinedRowView| row.order_id == id)
}

/// Whether some row belongs to the order `id`.
pub open spec fn mentions(rows: Seq<JoinedRowView>, id: i64) -> bool {
    exists|k: int| 0 <= k < rows.len() && (#[trigger] rows[k]).order_id == id
}

/// The order `id` as the rows describe it: the order columns of its first
/// row, and one line item for each of its rows, in the order of the rows.
pub open spec fn order_of(rows: Seq<JoinedRowView>, id: i64) -> OrderView {
    let own = rows_of(rows, id);
    OrderView {
        id: Some(id),
        order_number: own[0].order_number,
        created_at: own[0].created_at,
        items: own.map_values(|row: JoinedRowView| item_of(row)),
    }
}

/// Whether `list` is the list of orders that `rows` describe: every entry is
/// an order that some row mentions, built from all of its rows; the entries
/// stand in strictly ascending order of their identifiers; and every order
/// that a row mentions has its entry.
pub open spec fn is_listing(list: Seq<OrderView>, rows: Seq<JoinedRowView>) -> bool {
    &&& forall|i: int|
        0 <= i < list.len() ==> {
            &&& (#[trigger] list[i]).id is Some
            &&& mentions(rows, list[i].id.unwrap())
            &&& list[i] == order_of(rows, list[i].id.unwrap())
        }
    &&& forall|i: int, j: int|
        0 <= i < j < list.len() ==> (#[trigger] list[i]).id.unwrap() < (#[trigger] list[j]).id.unwrap()
    &&& forall|k: int|
        0 <= k < rows.len() ==> exists|i: int|
            0 <= i < list.len() && (#[trigger] list[i]).id == Some((#[trigger] rows[k]).order_id)
}

/// A row belongs to an order exactly if the order has at least one row.
pub proof fn lemma_mentions_iff_rows(rows: Seq<JoinedRowView>, id: i64)
    ensures
        mentions(rows, id) <==> rows_of(rows, id).len() > 0,
    decreases rows.len(),
{
    let pred = |row: JoinedRowView| row.order_id == id;
    if rows.len() == 0 {
        reveal(Seq::filter);
    } else {
        let front = rows.drop_last();
        let last = rows.last();
        assert(front.push(last) =~= rows);
        front.lemma_filter_push(last, pred);
        lemma_mentions_iff_rows(front, id);
        if mentions(rows, id) {
            let k = choose|k: int| 0 <= k < rows.len() && (#[trigger] rows[k]).order_id == id;
            if k < rows.len() - 1 {
                assert(front[k].order_id == id);
            }
        }
        if mentions(front, id) {
            let k = choose|k: int| 0 <= k < front.len() && (#[trigger] front[k]).order_id == id;
            assert(rows[k].order_id == id);
        }
        if pred(last) {
            assert(rows[rows.len() - 1].order_id == id);
        }
    }
}

/// What one more row does to the order it belongs to, and to the others.
pub proof fn lemma_order_of_push(rows: Seq<JoinedRowView>, row: JoinedRowView, id: i64)
    ensures
        row.order_id != id ==> order_of(rows.push(row), id) == order_of(rows, id),
        row.order_id == id && mentions(rows, id) ==> order_of(rows.push(row), id) == (OrderView {
            items: order_of(rows, id).items.push(item_of(row)),
            ..order_of(rows, id)
        }),
        row.order_id == id && !mentions(rows, id) ==> order_of(rows.push(row), id) == (OrderView {
            id: Some(id),
            order_number: row.order_number,
            created_at: row.created_at,
            items: seq![item_of(row)],
        }),
        mentions(rows.push(row), id) <==> (row.order_id == id || mentions(rows, id)),
{
    let pred = |r: JoinedRowView| r.order_id == id;
    let item = |r: JoinedRowView| item_of(r);
    rows.lemma_filter_push(row, pred);
    lemma_mentions_iff_rows(rows, id);
    lemma_mentions_iff_rows(rows.push(row), id);
    let own = rows_of(rows, id);
    if row.order_id == id {
        assert(own.push(row).map_values(item) =~= own.map_values(item).push(item_of(row)));
        if !mentions(rows, id) {
            assert(own.push(row).map_values(item) =~= seq![item_of(row)]);
        }
    }
}

/// Two lists in strictly ascending order that hold the same numbers are the
/// same list.
proof fn lemma_ascending_unique(x: Seq<i64>, y: Seq<i64>)
    requires
        forall|i: int, j: int| 0 <= i < j < x.len() ==> x[i] < x[j],
        forall|i: int, j: int| 0 <= i < j < y.len() ==> y[i] < y[j],
        forall|i: int| 0 <= i < x.len() ==> y.contains(#[trigger] x[i]),
        forall|i: int| 0 <= i < y.len() ==> x.contains(#[trigger] y[i]),
    ensures
        x == y,
    decreases x.len(),
{
    if x.len() == 0 {
        if y.len() > 0 {
            assert(x.contains(y[0]));
        }
        assert(x =~= y);
    } else {
        assert(y.contains(x[0]));
        let top = x.last();
        assert(y.contains(top));
        assert(x.contains(y.last()));
        assert(y.last() == top);
        let xs = x.drop_last();
        let ys = y.drop_last();
        assert forall|i: int| 0 <= i < xs.len() implies ys.contains(#[trigger] xs[i]) by {
            assert(y.contains(x[i]));
            let j = choose|j: int| 0 <= j < y.len() && y[j] == x[i];
            assert(ys[j] == xs[i]);
        }
        assert forall|i: int| 0 <= i < ys.len() implies xs.contains(#[trigger] ys[i]) by {
            assert(x.contains(y[i]));
            let j = choose|j: int| 0 <= j < x.len() && x[j] == y[i];
            assert(xs[j] == ys[i]);
        }
        lemma_ascending_unique(xs, ys);
        assert(x =~= xs.push(top));
        assert(y =~= ys.push(top));
    }
}

/// The rows decide the list: two lists of the orders that the same rows
/// describe are equal, entry by entry and in the same order.
pub proof fn law_listing_is_unique(a: Seq<OrderView>, b: Seq<OrderView>, rows: Seq<JoinedRowView>)
    requires
        is_listing(a, rows),
        is_listing(b, rows),
    ensures
        a == b,
{
    let x = Seq::new(a.len(), |i: int| a[i].id.unwrap());
    let y = Seq::new(b.len(), |i: int| b[i].id.unwrap());
    assert forall|i: int| 0 <= i < x.len() implies y.contains(#[trigger] x[i]) by {
        lemma_listed_twice(a, b, rows, i);
        let j = choose|j: int| 0 <= j < b.len() && b[j].id == a[i].id;
        assert(y[j] == x[i]);
    }
    assert forall|i: int| 0 <= i < y.len() implies x.contains(#[trigger] y[i]) by {
        lemma_listed_twice(b, a, rows, i);
        let j = choose|j: int| 0 <= j < a.len() && a[j].id == b[i].id;
        assert(x[j] == y[i]);
    }
    assert forall|i: int, j: int| 0 <= i < j < x.len() implies x[i] < x[j] by {
        assert(a[i].id.unwrap() < a[j].id.unwrap());
    }
    assert forall|i: int, j: int| 0 <= i < j < y.len() implies y[i] < y[j] by {
        assert(b[i].id.unwrap() < b[j].id.unwrap());
    }
    lemma_ascending_unique(x, y);
    assert forall|i: int| 0 <= i < a.len() implies a[i] == b[i] by {
        assert(x[i] == y[i]);
        assert(a[i] == order_of(rows, a[i].id.unwrap()));
        assert(b[i] == order_of(rows, b[i].id.unwrap()));
    }
    assert(a =~= b);
}

/// An order that stands in one list of the rows stands in every other.
proof fn lemma_listed_twice(a: Seq<OrderView>, b: Seq<OrderView>, rows: Seq<JoinedRowView>, i: int)
    requires
        is_listing(a, rows),
        is_listing(b, rows),
        0 <= i < a.len(),
    ensures
        exists|j: int| 0 <= j < b.len() && b[j].id == a[i].id,
{
    let id = a[i].id.unwrap();
    assert(mentions(rows, id));
    let k = choose|k: int| 0 <= k < rows.len() && (#[trigger] rows[k]).order_id == id;
    let j = choose|j: int| 0 <= j < b.len() && (#[trigger] b[j]).id == Some(rows[k].order_id);
    assert(b[j].id == a[i].id);
}

/// The repository of orders: the rules by which orders are written to and
/// read from the store.
pub struct OrderRepository {}

impl OrderRepository {
    pub fn new() -> (repository: OrderRepository) {
        OrderRepository {  }
    }

    /// Starts the transaction that stores `order` with all its lines, or
    /// nothing of it. The time of creation that it records is the reading of
    /// the clock now, in UTC. The transaction returns the order number of
    /// `order` once it has been committed.
    pub fn save(&self, order: &Order) -> (tx: SaveTransaction)
        ensures
            tx@ == save_start(order@, tx@.created_at),
            tx@.created_at.nanos < 1_000_000_000,
    {
        SaveTransaction::new(order, utc_now())
    }

    /// The text of the query whose rows `get_order_list` takes.
    pub fn list_query(&self) -> (text: &'static str)
        ensures
            text@ == list_sql(),
    {
        "SELECT o.id AS order_id, o.order_number, o.created_at, oi.id AS order_item_id, oi.sku_code, oi.price, oi.quantity FROM `order-service`.`t_orders` AS o INNER JOIN `order-service`.`t_order_line_items` AS oi ON o.id = oi.order_id"
    }

    /// Starts the transaction that removes the order `order_id`, its lines
    /// first. The transaction returns whether the store removed an order
    /// once it has been committed.
    pub fn delete(&self, order_id: i64) -> (tx: DeleteTransaction)
        ensures
            tx@ == delete_start(order_id),
    {
        DeleteTransaction::new(order_id)
    }

    /// Assembles the orders from the rows of the join of orders with their
    /// line items. Each order gets the columns of its first row and one line
    /// for each of its rows, in the order of the rows; the orders come in
    /// ascending order of their identifiers. An order without a row is not
    /// among them.
    pub fn get_order_list(&self, rows: &Vec<JoinedRow>) -> (orders: Vec<Order>)
        ensures
            is_listing(views(orders@), views(rows@)),
    {
        broadcast use vstd::std_specs::hash::group_hash_axioms;

        let ghost all = views(rows@);
        let mut cache: HashMap<i64, Order> = HashMap::new();
        let mut ids: Vec<i64> = Vec::new();
        let mut k: usize = 0;
        while k < rows.len()
            invariant
                k <= rows.len(),
                all == views(rows@),
                forall|id: i64| #[trigger] cache@.contains_key(id) <==> mentions(all.take(k as int), id),
                forall|id: i64| #[trigger]
                    cache@.contains_key(id) ==> cache@[id]@ == order_of(all.take(k as int), id),
                ids@.no_duplicates(),
                forall|id: i64| #[trigger] ids@.contains(id) <==> cache@.contains_key(id),
            decreases rows.len() - k,
        {
            let row = &rows[k];
            let id = row.order_id;
            let ghost seen = all.take(k as int);
            let ghost before = cache@;
            proof {
                assert(all.take(k as int + 1) =~= seen.push(row@));
                assert forall|other: i64| #[trigger]
                    mentions(seen.push(row@), other) <==> (other == id || mentions(
                        seen,
                        other,
                    )) by {
                    lemma_order_of_push(seen, row@, other);
                }
                lemma_order_of_push(seen, row@, id);
            }
            let item = OrderLineItems {
                id: Some(row.order_item_id),
                sku_code: row.sku_code.clone(),
                price: row.price,
                quantity: row.quantity,
            };
            assert(item@ == item_of(row@));
            match cache.remove(&id) {
                Some(mut order) => {
                    proof {
                        assert(before.contains_key(id) && order == before[id]);
                        lemma_views_push(order.items@, item);
                    }
                    order.items.push(item);
                    assert(order@ == order_of(seen.push(row@), id));
                    cache.insert(id, order);
                },
                None => {
                    let mut items: Vec<OrderLineItems> = Vec::new();
                    proof {
                        lemma_views_push(items@, item);
                        assert(views(items@.push(item)) =~= seq![item@]);
                    }
                    items.push(item);
                    let order = Order {
                        id: Some(id),
                        order_number: row.order_number.clone(),
                        created_at: row.created_at,
                        items,
                    };
                    proof {
                        assert(!ids@.contains(id));
                        assert forall|other: i64| #[trigger]
                            ids@.push(id).contains(other) <==> (other == id || ids@.contains(
                                other,
                            )) by {
                            if ids@.contains(other) {
                                let i = choose|i: int| 0 <= i < ids@.len() && ids@[i] == other;
                                assert(ids@.push(id)[i] == other);
                            }
                            if other == id {
                                assert(ids@.push(id)[ids@.len() as int] == id);
                            }
                        }
                    }
                    ids.push(id);
                    assert(order@ == order_of(seen.push(row@), id));
                    cache.insert(id, order);
                },
            }
            proof {
                assert forall|other: i64| #[trigger] cache@.contains_key(other) implies cache@[other]@
                    == order_of(seen.push(row@), other) by {
                    if other != id {
                        lemma_order_of_push(seen, row@, other);
                        assert(before.contains_key(other));
                        assert(cache@[other] == before[other]);
                    }
                }
            }
            k = k + 1;
        }
        proof {
            assert(all.take(k as int) =~= all);
        }
        let ghost unsorted = ids@;
        let sorted = sorted_ascending(ids);
        proof {
            unsorted.lemma_multiset_has_no_duplicates();
            sorted@.lemma_multiset_has_no_duplicates_conv();
            assert forall|id: i64| #[trigger] sorted@.contains(id) <==> unsorted.contains(id) by {
                vstd::seq_lib::to_multiset_contains(sorted@, id);
                vstd::seq_lib::to_multiset_contains(unsorted, id);
            }
            assert forall|j: int| 0 <= j < sorted.len() implies cache@.contains_key(
                #[trigger] sorted[j],
            ) by {
                assert(sorted@.contains(sorted[j]));
            }
        }
        let mut orders: Vec<Order> = Vec::new();
        let mut i: usize = 0;
        while i < sorted.len()
            invariant
                i <= sorted.len(),
                orders.len() == i,
                sorted@.no_duplicates(),
                forall|j: int|
                    0 <= j < i ==> (#[trigger] orders[j])@ == order_of(all, sorted[j]),
                forall|j: int|
                    i <= j < sorted.len() ==> cache@.contains_key(#[trigger] sorted[j])
                        && cache@[sorted[j]]@ == order_of(all, sorted[j]),
            decreases sorted.len() - i,
        {
            let id = sorted[i];
            assert(cache@.contains_key(sorted[i as int]));
            match cache.remove(&id) {
                Some(order) => {
                    orders.push(order);
                },
                None => {},
            }
            i = i + 1;
        }
        proof {
            let list = views(orders@);
            assert forall|j: int| 0 <= j < list.len() implies {
                &&& (#[trigger] list[j]).id is Some
                &&& mentions(all, list[j].id.unwrap())
                &&& list[j] == order_of(all, list[j].id.unwrap())
                &&& list[j].id == Some(sorted[j])
            } by {
                assert(list[j] == orders[j]@);
                assert(sorted@.contains(sorted[j]));
            }
            assert forall|a: int, b: int| 0 <= a < b < list.len() implies (#[trigger] list[a]).id.unwrap()
                < (#[trigger] list[b]).id.unwrap() by {
                assert(list[a].id == Some(sorted[a]));
                assert(list[b].id == Some(sorted[b]));
                assert(sorted[a] != sorted[b]);
            }
            assert forall|r: int| 0 <= r < all.len() implies exists|j: int|
                0 <= j < list.len() && (#[trigger] list[j]).id == Some((#[trigger] all[r]).order_id) by {
                let id = all[r].order_id;
                assert(mentions(all, id));
                assert(sorted@.contains(id));
                let j = choose|j: int| 0 <= j < sorted@.len() && sorted@[j] == id;
                assert(list[j].id == Some(id));
            }
        }
        orders
    }
}

} // verus!
