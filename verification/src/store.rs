//! A model of the two tables of the store and of a connection to it, and
//! what the transactions of this library do to them. Everything here is
//! ghost code: the store itself is not part of this library, and what is
//! proved here holds of a store that behaves as the model says.

use crate::error::ErrorView;
use crate::models::{LineItemView, OrderView, UtcDateTime};
use crate::order_repository::{
    is_listing, item_of, lemma_mentions_iff_rows, mentions, order_of, rows_of, JoinedRowView,
};
use crate::transaction::{
    delete_action, delete_next, delete_start, save_action, save_next, save_start, ActionView,
    DeleteStageView, DeleteView, QueryResult, SaveStageView, SaveView, StatementView,
};
use vstd::prelude::*;

verus! {

/// A row of the table of orders.
pub ghost struct OrderRow {
    pub id: i64,
    pub order_number: Seq<char>,
    pub created_at: Option<UtcDateTime>,
}

/// A row of the table of line items.
pub ghost struct LineItemRow {
    pub id: i64,
    pub sku_code: Seq<char>,
    pub price: i64,
    pub quantity: i64,
    pub order_id: i64,
}

/// The two tables, each with its rows in the order in which they were inserted.
pub ghost struct Tables {
    pub orders: Seq<OrderRow>,
    pub items: Seq<LineItemRow>,
}

/// Whether the table of orders has a row with the identifier `id`.
pub open spec fn has_order(tables: Tables, id: i64) -> bool {
    exists|k: int| 0 <= k < tables.orders.len() && (#[trigger] tables.orders[k]).id == id
}

/// Whether the table of line items has a row of the order `id`.
pub open spec fn has_items(tables: Tables, id: i64) -> bool {
    exists|k: int| 0 <= k < tables.items.len() && (#[trigger] tables.items[k]).order_id == id
}

/// The tables after the store has executed `statement`, where `key` is the
/// identifier that the store assigns to an inserted row.
pub open spec fn executed(tables: Tables, statement: StatementView, key: u64) -> Tables {
    match statement {
        StatementView::InsertOrder { order_number, created_at } => Tables {
            orders: tables.orders.push(
                OrderRow { id: key as i64, order_number, created_at: Some(created_at) },
            ),
            ..tables
        },
        StatementView::InsertOrderLineItem { sku_code, price, quantity, order_id } => Tables {
            items: tables.items.push(
                LineItemRow { id: key as i64, sku_code, price, quantity, order_id: order_id as i64 },
            ),
            ..tables
        },
        StatementView::DeleteOrderLineItems { order_id } => Tables {
            items: tables.items.filter(|row: LineItemRow| row.order_id != order_id),
            ..tables
        },
        StatementView::DeleteOrder { id } => Tables {
            orders: tables.orders.filter(|row: OrderRow| row.id != id),
            ..tables
        },
    }
}

/// The number of rows that `statement` inserts into or deletes from the tables.
pub open spec fn affected(tables: Tables, statement: StatementView) -> nat {
    match statement {
        StatementView::InsertOrder { .. } => 1,
        StatementView::InsertOrderLineItem { .. } => 1,
        StatementView::DeleteOrderLineItems { order_id } => tables.items.filter(
            |row: LineItemRow| row.order_id == order_id,
        ).len(),
        StatementView::DeleteOrder { id } => tables.orders.filter(|row: OrderRow| row.id == id).len(),
    }
}

/// A connection to the store: the tables as they were last committed, and
/// the tables as the open transaction sees them.
pub ghost struct Store {
    pub committed: Tables,
    pub working: Tables,
}

/// A store with the given tables and no transaction under way.
pub open spec fn store_of(tables: Tables) -> Store {
    Store { committed: tables, working: tables }
}

/// What the store does with an action: it carries the action out, assigning
/// `key` where a row is inserted, or it refuses with a fault.
pub ghost enum Reply {
    Done { key: u64 },
    Refused(ErrorView),
}

/// The store after an action. A transaction starts from the committed
/// tables; a statement that is carried out changes the tables of the
/// transaction only; a commit makes them the committed tables; a commit that
/// is refused, and the end of the operation, drop them.
pub open spec fn performed<V>(store: Store, action: ActionView<V>, reply: Reply) -> Store {
    match action {
        ActionView::Begin => Store { working: store.committed, ..store },
        ActionView::Execute(statement) => match reply {
            Reply::Done { key } => Store {
                working: executed(store.working, statement, key),
                ..store
            },
            Reply::Refused(_) => store,
        },
        ActionView::Commit => match reply {
            Reply::Done { .. } => Store { committed: store.working, ..store },
            Reply::Refused(_) => Store { working: store.committed, ..store },
        },
        ActionView::Return(_) => Store { working: store.committed, ..store },
    }
}

/// What whoever performs an action reports back of it: the fault, or what
/// the store says of the statement it executed.
pub open spec fn reported<V>(store: Store, action: ActionView<V>, reply: Reply) -> Result<
    QueryResult,
    ErrorView,
> {
    match reply {
        Reply::Refused(error) => Err(error),
        Reply::Done { key } => match action {
            ActionView::Execute(statement) => Ok(
                QueryResult {
                    last_insert_id: key,
                    rows_affected: affected(store.working, statement) as u64,
                },
            ),
            _ => Ok(QueryResult { last_insert_id: 0, rows_affected: 0 }),
        },
    }
}

/// A saving transaction together with the store it runs against.
pub ghost struct SaveRun {
    pub tx: SaveView,
    pub store: Store,
}

/// Saving `order` against a store with the given tables, as far as the
/// replies go: each reply answers the action that the transaction was
/// waiting for, and the transaction takes in what is reported of it.
pub open spec fn save_run(
    order: OrderView,
    created_at: UtcDateTime,
    tables: Tables,
    replies: Seq<Reply>,
) -> SaveRun
    decreases replies.len(),
{
    if replies.len() == 0 {
        SaveRun { tx: save_start(order, created_at), store: store_of(tables) }
    } else {
        let before = save_run(order, created_at, tables, replies.drop_last());
        let action = save_action(before.tx);
        SaveRun {
            tx: save_next(before.tx, reported(before.store, action, replies.last())),
            store: performed(before.store, action, replies.last()),
        }
    }
}

/// Whether `row` is the line `item` stored under the order `order_id`.
pub open spec fn is_line_of(row: LineItemRow, item: LineItemView, order_id: i64) -> bool {
    &&& row.sku_code == item.sku_code
    &&& row.price == item.price
    &&& row.quantity == item.quantity
    &&& row.order_id == order_id
}

/// Whether `after` is `before` with the order stored as `order_id` and with
/// its first `count` lines: one more order row, which carries the order
/// number and the time of creation, and after the old line rows one row for
/// each of those lines, in their order, all of the order `order_id`.
pub open spec fn stored(
    before: Tables,
    after: Tables,
    order: OrderView,
    created_at: UtcDateTime,
    order_id: i64,
    count: nat,
) -> bool {
    &&& after.orders == before.orders.push(
        OrderRow { id: order_id, order_number: order.order_number, created_at: Some(created_at) },
    )
    &&& after.items.len() == before.items.len() + count
    &&& after.items.take(before.items.len() as int) == before.items
    &&& forall|i: int|
        0 <= i < count ==> is_line_of(
            #[trigger] after.items[before.items.len() + i],
            order.items[i],
            order_id,
        )
}

/// What holds of a saving run at every point.
spec fn save_invariant(
    run: SaveRun,
    order: OrderView,
    created_at: UtcDateTime,
    tables: Tables,
) -> bool {
    &&& run.tx.order_number == order.order_number
    &&& run.tx.created_at == created_at
    &&& run.tx.items == order.items
    &&& match run.tx.stage {
        SaveStageView::Begin => run.store.committed == tables,
        SaveStageView::InsertOrder => run.store == store_of(tables),
        SaveStageView::InsertItems { order_id, next } => {
            &&& run.store.committed == tables
            &&& next <= order.items.len()
            &&& stored(tables, run.store.working, order, created_at, order_id as i64, next)
        },
        SaveStageView::Saved => exists|order_id: i64|
            stored(tables, run.store.committed, order, created_at, order_id, order.items.len()),
        SaveStageView::Failed(_) => run.store.committed == tables,
    }
}

proof fn lemma_save_invariant(
    order: OrderView,
    created_at: UtcDateTime,
    tables: Tables,
    replies: Seq<Reply>,
)
    ensures
        save_invariant(save_run(order, created_at, tables, replies), order, created_at, tables),
    decreases replies.len(),
{
    if replies.len() > 0 {
        lemma_save_invariant(order, created_at, tables, replies.drop_last());
        let before = save_run(order, created_at, tables, replies.drop_last());
        let after = save_run(order, created_at, tables, replies);
        let reply = replies.last();
        match before.tx.stage {
            SaveStageView::InsertOrder => {
                if let Reply::Done { key } = reply {
                    let working = after.store.working;
                    assert(working.items.take(tables.items.len() as int) =~= tables.items);
                    assert(stored(tables, working, order, created_at, key as i64, 0));
                }
            },
            SaveStageView::InsertItems { order_id, next } => {
                if let Reply::Done { key } = reply {
                    let old_working = before.store.working;
                    if next < order.items.len() {
                        let working = after.store.working;
                        assert(working.items == old_working.items.push(
                            LineItemRow {
                                id: key as i64,
                                sku_code: order.items[next as int].sku_code,
                                price: order.items[next as int].price,
                                quantity: order.items[next as int].quantity,
                                order_id: order_id as i64,
                            },
                        ));
                        assert(working.items.take(tables.items.len() as int)
                            =~= old_working.items.take(tables.items.len() as int));
                        assert forall|i: int| 0 <= i < next + 1 implies is_line_of(
                            #[trigger] working.items[tables.items.len() + i],
                            order.items[i],
                            order_id as i64,
                        ) by {
                            if i < next {
                                assert(working.items[tables.items.len() + i]
                                    == old_working.items[tables.items.len() + i]);
                            }
                        }
                        assert(stored(
                            tables,
                            working,
                            order,
                            created_at,
                            order_id as i64,
                            next + 1,
                        ));
                    } else {
                        assert(stored(
                            tables,
                            after.store.committed,
                            order,
                            created_at,
                            order_id as i64,
                            order.items.len(),
                        ));
                    }
                }
            },
            _ => {},
        }
    }
}

/// Saving is all or nothing. However the store answers, and however far the
/// transaction has come: once it has been committed, the committed tables
/// are the old ones with exactly one more order row and, after the old line
/// rows, exactly one row for each line of the order, in the order of the
/// lines, all under the identifier of the new order row, and the transaction
/// returns the order number of the order; at every other point, and after
/// every failure, the committed tables are the old ones.
pub proof fn law_save_is_atomic(
    order: OrderView,
    created_at: UtcDateTime,
    tables: Tables,
    replies: Seq<Reply>,
)
    ensures
        ({
            let run = save_run(order, created_at, tables, replies);
            if run.tx.stage is Saved {
                &&& exists|order_id: i64|
                    stored(
                        tables,
                        run.store.committed,
                        order,
                        created_at,
                        order_id,
                        order.items.len(),
                    )
                &&& save_action(run.tx) == ActionView::Return(Ok(order.order_number))
            } else {
                run.store.committed == tables
            }
        }),
{
    lemma_save_invariant(order, created_at, tables, replies);
}

/// A filter keeps something exactly if some element passes it.
proof fn lemma_filter_keeps_some<A>(s: Seq<A>, pred: spec_fn(A) -> bool)
    ensures
        s.filter(pred).len() > 0 <==> exists|i: int| 0 <= i < s.len() && pred(#[trigger] s[i]),
    decreases s.len(),
{
    if s.len() == 0 {
        reveal(Seq::filter);
    } else {
        let front = s.drop_last();
        assert(front.push(s.last()) =~= s);
        front.lemma_filter_push(s.last(), pred);
        lemma_filter_keeps_some(front, pred);
        if exists|i: int| 0 <= i < s.len() && pred(#[trigger] s[i]) {
            let i = choose|i: int| 0 <= i < s.len() && pred(#[trigger] s[i]);
            if i < s.len() - 1 {
                assert(pred(front[i]));
            }
        }
        if exists|i: int| 0 <= i < front.len() && pred(#[trigger] front[i]) {
            let i = choose|i: int| 0 <= i < front.len() && pred(#[trigger] front[i]);
            assert(pred(s[i]));
        }
        if pred(s.last()) {
            assert(pred(s[s.len() - 1]));
        }
    }
}

/// A filter that every element passes keeps the sequence as it is.
proof fn lemma_filter_keeps_all<A>(s: Seq<A>, pred: spec_fn(A) -> bool)
    requires
        forall|i: int| 0 <= i < s.len() ==> pred(#[trigger] s[i]),
    ensures
        s.filter(pred) == s,
    decreases s.len(),
{
    if s.len() == 0 {
        reveal(Seq::filter);
    } else {
        let front = s.drop_last();
        assert(front.push(s.last()) =~= s);
        front.lemma_filter_push(s.last(), pred);
        assert forall|i: int| 0 <= i < front.len() implies pred(#[trigger] front[i]) by {
            assert(pred(s[i]));
        }
        lemma_filter_keeps_all(front, pred);
        assert(pred(s[s.len() - 1]));
    }
}

/// The tables without the order `id` and without its lines.
pub open spec fn without_order(tables: Tables, id: i64) -> Tables {
    Tables {
        orders: tables.orders.filter(|row: OrderRow| row.id != id),
        items: tables.items.filter(|row: LineItemRow| row.order_id != id),
    }
}

/// Neither the order `id` nor a line of it is left in `without_order`.
pub proof fn lemma_without_order(tables: Tables, id: i64)
    ensures
        !has_order(without_order(tables, id), id),
        !has_items(without_order(tables, id), id),
{
    broadcast use Seq::lemma_filter_pred;

    let rest = without_order(tables, id);
    let keep_order = |row: OrderRow| row.id != id;
    let keep_item = |row: LineItemRow| row.order_id != id;
    assert forall|k: int| 0 <= k < rest.orders.len() implies (#[trigger] rest.orders[k]).id
        != id by {
        assert(keep_order(tables.orders.filter(keep_order)[k]));
    }
    assert forall|k: int| 0 <= k < rest.items.len() implies (#[trigger] rest.items[k]).order_id
        != id by {
        assert(keep_item(tables.items.filter(keep_item)[k]));
    }
}

/// Where the tables hold neither the order `id` nor a line of it,
/// `without_order` leaves them as they are.
pub proof fn lemma_without_absent_order(tables: Tables, id: i64)
    requires
        !has_order(tables, id),
        !has_items(tables, id),
    ensures
        without_order(tables, id) == tables,
{
    lemma_filter_keeps_all(tables.orders, |row: OrderRow| row.id != id);
    lemma_filter_keeps_all(tables.items, |row: LineItemRow| row.order_id != id);
}

/// A deleting transaction together with the store it runs against.
pub ghost struct DeleteRun {
    pub tx: DeleteView,
    pub store: Store,
}

/// Deleting the order `order_id` against a store with the given tables, as
/// far as the replies go.
pub open spec fn delete_run(order_id: i64, tables: Tables, replies: Seq<Reply>) -> DeleteRun
    decreases replies.len(),
{
    if replies.len() == 0 {
        DeleteRun { tx: delete_start(order_id), store: store_of(tables) }
    } else {
        let before = delete_run(order_id, tables, replies.drop_last());
        let action = delete_action(before.tx);
        DeleteRun {
            tx: delete_next(before.tx, reported(before.store, action, replies.last())),
            store: performed(before.store, action, replies.last()),
        }
    }
}

/// The number of order rows with the identifier `id`.
pub open spec fn orders_with(tables: Tables, id: i64) -> nat {
    tables.orders.filter(|row: OrderRow| row.id == id).len()
}

/// What holds of a deleting run at every point.
spec fn delete_invariant(run: DeleteRun, order_id: i64, tables: Tables) -> bool {
    &&& run.tx.order_id == order_id
    &&& match run.tx.stage {
        DeleteStageView::Begin => run.store.committed == tables,
        DeleteStageView::DeleteItems => run.store == store_of(tables),
        DeleteStageView::DeleteOrder => {
            &&& run.store.committed == tables
            &&& run.store.working == Tables { orders: tables.orders, ..without_order(tables, order_id) }
        },
        DeleteStageView::Commit { rows_affected } => {
            &&& run.store.committed == tables
            &&& run.store.working == without_order(tables, order_id)
            &&& rows_affected == orders_with(tables, order_id) as u64
        },
        DeleteStageView::Deleted(removed) => {
            &&& run.store.committed == without_order(tables, order_id)
            &&& removed == (orders_with(tables, order_id) as u64 > 0)
        },
        DeleteStageView::Failed(_) => run.store.committed == tables,
    }
}

proof fn lemma_delete_invariant(order_id: i64, tables: Tables, replies: Seq<Reply>)
    ensures
        delete_invariant(delete_run(order_id, tables, replies), order_id, tables),
    decreases replies.len(),
{
    if replies.len() > 0 {
        lemma_delete_invariant(order_id, tables, replies.drop_last());
    }
}

/// Deleting removes the order and its lines together, or nothing. However
/// the store answers, and however far the transaction has come: once it has
/// been committed, the committed tables are the old ones without the order
/// and without its lines, so that no row of the order is left; at every
/// other point, and after every failure, the committed tables are the old
/// ones. And where the store can count the rows of its table of orders, a
/// committed transaction returns whether an order row was there to remove.
pub proof fn law_delete_cascades(order_id: i64, tables: Tables, replies: Seq<Reply>)
    ensures
        ({
            let run = delete_run(order_id, tables, replies);
            match run.tx.stage {
                DeleteStageView::Deleted(removed) => {
                    &&& run.store.committed == without_order(tables, order_id)
                    &&& !has_order(run.store.committed, order_id)
                    &&& !has_items(run.store.committed, order_id)
                    &&& tables.orders.len() <= u64::MAX ==> removed == has_order(tables, order_id)
                },
                _ => run.store.committed == tables,
            }
        }),
{
    lemma_delete_invariant(order_id, tables, replies);
    lemma_without_order(tables, order_id);
    let same = |row: OrderRow| row.id == order_id;
    lemma_filter_keeps_some(tables.orders, same);
    tables.orders.lemma_filter_len(same);
    if has_order(tables, order_id) {
        let k = choose|k: int| 0 <= k < tables.orders.len() && (#[trigger] tables.orders[k]).id == order_id;
        assert(same(tables.orders[k]));
    }
}

/// Deleting an order that the store does not hold changes nothing and
/// reports that nothing was removed: however the store answers, the
/// committed tables stay as they were, and the transaction never returns
/// that it removed an order.
pub proof fn law_delete_of_absent_order(order_id: i64, tables: Tables, replies: Seq<Reply>)
    requires
        !has_order(tables, order_id),
        !has_items(tables, order_id),
    ensures
        ({
            let run = delete_run(order_id, tables, replies);
            &&& run.store.committed == tables
            &&& run.tx.stage != DeleteStageView::Deleted(true)
        }),
{
    lemma_delete_invariant(order_id, tables, replies);
    lemma_without_absent_order(tables, order_id);
    let same = |row: OrderRow| row.id == order_id;
    lemma_filter_keeps_some(tables.orders, same);
    assert(orders_with(tables, order_id) == 0) by {
        if orders_with(tables, order_id) > 0 {
            let i = choose|i: int| 0 <= i < tables.orders.len() && same(#[trigger] tables.orders[i]);
            assert(tables.orders[i].id == order_id);
        }
    }
}

/// The order row with the identifier `id`. The identifiers of the order rows
/// are taken to be distinct, as a primary key keeps them.
pub open spec fn order_row(tables: Tables, id: i64) -> OrderRow {
    tables.orders[choose|k: int| 0 <= k < tables.orders.len() && (#[trigger] tables.orders[k]).id == id]
}

/// The row of the join that an order row and one of its line rows make.
pub open spec fn joined_row(order: OrderRow, item: LineItemRow) -> JoinedRowView {
    JoinedRowView {
        order_id: order.id,
        order_number: order.order_number,
        created_at: order.created_at,
        order_item_id: item.id,
        sku_code: item.sku_code,
        price: item.price,
        quantity: item.quantity,
    }
}

/// The row of the join that a line row makes with its order row.
pub open spec fn joined(tables: Tables, item: LineItemRow) -> JoinedRowView {
    joined_row(order_row(tables, item.order_id), item)
}

/// The inner join of the orders with their lines: one row for each line row
/// whose order row exists, the line rows taken in the order of their table.
pub open spec fn join(tables: Tables) -> Seq<JoinedRowView> {
    tables.items.filter(|item: LineItemRow| has_order(tables, item.order_id)).map_values(
        |item: LineItemRow| joined(tables, item),
    )
}

/// Filtering what was mapped is mapping what was filtered.
proof fn lemma_filter_of_map<A, B>(
    s: Seq<A>,
    f: spec_fn(A) -> B,
    pred: spec_fn(B) -> bool,
    pulled: spec_fn(A) -> bool,
)
    requires
        forall|a: A| #[trigger] pulled(a) == pred(f(a)),
    ensures
        s.map_values(f).filter(pred) == s.filter(pulled).map_values(f),
    decreases s.len(),
{
    if s.len() == 0 {
        reveal(Seq::filter);
        assert(s.map_values(f) =~= Seq::<B>::empty());
        assert(s.filter(pulled).map_values(f) =~= Seq::<B>::empty());
    } else {
        let front = s.drop_last();
        let last = s.last();
        assert(front.push(last) =~= s);
        assert(s.map_values(f) =~= front.map_values(f).push(f(last)));
        front.map_values(f).lemma_filter_push(f(last), pred);
        front.lemma_filter_push(last, pulled);
        lemma_filter_of_map(front, f, pred, pulled);
        assert(pulled(last) == pred(f(last)));
        if pulled(last) {
            assert(front.filter(pulled).push(last).map_values(f) =~= front.filter(
                pulled,
            ).map_values(f).push(f(last)));
        }
    }
}

/// Filtering twice is filtering by both predicates at once.
proof fn lemma_filter_of_filter<A>(
    s: Seq<A>,
    first: spec_fn(A) -> bool,
    second: spec_fn(A) -> bool,
    both: spec_fn(A) -> bool,
)
    requires
        forall|a: A| #[trigger] both(a) == (first(a) && second(a)),
    ensures
        s.filter(first).filter(second) == s.filter(both),
    decreases s.len(),
{
    if s.len() == 0 {
        reveal(Seq::filter);
    } else {
        let front = s.drop_last();
        let last = s.last();
        assert(front.push(last) =~= s);
        front.lemma_filter_push(last, first);
        front.lemma_filter_push(last, both);
        front.filter(first).lemma_filter_push(last, second);
        lemma_filter_of_filter(front, first, second, both);
        assert(both(last) == (first(last) && second(last)));
    }
}

/// The rows of the join that belong to the order `id` are the rows of the
/// lines of that order, where the order exists.
proof fn lemma_rows_of_join(tables: Tables, id: i64)
    ensures
        rows_of(join(tables), id) == tables.items.filter(
            |item: LineItemRow| has_order(tables, item.order_id) && item.order_id == id,
        ).map_values(|item: LineItemRow| joined(tables, item)),
{
    let with_order = |item: LineItemRow| has_order(tables, item.order_id);
    let make = |item: LineItemRow| joined(tables, item);
    let of_id = |row: JoinedRowView| row.order_id == id;
    let line_of_id = |item: LineItemRow| of_id(make(item));
    let both = |item: LineItemRow| has_order(tables, item.order_id) && item.order_id == id;
    let kept = tables.items.filter(with_order);
    lemma_filter_of_map(kept, make, of_id, line_of_id);
    assert forall|item: LineItemRow| #[trigger] both(item) == (with_order(item) && line_of_id(item)) by {
        if has_order(tables, item.order_id) {
            assert(order_row(tables, item.order_id).id == item.order_id);
        }
    }
    lemma_filter_of_filter(tables.items, with_order, line_of_id, both);
}

/// An order row without line rows is not listed: whatever list is made of
/// the rows of the join, none of its entries has the identifier of an order
/// of which the table of line items holds no row.
pub proof fn law_order_without_lines_is_not_listed(tables: Tables, id: i64, list: Seq<OrderView>)
    requires
        !has_items(tables, id),
        is_listing(list, join(tables)),
    ensures
        forall|i: int| 0 <= i < list.len() ==> (#[trigger] list[i]).id != Some(id),
{
    let both = |item: LineItemRow| has_order(tables, item.order_id) && item.order_id == id;
    lemma_rows_of_join(tables, id);
    lemma_mentions_iff_rows(join(tables), id);
    lemma_filter_keeps_some(tables.items, both);
    assert(!mentions(join(tables), id)) by {
        if rows_of(join(tables), id).len() > 0 {
            let k = choose|k: int| 0 <= k < tables.items.len() && both(#[trigger] tables.items[k]);
            assert(tables.items[k].order_id == id);
        }
    }
}

/// Whether a listed line is the requested line: the same SKU code, price and
/// quantity.
pub open spec fn same_line(listed: LineItemView, requested: LineItemView) -> bool {
    &&& listed.sku_code == requested.sku_code
    &&& listed.price == requested.price
    &&& listed.quantity == requested.quantity
}

/// The order row that `stored` adds is the row of its identifier, where the
/// identifier is new.
proof fn lemma_new_order_row(
    before: Tables,
    after: Tables,
    order: OrderView,
    created_at: UtcDateTime,
    order_id: i64,
    count: nat,
)
    requires
        stored(before, after, order, created_at, order_id, count),
        !has_order(before, order_id),
    ensures
        has_order(after, order_id),
        order_row(after, order_id) == (OrderRow {
            id: order_id,
            order_number: order.order_number,
            created_at: Some(created_at),
        }),
{
    assert(after.orders[before.orders.len() as int].id == order_id);
    let k = choose|k: int| 0 <= k < after.orders.len() && (#[trigger] after.orders[k]).id == order_id;
    if k < before.orders.len() {
        assert(before.orders[k].id == order_id);
    }
}

/// The rows of the join that belong to a newly stored order are the rows of
/// its lines, in the order of the lines.
proof fn lemma_rows_of_new_order(
    before: Tables,
    after: Tables,
    order: OrderView,
    created_at: UtcDateTime,
    order_id: i64,
)
    requires
        stored(before, after, order, created_at, order_id, order.items.len()),
        !has_order(before, order_id),
        !has_items(before, order_id),
    ensures
        rows_of(join(after), order_id) == after.items.skip(before.items.len() as int).map_values(
            |item: LineItemRow| joined(after, item),
        ),
{
    let base = before.items.len() as int;
    let fresh = after.items.skip(base);
    let both = |item: LineItemRow| has_order(after, item.order_id) && item.order_id == order_id;
    lemma_new_order_row(before, after, order, created_at, order_id, order.items.len());
    assert(after.items =~= before.items + fresh);
    Seq::filter_distributes_over_add(before.items, fresh, both);
    lemma_filter_keeps_some(before.items, both);
    assert(before.items.filter(both).len() == 0) by {
        if before.items.filter(both).len() > 0 {
            let k = choose|k: int| 0 <= k < before.items.len() && both(#[trigger] before.items[k]);
            assert(before.items[k].order_id == order_id);
        }
    }
    assert forall|n: int| 0 <= n < fresh.len() implies both(#[trigger] fresh[n]) by {
        assert(is_line_of(after.items[base + n], order.items[n], order_id));
    }
    lemma_filter_keeps_all(fresh, both);
    assert(after.items.filter(both) =~= fresh);
    lemma_rows_of_join(after, order_id);
}

/// An order of the join other than the newly stored one has the order number
/// of a row that was there before.
proof fn lemma_order_number_of_old_order(
    before: Tables,
    after: Tables,
    order: OrderView,
    created_at: UtcDateTime,
    order_id: i64,
    other: i64,
)
    requires
        stored(before, after, order, created_at, order_id, order.items.len()),
        other != order_id,
        mentions(join(after), other),
    ensures
        exists|k: int|
            0 <= k < before.orders.len() && (#[trigger] before.orders[k]).order_number == order_of(
                join(after),
                other,
            ).order_number,
{
    broadcast use Seq::lemma_filter_pred;

    let theirs = |item: LineItemRow| has_order(after, item.order_id) && item.order_id == other;
    lemma_rows_of_join(after, other);
    lemma_mentions_iff_rows(join(after), other);
    let kept = after.items.filter(theirs);
    assert(rows_of(join(after), other).len() == kept.len());
    assert(theirs(kept[0]));
    assert(rows_of(join(after), other)[0] == joined(after, kept[0]));
    let k = choose|k: int| 0 <= k < after.orders.len() && (#[trigger] after.orders[k]).id == other;
    assert(k < before.orders.len());
    assert(after.orders[k] == before.orders[k]);
}

/// A saved order comes back in the list. Where an order with at least one
/// line has been stored under an identifier and an order number that the
/// tables did not hold before, every list made of the rows of the join has
/// exactly one entry with that order number: it has the identifier and the
/// time of creation of the stored order, and its lines are the lines of the
/// order, in their order.
pub proof fn law_saved_order_is_listed(
    before: Tables,
    after: Tables,
    order: OrderView,
    created_at: UtcDateTime,
    order_id: i64,
    list: Seq<OrderView>,
)
    requires
        stored(before, after, order, created_at, order_id, order.items.len()),
        order.items.len() > 0,
        !has_order(before, order_id),
        !has_items(before, order_id),
        forall|k: int|
            0 <= k < before.orders.len() ==> (#[trigger] before.orders[k]).order_number
                != order.order_number,
        is_listing(list, join(after)),
    ensures
        exists|i: int|
            {
                &&& 0 <= i < list.len()
                &&& (#[trigger] list[i]).id == Some(order_id)
                &&& list[i].order_number == order.order_number
                &&& list[i].created_at == Some(created_at)
                &&& list[i].items.len() == order.items.len()
                &&& forall|n: int|
                    0 <= n < order.items.len() ==> same_line(
                        #[trigger] list[i].items[n],
                        order.items[n],
                    )
                &&& forall|j: int|
                    0 <= j < list.len() && j != i ==> (#[trigger] list[j]).order_number
                        != order.order_number
            },
{
    let base = before.items.len() as int;
    let rows = join(after);
    let fresh = after.items.skip(base);
    let own = rows_of(rows, order_id);
    lemma_new_order_row(before, after, order, created_at, order_id, order.items.len());
    lemma_rows_of_new_order(before, after, order, created_at, order_id);
    lemma_mentions_iff_rows(rows, order_id);
    assert(own.len() == order.items.len());
    let r = choose|r: int| 0 <= r < rows.len() && (#[trigger] rows[r]).order_id == order_id;
    let i = choose|i: int| 0 <= i < list.len() && (#[trigger] list[i]).id == Some(rows[r].order_id);
    assert(list[i] == order_of(rows, order_id));
    assert(own[0] == joined(after, fresh[0]));
    assert(is_line_of(after.items[base + 0], order.items[0], order_id));
    assert forall|n: int| 0 <= n < order.items.len() implies same_line(
        #[trigger] list[i].items[n],
        order.items[n],
    ) by {
        assert(is_line_of(after.items[base + n], order.items[n], order_id));
        assert(own[n] == joined(after, fresh[n]));
        assert(list[i].items[n] == item_of(own[n]));
    }
    assert forall|j: int| 0 <= j < list.len() && j != i implies (#[trigger] list[j]).order_number
        != order.order_number by {
        let other = list[j].id.unwrap();
        if j < i {
            assert(list[j].id.unwrap() < list[i].id.unwrap());
        } else {
            assert(list[i].id.unwrap() < list[j].id.unwrap());
        }
        lemma_order_number_of_old_order(before, after, order, created_at, order_id, other);
    }
}

} // verus!
