//! Transactions against the store, as state machines. A transaction says
//! which action it is waiting for; whoever holds the connection performs the
//! action and hands back what came of it; the transaction moves on. The
//! store is touched nowhere in this module.

use crate::error::{Error, ErrorView};
use crate::models::{
    duplicate_items, views, LineItemView, Order, OrderLineItems, OrderView, UtcDateTime,
};
use vstd::prelude::*;

verus! {

/// A statement for the store, with the values bound to its parameters.
#[derive(Clone, Debug, PartialEq, Eq)]
pub enum Statement {
    /// Insert an order; the store assigns its identifier.
    InsertOrder { order_number: String, created_at: UtcDateTime },
    /// Insert a line of the order `order_id`; the store assigns its identifier.
    InsertOrderLineItem { sku_code: String, price: i64, quantity: i64, order_id: u64 },
    /// Delete every line of the order `order_id`.
    DeleteOrderLineItems { order_id: i64 },
    /// Delete the order `id`.
    DeleteOrder { id: i64 },
}

/// What a `Statement` holds, as mathematical values.
pub ghost enum StatementView {
    InsertOrder { order_number: Seq<char>, created_at: UtcDateTime },
    InsertOrderLineItem { sku_code: Seq<char>, price: i64, quantity: i64, order_id: u64 },
    DeleteOrderLineItems { order_id: i64 },
    DeleteOrder { id: i64 },
}

impl View for Statement {
    type V = StatementView;

    open spec fn view(&self) -> StatementView {
        match self {
            Statement::InsertOrder { order_number, created_at } => StatementView::InsertOrder {
                order_number: order_number@,
                created_at: *created_at,
            },
            Statement::InsertOrderLineItem {
                sku_code,
                price,
                quantity,
                order_id,
            } => StatementView::InsertOrderLineItem {
                sku_code: sku_code@,
                price: *price,
                quantity: *quantity,
                order_id: *order_id,
            },
            Statement::DeleteOrderLineItems { order_id } => StatementView::DeleteOrderLineItems {
                order_id: *order_id,
            },
            Statement::DeleteOrder { id } => StatementView::DeleteOrder { id: *id },
        }
    }
}

/// The text of a statement, with `?` for each bound value in the order of the
/// fields of the statement.
pub open spec fn sql_of(statement: StatementView) -> Seq<char> {
    match statement {
        StatementView::InsertOrder { .. } =>
            "INSERT INTO `order-service`.`t_orders` (order_number, created_at) VALUES (?, ?);"@,
        StatementView::InsertOrderLineItem { .. } =>
            "INSERT INTO `order-service`.`t_order_line_items` (sku_code, price, quantity, order_id) VALUES (?, ?, ?, ?);"@,
        StatementView::DeleteOrderLineItems { .. } =>
            "DELETE FROM `order-service`.`t_order_line_items` WHERE order_id = ?"@,
        StatementView::DeleteOrder { .. } => "DELETE FROM `order-service`.`t_orders` WHERE id = ?"@,
    }
}

/// The text of the query for the rows of the list of orders: the inner join
/// of the orders with their lines.
pub open spec fn list_sql() -> Seq<char> {
    "SELECT o.id AS order_id, o.order_number, o.created_at, oi.id AS order_item_id, oi.sku_code, oi.price, oi.quantity FROM `order-service`.`t_orders` AS o INNER JOIN `order-service`.`t_order_line_items` AS oi ON o.id = oi.order_id"@
}

impl Statement {
    /// The text of this statement.
    pub fn sql(&self) -> (text: &'static str)
        ensures
            text@ == sql_of(self@),
    {
        match self {
            Statement::InsertOrder { .. } =>
                "INSERT INTO `order-service`.`t_orders` (order_number, created_at) VALUES (?, ?);",
            Statement::InsertOrderLineItem { .. } =>
                "INSERT INTO `order-service`.`t_order_line_items` (sku_code, price, quantity, order_id) VALUES (?, ?, ?, ?);",
            Statement::DeleteOrderLineItems { .. } =>
                "DELETE FROM `order-service`.`t_order_line_items` WHERE order_id = ?",
            Statement::DeleteOrder { .. } => "DELETE FROM `order-service`.`t_orders` WHERE id = ?",
        }
    }
}

/// What the store reports of a statement that it executed.
#[derive(Clone, Copy, Debug, PartialEq, Eq)]
pub struct QueryResult {
    /// The identifier that the store assigned, where the statement inserted a row.
    pub last_insert_id: u64,
    /// The number of rows that the statement inserted or deleted.
    pub rows_affected: u64,
}

/// What a transaction is waiting for.
#[derive(Debug, PartialEq, Eq)]
pub enum Action<T> {
    /// Open a transaction on a connection of the store.
    Begin,
    /// Execute the statement inside the open transaction.
    Execute(Statement),
    /// Commit the open transaction.
    Commit,
    /// Nothing more: the operation is over with this result. A transaction
    /// that is still open is abandoned, which rolls it back.
    Return(Result<T, Error>),
}

/// What an `Action` holds, as mathematical values.
pub ghost enum ActionView<V> {
    Begin,
    Execute(StatementView),
    Commit,
    Return(Result<V, ErrorView>),
}

impl<T: View> View for Action<T> {
    type V = ActionView<T::V>;

    open spec fn view(&self) -> ActionView<T::V> {
        match self {
            Action::Begin => ActionView::Begin,
            Action::Execute(statement) => ActionView::Execute(statement@),
            Action::Commit => ActionView::Commit,
            Action::Return(Ok(value)) => ActionView::Return(Ok(value@)),
            Action::Return(Err(error)) => ActionView::Return(Err(error@)),
        }
    }
}

/// How an action ended, as the transaction learns of it: what the store
/// reported, or the fault. Of an opened or committed transaction nothing is
/// read but that it succeeded.
pub open spec fn outcome_view(outcome: Result<QueryResult, Error>) -> Result<QueryResult, ErrorView> {
    match outcome {
        Ok(result) => Ok(result),
        Err(error) => Err(error@),
    }
}

/// How far the transaction that saves an order has come.
#[derive(Clone, Debug, PartialEq, Eq)]
pub enum SaveStage {
    /// The transaction is to be opened.
    Begin,
    /// The order is to be inserted.
    InsertOrder,
    /// The order was inserted as `order_id` and so were its first `next`
    /// lines; the next line is to be inserted or, where none is left, the
    /// transaction is to be committed.
    InsertItems { order_id: u64, next: usize },
    /// The transaction was committed.
    Saved,
    /// An action failed; nothing was committed.
    Failed(Error),
}

/// What a `SaveStage` holds, as mathematical values.
pub ghost enum SaveStageView {
    Begin,
    InsertOrder,
    InsertItems { order_id: u64, next: nat },
    Saved,
    Failed(ErrorView),
}

impl View for SaveStage {
    type V = SaveStageView;

    open spec fn view(&self) -> SaveStageView {
        match self {
            SaveStage::Begin => SaveStageView::Begin,
            SaveStage::InsertOrder => SaveStageView::InsertOrder,
            SaveStage::InsertItems { order_id, next } => SaveStageView::InsertItems {
                order_id: *order_id,
                next: *next as nat,
            },
            SaveStage::Saved => SaveStageView::Saved,
            SaveStage::Failed(error) => SaveStageView::Failed(error@),
        }
    }
}

/// The transaction that saves one order with its lines.
#[derive(Clone, Debug, PartialEq, Eq)]
pub struct SaveTransaction {
    pub order_number: String,
    pub created_at: UtcDateTime,
    pub items: Vec<OrderLineItems>,
    pub stage: SaveStage,
}

/// What a `SaveTransaction` holds, as mathematical values.
pub ghost struct SaveView {
    pub order_number: Seq<char>,
    pub created_at: UtcDateTime,
    pub items: Seq<LineItemView>,
    pub stage: SaveStageView,
}

impl View for SaveTransaction {
    type V = SaveView;

    open spec fn view(&self) -> SaveView {
        SaveView {
            order_number: self.order_number@,
            created_at: self.created_at,
            items: views(self.items@),
            stage: self.stage@,
        }
    }
}

/// The transaction that saves `order` at the instant `created_at`, before
/// its first action.
pub open spec fn save_start(order: OrderView, created_at: UtcDateTime) -> SaveView {
    SaveView {
        order_number: order.order_number,
        created_at,
        items: order.items,
        stage: SaveStageView::Begin,
    }
}

/// The statement that inserts the line `item` under the order `order_id`.
pub open spec fn insert_item(item: LineItemView, order_id: u64) -> StatementView {
    StatementView::InsertOrderLineItem {
        sku_code: item.sku_code,
        price: item.price,
        quantity: item.quantity,
        order_id,
    }
}

/// The action that a saving transaction is waiting for: open the
/// transaction; insert the order; insert each line, in the order of the
/// lines, under the identifier that the store gave the order; commit; then
/// return the order number. After a failure: return the fault.
pub open spec fn save_action(tx: SaveView) -> ActionView<Seq<char>> {
    match tx.stage {
        SaveStageView::Begin => ActionView::Begin,
        SaveStageView::InsertOrder => ActionView::Execute(
            StatementView::InsertOrder { order_number: tx.order_number, created_at: tx.created_at },
        ),
        SaveStageView::InsertItems { order_id, next } => if next < tx.items.len() {
            ActionView::Execute(insert_item(tx.items[next as int], order_id))
        } else {
            ActionView::Commit
        },
        SaveStageView::Saved => ActionView::Return(Ok(tx.order_number)),
        SaveStageView::Failed(error) => ActionView::Return(Err(error)),
    }
}

/// The saving transaction after its action ended with `outcome`. A failure
/// ends it; a success takes it to the next action. Once it is over it stays
/// as it is.
pub open spec fn save_next(tx: SaveView, outcome: Result<QueryResult, ErrorView>) -> SaveView {
    let stage = match tx.stage {
        SaveStageView::Saved => tx.stage,
        SaveStageView::Failed(_) => tx.stage,
        _ => match outcome {
            Err(error) => SaveStageView::Failed(error),
            Ok(result) => match tx.stage {
                SaveStageView::Begin => SaveStageView::InsertOrder,
                SaveStageView::InsertOrder => SaveStageView::InsertItems {
                    order_id: result.last_insert_id,
                    next: 0,
                },
                SaveStageView::InsertItems { order_id, next } => if next < tx.items.len() {
                    SaveStageView::InsertItems { order_id, next: next + 1 }
                } else {
                    SaveStageView::Saved
                },
                _ => tx.stage,
            },
        },
    };
    SaveView { stage, ..tx }
}

impl SaveTransaction {
    /// The transaction that saves `order` at the instant `created_at`.
    pub fn new(order: &Order, created_at: UtcDateTime) -> (tx: SaveTransaction)
        ensures
            tx@ == save_start(order@, created_at),
    {
        let items = duplicate_items(&order.items);
        SaveTransaction {
            order_number: order.order_number.clone(),
            created_at,
            items,
            stage: SaveStage::Begin,
        }
    }

    /// The action that this transaction is waiting for.
    pub fn pending(&self) -> (action: Action<String>)
        ensures
            action@ == save_action(self@),
    {
        match &self.stage {
            SaveStage::Begin => Action::Begin,
            SaveStage::InsertOrder => Action::Execute(
                Statement::InsertOrder {
                    order_number: self.order_number.clone(),
                    created_at: self.created_at,
                },
            ),
            SaveStage::InsertItems { order_id, next } => {
                if *next < self.items.len() {
                    let item = &self.items[*next];
                    Action::Execute(
                        Statement::InsertOrderLineItem {
                            sku_code: item.sku_code.clone(),
                            price: item.price,
                            quantity: item.quantity,
                            order_id: *order_id,
                        },
                    )
                } else {
                    Action::Commit
                }
            },
            SaveStage::Saved => Action::Return(Ok(self.order_number.clone())),
            SaveStage::Failed(error) => Action::Return(Err(error.duplicate())),
        }
    }

    /// Takes in how the pending action ended and moves on.
    pub fn advance(&mut self, outcome: Result<QueryResult, Error>)
        ensures
            final(self)@ == save_next(old(self)@, outcome_view(outcome)),
    {
        let over = match &self.stage {
            SaveStage::Saved => true,
            SaveStage::Failed(_) => true,
            _ => false,
        };
        if over {
            return ;
        }
        match outcome {
            Err(error) => {
                self.stage = SaveStage::Failed(error);
            },
            Ok(result) => {
                let stage = match &self.stage {
                    SaveStage::Begin => SaveStage::InsertOrder,
                    SaveStage::InsertOrder => SaveStage::InsertItems {
                        order_id: result.last_insert_id,
                        next: 0,
                    },
                    SaveStage::InsertItems { order_id, next } => {
                        if *next < self.items.len() {
                            SaveStage::InsertItems { order_id: *order_id, next: *next + 1 }
                        } else {
                            SaveStage::Saved
                        }
                    },
                    SaveStage::Saved => SaveStage::Saved,
                    SaveStage::Failed(error) => SaveStage::Failed(error.duplicate()),
                };
                self.stage = stage;
            },
        }
    }
}

/// How far the transaction that deletes an order has come.
#[derive(Clone, Debug, PartialEq, Eq)]
pub enum DeleteStage {
    /// The transaction is to be opened.
    Begin,
    /// The lines of the order are to be deleted.
    DeleteItems,
    /// The lines were deleted; the order itself is to be deleted.
    DeleteOrder,
    /// The store deleted `rows_affected` orders; the transaction is to be
    /// committed.
    Commit { rows_affected: u64 },
    /// The transaction was committed; the field says whether it removed an order.
    Deleted(bool),
    /// An action failed; nothing was committed.
    Failed(Error),
}

/// What a `DeleteStage` holds, as mathematical values.
pub ghost enum DeleteStageView {
    Begin,
    DeleteItems,
    DeleteOrder,
    Commit { rows_affected: u64 },
    Deleted(bool),
    Failed(ErrorView),
}

impl View for DeleteStage {
    type V = DeleteStageView;

    open spec fn view(&self) -> DeleteStageView {
        match self {
            DeleteStage::Begin => DeleteStageView::Begin,
            DeleteStage::DeleteItems => DeleteStageView::DeleteItems,
            DeleteStage::DeleteOrder => DeleteStageView::DeleteOrder,
            DeleteStage::Commit { rows_affected } => DeleteStageView::Commit {
                rows_affected: *rows_affected,
            },
            DeleteStage::Deleted(removed) => DeleteStageView::Deleted(*removed),
            DeleteStage::Failed(error) => DeleteStageView::Failed(error@),
        }
    }
}

/// The transaction that deletes one order with its lines.
#[derive(Clone, Debug, PartialEq, Eq)]
pub struct DeleteTransaction {
    pub order_id: i64,
    pub stage: DeleteStage,
}

/// What a `DeleteTransaction` holds, as mathematical values.
pub ghost struct DeleteView {
    pub order_id: i64,
    pub stage: DeleteStageView,
}

impl View for DeleteTransaction {
    type V = DeleteView;

    open spec fn view(&self) -> DeleteView {
        DeleteView { order_id: self.order_id, stage: self.stage@ }
    }
}

/// The transaction that deletes the order `order_id`, before its first action.
pub open spec fn delete_start(order_id: i64) -> DeleteView {
    DeleteView { order_id, stage: DeleteStageView::Begin }
}

/// The action that a deleting transaction is waiting for: open the
/// transaction; delete the lines of the order; then delete the order;
/// commit; then return whether the store deleted an order. After a failure:
/// return the fault.
pub open spec fn delete_action(tx: DeleteView) -> ActionView<bool> {
    match tx.stage {
        DeleteStageView::Begin => ActionView::Begin,
        DeleteStageView::DeleteItems => ActionView::Execute(
            StatementView::DeleteOrderLineItems { order_id: tx.order_id },
        ),
        DeleteStageView::DeleteOrder => ActionView::Execute(
            StatementView::DeleteOrder { id: tx.order_id },
        ),
        DeleteStageView::Commit { .. } => ActionView::Commit,
        DeleteStageView::Deleted(removed) => ActionView::Return(Ok(removed)),
        DeleteStageView::Failed(error) => ActionView::Return(Err(error)),
    }
}

/// The deleting transaction after its action ended with `outcome`. A failure
/// ends it; a success takes it to the next action. Once it is over it stays
/// as it is.
pub open spec fn delete_next(tx: DeleteView, outcome: Result<QueryResult, ErrorView>) -> DeleteView {
    let stage = match tx.stage {
        DeleteStageView::Deleted(_) => tx.stage,
        DeleteStageView::Failed(_) => tx.stage,
        _ => match outcome {
            Err(error) => DeleteStageView::Failed(error),
            Ok(result) => match tx.stage {
                DeleteStageView::Begin => DeleteStageView::DeleteItems,
                DeleteStageView::DeleteItems => DeleteStageView::DeleteOrder,
                DeleteStageView::DeleteOrder => DeleteStageView::Commit {
                    rows_affected: result.rows_affected,
                },
                DeleteStageView::Commit { rows_affected } => DeleteStageView::Deleted(
                    rows_affected > 0,
                ),
                _ => tx.stage,
            },
        },
    };
    DeleteView { stage, ..tx }
}

impl DeleteTransaction {
    /// The transaction that deletes the order `order_id`.
    pub fn new(order_id: i64) -> (tx: DeleteTransaction)
        ensures
            tx@ == delete_start(order_id),
    {
        DeleteTransaction { order_id, stage: DeleteStage::Begin }
    }

    /// The action that this transaction is waiting for.
    pub fn pending(&self) -> (action: Action<bool>)
        ensures
            action@ == delete_action(self@),
    {
        match &self.stage {
            DeleteStage::Begin => Action::Begin,
            DeleteStage::DeleteItems => Action::Execute(
                Statement::DeleteOrderLineItems { order_id: self.order_id },
            ),
            DeleteStage::DeleteOrder => Action::Execute(Statement::DeleteOrder { id: self.order_id }),
            DeleteStage::Commit { .. } => Action::Commit,
            DeleteStage::Deleted(removed) => Action::Return(Ok(*removed)),
            DeleteStage::Failed(error) => Action::Return(Err(error.duplicate())),
        }
    }

    /// Takes in how the pending action ended and moves on.
    pub fn advance(&mut self, outcome: Result<QueryResult, Error>)
        ensures
            final(self)@ == delete_next(old(self)@, outcome_view(outcome)),
    {
        let over = match &self.stage {
            DeleteStage::Deleted(_) => true,
            DeleteStage::Failed(_) => true,
            _ => false,
        };
        if over {
            return ;
        }
        match outcome {
            Err(error) => {
                self.stage = DeleteStage::Failed(error);
            },
            Ok(result) => {
                let stage = match &self.stage {
                    DeleteStage::Begin => DeleteStage::DeleteItems,
                    DeleteStage::DeleteItems => DeleteStage::DeleteOrder,
                    DeleteStage::DeleteOrder => DeleteStage::Commit {
                        rows_affected: result.rows_affected,
                    },
                    DeleteStage::Commit { rows_affected } => DeleteStage::Deleted(*rows_affected > 0),
                    DeleteStage::Deleted(removed) => DeleteStage::Deleted(*removed),
                    DeleteStage::Failed(error) => DeleteStage::Failed(error.duplicate()),
                };
                self.stage = stage;
            },
        }
    }
}

} // verus!
