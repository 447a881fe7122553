//! The functions of the library one by one.

use order_service::error::Error;
use order_service::models::{Order, OrderLineItems, UtcDateTime};
use order_service::order_repository::{JoinedRow, OrderRepository};
use order_service::order_service::{order_entity, order_from_request, OrderService};
use order_service::proto::{
    Code, DeleteOrderRequest, DeleteOrderResponse, OrderEntityLineItems, OrderEntityResponse,
    OrderRequest, OrderRequestItem, OrderResponse, Status, Timestamp,
};
use order_service::text::append_decimal;
use order_service::transaction::{
    Action, DeleteStage, DeleteTransaction, QueryResult, SaveStage, SaveTransaction, Statement,
};

fn row(order_id: i64, order_number: &str, item_id: i64, sku_code: &str, price: i64, quantity: i64) -> JoinedRow {
    JoinedRow {
        order_id,
        order_number: order_number.to_string(),
        created_at: Some(UtcDateTime { seconds: order_id * 10, nanos: 5 }),
        order_item_id: item_id,
        sku_code: sku_code.to_string(),
        price,
        quantity,
    }
}

fn item(id: Option<i64>, sku_code: &str, price: i64, quantity: i64) -> OrderLineItems {
    OrderLineItems { id, sku_code: sku_code.to_string(), price, quantity }
}

fn service() -> OrderService {
    OrderService::new(OrderRepository::new())
}

fn done(last_insert_id: u64, rows_affected: u64) -> Result<QueryResult, Error> {
    Ok(QueryResult { last_insert_id, rows_affected })
}

fn decimal(n: i64) -> String {
    let mut text = String::new();
    append_decimal(&mut text, n);
    text
}

#[test]
fn rows_are_grouped_by_order_and_sorted_by_identifier() {
    let rows = vec![
        row(7, "seven", 1, "A", 10, 1),
        row(3, "three", 2, "B", 20, 2),
        row(7, "seven", 3, "C", 30, 3),
        row(-5, "minus five", 4, "D", 40, 4),
        row(3, "three", 5, "E", 50, 5),
        row(7, "seven", 6, "F", 60, 6),
    ];
    let orders = OrderRepository::new().get_order_list(&rows);
    assert_eq!(
        orders,
        vec![
            Order {
                id: Some(-5),
                order_number: "minus five".to_string(),
                created_at: Some(UtcDateTime { seconds: -50, nanos: 5 }),
                items: vec![item(Some(4), "D", 40, 4)],
            },
            Order {
                id: Some(3),
                order_number: "three".to_string(),
                created_at: Some(UtcDateTime { seconds: 30, nanos: 5 }),
                items: vec![item(Some(2), "B", 20, 2), item(Some(5), "E", 50, 5)],
            },
            Order {
                id: Some(7),
                order_number: "seven".to_string(),
                created_at: Some(UtcDateTime { seconds: 70, nanos: 5 }),
                items: vec![
                    item(Some(1), "A", 10, 1),
                    item(Some(3), "C", 30, 3),
                    item(Some(6), "F", 60, 6),
                ],
            },
        ]
    );
}

#[test]
fn rows_in_descending_order_come_out_ascending() {
    let rows: Vec<JoinedRow> = (1..=20).rev().map(|id| row(id, "n", id, "S", 1, 1)).collect();
    let orders = OrderRepository::new().get_order_list(&rows);
    let ids: Vec<Option<i64>> = orders.iter().map(|order| order.id).collect();
    let expected: Vec<Option<i64>> = (1..=20).map(Some).collect();
    assert_eq!(ids, expected);
}

#[test]
fn an_order_takes_the_columns_of_its_first_row() {
    let mut second = row(1, "later", 2, "B", 2, 2);
    second.created_at = None;
    let rows = vec![row(1, "first", 1, "A", 1, 1), second];
    let orders = OrderRepository::new().get_order_list(&rows);
    assert_eq!(orders.len(), 1);
    assert_eq!(orders[0].order_number, "first");
    assert_eq!(orders[0].created_at, Some(UtcDateTime { seconds: 10, nanos: 5 }));
    assert_eq!(orders[0].items.len(), 2);
}

#[test]
fn no_rows_make_no_orders() {
    assert_eq!(OrderRepository::new().get_order_list(&vec![]), vec![]);
}

#[test]
fn the_same_rows_make_the_same_list() {
    let rows = vec![row(2, "b", 1, "A", 1, 1), row(1, "a", 2, "B", 2, 2), row(2, "b", 3, "C", 3, 3)];
    let repository = OrderRepository::new();
    assert_eq!(repository.get_order_list(&rows), repository.get_order_list(&rows));
}

#[test]
fn extreme_identifiers_are_ordered() {
    let rows = vec![row(i64::MAX, "max", 1, "A", 1, 1), row(i64::MIN, "min", 2, "B", 2, 2), row(0, "zero", 3, "C", 3, 3)];
    let orders = OrderRepository::new().get_order_list(&rows);
    let ids: Vec<Option<i64>> = orders.iter().map(|order| order.id).collect();
    assert_eq!(ids, vec![Some(i64::MIN), Some(0), Some(i64::MAX)]);
}

#[test]
fn list_query_is_the_inner_join() {
    assert_eq!(
        OrderRepository::new().list_query(),
        "SELECT o.id AS order_id, o.order_number, o.created_at, oi.id AS order_item_id, oi.sku_code, oi.price, oi.quantity FROM `order-service`.`t_orders` AS o INNER JOIN `order-service`.`t_order_line_items` AS oi ON o.id = oi.order_id"
    );
}

#[test]
fn order_number_is_a_random_uuid_in_lower_case() {
    let order = service().place(&OrderRequest { items: vec![] });
    let text: Vec<char> = order.order_number.chars().collect();
    assert_eq!(text.len(), 36);
    for (i, c) in text.iter().enumerate() {
        if i == 8 || i == 13 || i == 18 || i == 23 {
            assert_eq!(*c, '-');
        } else {
            assert!(matches!(*c, '0'..='9' | 'a'..='f'));
        }
    }
    assert_eq!(text[14], '4');
    assert!(matches!(text[19], '8' | '9' | 'a' | 'b'));
}

#[test]
fn order_numbers_differ() {
    let service = service();
    let request = OrderRequest { items: vec![] };
    assert_ne!(service.place(&request).order_number, service.place(&request).order_number);
}

#[test]
fn place_builds_an_unsaved_order_with_the_lines_in_order() {
    let request = OrderRequest {
        items: vec![
            OrderRequestItem { sku_code: "SKU-B".to_string(), price: 50, quantity: 1 },
            OrderRequestItem { sku_code: "SKU-A".to_string(), price: 100, quantity: 2 },
        ],
    };
    let order = service().place(&request);
    assert_eq!(order.id, None);
    assert_eq!(order.created_at, None);
    assert_eq!(order.items, vec![item(None, "SKU-B", 50, 1), item(None, "SKU-A", 100, 2)]);
}

#[test]
fn order_from_request_keeps_the_order_number() {
    let request = OrderRequest {
        items: vec![OrderRequestItem { sku_code: "S".to_string(), price: -1, quantity: 0 }],
    };
    assert_eq!(
        order_from_request("number".to_string(), &request),
        Order {
            id: None,
            order_number: "number".to_string(),
            created_at: None,
            items: vec![item(None, "S", -1, 0)],
        }
    );
}

#[test]
fn sku_codes_are_joined_by_commas() {
    let service = service();
    let sku = |code: &str| OrderRequestItem { sku_code: code.to_string(), price: 1, quantity: 1 };
    assert_eq!(service.sku_codes(&OrderRequest { items: vec![] }), "");
    assert_eq!(service.sku_codes(&OrderRequest { items: vec![sku("A")] }), "A");
    assert_eq!(
        service.sku_codes(&OrderRequest { items: vec![sku("A"), sku("B"), sku("C")] }),
        "A,B,C"
    );
}

#[test]
fn placed_answers_with_the_order_number() {
    assert_eq!(
        service().placed(Ok("number".to_string())),
        Ok(OrderResponse { order_number: "number".to_string() })
    );
}

#[test]
fn a_failure_to_save_is_internal_and_hides_the_fault() {
    assert_eq!(
        service().placed(Err(Error::Sqlx("secret".to_string()))),
        Err(Status { code: Code::Internal, message: "could not save order".to_string() })
    );
}

#[test]
fn an_order_goes_on_the_wire_field_by_field() {
    let order = Order {
        id: Some(12),
        order_number: "number".to_string(),
        created_at: Some(UtcDateTime { seconds: 1_700_000_000, nanos: 999_999_999 }),
        items: vec![item(Some(5), "A", 100, 2), item(None, "B", 50, 1)],
    };
    assert_eq!(
        order_entity(&order),
        OrderEntityResponse {
            order_id: 12,
            order_number: "number".to_string(),
            created_at: Some(Timestamp { seconds: 1_700_000_000, nanos: 999_999_999 }),
            items: vec![
                OrderEntityLineItems {
                    order_line_item_id: 5,
                    sku_code: "A".to_string(),
                    price: 100,
                    quantity: 2,
                },
                OrderEntityLineItems {
                    order_line_item_id: 0,
                    sku_code: "B".to_string(),
                    price: 50,
                    quantity: 1,
                },
            ],
        }
    );
}

#[test]
fn absent_fields_go_on_the_wire_as_defaults() {
    let order = Order { id: None, order_number: "n".to_string(), created_at: None, items: vec![] };
    assert_eq!(
        order_entity(&order),
        OrderEntityResponse {
            order_id: 0,
            order_number: "n".to_string(),
            created_at: None,
            items: vec![],
        }
    );
}

#[test]
fn nanoseconds_of_a_leap_second_fit_the_wire() {
    let order = Order {
        id: Some(1),
        order_number: "n".to_string(),
        created_at: Some(UtcDateTime { seconds: -1, nanos: 1_999_999_999 }),
        items: vec![],
    };
    assert_eq!(
        order_entity(&order).created_at,
        Some(Timestamp { seconds: -1, nanos: 1_999_999_999 })
    );
}

#[test]
fn list_response_keeps_the_order_of_the_orders() {
    let orders = vec![
        Order { id: Some(2), order_number: "b".to_string(), created_at: None, items: vec![] },
        Order { id: Some(1), order_number: "a".to_string(), created_at: None, items: vec![] },
    ];
    let response = service().get_order_list(Ok(orders)).expect("a list");
    let ids: Vec<i64> = response.orders.iter().map(|order| order.order_id).collect();
    assert_eq!(ids, vec![2, 1]);
}

#[test]
fn a_failure_to_list_is_internal() {
    assert_eq!(
        service().get_order_list(Err(Error::Sqlx("secret".to_string()))),
        Err(Status { code: Code::Internal, message: "could not get_order_list".to_string() })
    );
}

#[test]
fn delete_order_answers_with_what_the_repository_returned() {
    let service = service();
    let request = DeleteOrderRequest { order_id: 4 };
    assert_eq!(service.delete_order(&request, Ok(true)), Ok(DeleteOrderResponse { is_deleted: true }));
    assert_eq!(
        service.delete_order(&request, Ok(false)),
        Ok(DeleteOrderResponse { is_deleted: false })
    );
}

#[test]
fn a_failure_to_delete_is_internal_and_names_the_order() {
    let service = service();
    let fault = || Err(Error::Generic("secret".to_string()));
    assert_eq!(
        service.delete_order(&DeleteOrderRequest { order_id: 999999 }, fault()),
        Err(Status {
            code: Code::Internal,
            message: "could not delete order_id=999999".to_string()
        })
    );
    assert_eq!(
        service.delete_order(&DeleteOrderRequest { order_id: -42 }, fault()),
        Err(Status { code: Code::Internal, message: "could not delete order_id=-42".to_string() })
    );
}

#[test]
fn decimal_numerals() {
    assert_eq!(decimal(0), "0");
    assert_eq!(decimal(7), "7");
    assert_eq!(decimal(10), "10");
    assert_eq!(decimal(1234567890), "1234567890");
    assert_eq!(decimal(-1), "-1");
    assert_eq!(decimal(-100), "-100");
    assert_eq!(decimal(i64::MAX), "9223372036854775807");
    assert_eq!(decimal(i64::MIN), "-9223372036854775808");
}

#[test]
fn decimal_numerals_are_those_of_the_standard_library() {
    let mut n: i64 = 1;
    for _ in 0..62 {
        for value in [n - 1, n, n + 1, -n - 1, -n, -n + 1] {
            assert_eq!(decimal(value), value.to_string());
        }
        n *= 2;
    }
}

#[test]
fn decimal_is_appended() {
    let mut text = "id=".to_string();
    append_decimal(&mut text, 305);
    assert_eq!(text, "id=305");
}

#[test]
fn messages_of_the_faults() {
    assert_eq!(Error::Generic("boom".to_string()).message(), "Generic boom");
    assert_eq!(
        Error::Sqlx("pool timed out".to_string()).message(),
        "sqlx error occurred: pool timed out"
    );
    assert_eq!(
        Error::Var { input: "ORDER_PORT".to_string(), source: "not present".to_string() }.message(),
        "Can not parse variable: ORDER_PORT"
    );
    assert_eq!(
        Error::AddParse("invalid socket address syntax".to_string()).message(),
        "invalid socket address syntax"
    );
}

#[test]
fn a_fault_is_copied_whole() {
    let fault = Error::Var { input: "A".to_string(), source: "B".to_string() };
    assert_eq!(fault.duplicate(), fault);
}

#[test]
fn an_order_is_copied_whole() {
    let order = Order {
        id: Some(1),
        order_number: "n".to_string(),
        created_at: Some(UtcDateTime { seconds: 1, nanos: 2 }),
        items: vec![item(Some(1), "A", 1, 2), item(None, "B", 3, 4)],
    };
    assert_eq!(order.duplicate(), order);
}

#[test]
fn texts_of_the_statements() {
    let now = UtcDateTime { seconds: 0, nanos: 0 };
    assert_eq!(
        Statement::InsertOrder { order_number: "n".to_string(), created_at: now }.sql(),
        "INSERT INTO `order-service`.`t_orders` (order_number, created_at) VALUES (?, ?);"
    );
    assert_eq!(
        Statement::InsertOrderLineItem {
            sku_code: "s".to_string(),
            price: 1,
            quantity: 1,
            order_id: 1
        }
        .sql(),
        "INSERT INTO `order-service`.`t_order_line_items` (sku_code, price, quantity, order_id) VALUES (?, ?, ?, ?);"
    );
    assert_eq!(
        Statement::DeleteOrderLineItems { order_id: 1 }.sql(),
        "DELETE FROM `order-service`.`t_order_line_items` WHERE order_id = ?"
    );
    assert_eq!(
        Statement::DeleteOrder { id: 1 }.sql(),
        "DELETE FROM `order-service`.`t_orders` WHERE id = ?"
    );
}

#[test]
fn save_walks_through_its_actions() {
    let order = Order {
        id: None,
        order_number: "number".to_string(),
        created_at: None,
        items: vec![item(None, "A", 100, 2), item(None, "B", 50, 1)],
    };
    let now = UtcDateTime { seconds: 9, nanos: 8 };
    let mut tx = SaveTransaction::new(&order, now);
    assert_eq!(tx.pending(), Action::Begin);
    tx.advance(done(0, 0));
    assert_eq!(
        tx.pending(),
        Action::Execute(Statement::InsertOrder { order_number: "number".to_string(), created_at: now })
    );
    tx.advance(done(41, 1));
    assert_eq!(
        tx.pending(),
        Action::Execute(Statement::InsertOrderLineItem {
            sku_code: "A".to_string(),
            price: 100,
            quantity: 2,
            order_id: 41
        })
    );
    tx.advance(done(7, 1));
    assert_eq!(
        tx.pending(),
        Action::Execute(Statement::InsertOrderLineItem {
            sku_code: "B".to_string(),
            price: 50,
            quantity: 1,
            order_id: 41
        })
    );
    tx.advance(done(8, 1));
    assert_eq!(tx.pending(), Action::Commit);
    tx.advance(done(0, 0));
    assert_eq!(tx.stage, SaveStage::Saved);
    assert_eq!(tx.pending(), Action::Return(Ok("number".to_string())));
    tx.advance(Err(Error::Sqlx("late".to_string())));
    assert_eq!(tx.pending(), Action::Return(Ok("number".to_string())));
}

#[test]
fn save_ends_with_the_fault_of_the_first_failure() {
    let order = Order {
        id: None,
        order_number: "number".to_string(),
        created_at: None,
        items: vec![item(None, "A", 100, 2)],
    };
    let mut tx = SaveTransaction::new(&order, UtcDateTime { seconds: 0, nanos: 0 });
    tx.advance(done(0, 0));
    tx.advance(done(1, 1));
    tx.advance(Err(Error::Sqlx("data too long".to_string())));
    assert_eq!(tx.stage, SaveStage::Failed(Error::Sqlx("data too long".to_string())));
    assert_eq!(tx.pending(), Action::Return(Err(Error::Sqlx("data too long".to_string()))));
    tx.advance(done(0, 0));
    assert_eq!(tx.pending(), Action::Return(Err(Error::Sqlx("data too long".to_string()))));
}

#[test]
fn delete_walks_through_its_actions() {
    let mut tx = DeleteTransaction::new(5);
    assert_eq!(tx.pending(), Action::Begin);
    tx.advance(done(0, 0));
    assert_eq!(tx.pending(), Action::Execute(Statement::DeleteOrderLineItems { order_id: 5 }));
    tx.advance(done(0, 3));
    assert_eq!(tx.pending(), Action::Execute(Statement::DeleteOrder { id: 5 }));
    tx.advance(done(0, 1));
    assert_eq!(tx.stage, DeleteStage::Commit { rows_affected: 1 });
    assert_eq!(tx.pending(), Action::Commit);
    tx.advance(done(0, 0));
    assert_eq!(tx.pending(), Action::Return(Ok(true)));
}

#[test]
fn delete_reports_by_the_order_row_alone() {
    let mut tx = DeleteTransaction::new(5);
    tx.advance(done(0, 0));
    tx.advance(done(0, 3));
    tx.advance(done(0, 0));
    tx.advance(done(0, 0));
    assert_eq!(tx.pending(), Action::Return(Ok(false)));
}

#[test]
fn delete_ends_with_the_fault_of_a_refused_commit() {
    let mut tx = DeleteTransaction::new(5);
    tx.advance(done(0, 0));
    tx.advance(done(0, 0));
    tx.advance(done(0, 1));
    tx.advance(Err(Error::Sqlx("gone away".to_string())));
    assert_eq!(tx.pending(), Action::Return(Err(Error::Sqlx("gone away".to_string()))));
}
