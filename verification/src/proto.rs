//! The messages of the RPC surface.

use crate::models::views;
use vstd::prelude::*;

verus! {

/// One line of a request to place an order.
#[derive(Clone, Debug, PartialEq, Eq)]
pub struct OrderRequestItem {
    pub sku_code: String,
    pub price: i64,
    pub quantity: i64,
}

/// The request to place an order.
#[derive(Clone, Debug, PartialEq, Eq)]
pub struct OrderRequest {
    pub items: Vec<OrderRequestItem>,
}

/// The answer to a placed order.
#[derive(Clone, Debug, PartialEq, Eq)]
pub struct OrderResponse {
    pub order_number: String,
}

/// The request that carries nothing.
#[derive(Clone, Copy, Debug, PartialEq, Eq)]
pub struct Empty {}

/// An instant on the wire: seconds since the Unix epoch in UTC, and
/// nanoseconds within the second.
#[derive(Clone, Copy, Debug, PartialEq, Eq)]
pub struct Timestamp {
    pub seconds: i64,
    pub nanos: i32,
}

/// One line of an order on the wire.
#[derive(Clone, Debug, PartialEq, Eq)]
pub struct OrderEntityLineItems {
    pub order_line_item_id: i64,
    pub sku_code: String,
    pub price: i64,
    pub quantity: i64,
}

/// An order on the wire.
#[derive(Clone, Debug, PartialEq, Eq)]
pub struct OrderEntityResponse {
    pub order_id: i64,
    pub order_number: String,
    pub created_at: Option<Timestamp>,
    pub items: Vec<OrderEntityLineItems>,
}

/// The answer to a request for the list of orders.
#[derive(Clone, Debug, PartialEq, Eq)]
pub struct OrderListResponse {
    pub orders: Vec<OrderEntityResponse>,
}

/// The request to delete an order.
#[derive(Clone, Copy, Debug, PartialEq, Eq)]
pub struct DeleteOrderRequest {
    pub order_id: i64,
}

/// The answer to a request to delete an order.
#[derive(Clone, Copy, Debug, PartialEq, Eq)]
pub struct DeleteOrderResponse {
    pub is_deleted: bool,
}

/// The status codes that the service answers with when it fails.
#[derive(Clone, Copy, Debug, PartialEq, Eq)]
pub enum Code {
    Internal,
}

/// A failed call: its code and a short message for the client.
#[derive(Clone, Debug, PartialEq, Eq)]
pub struct Status {
    pub code: Code,
    pub message: String,
}

/// What an `OrderRequestItem` holds, as mathematical values.
pub ghost struct OrderRequestItemView {
    pub sku_code: Seq<char>,
    pub price: i64,
    pub quantity: i64,
}

/// What an `OrderEntityLineItems` holds, as mathematical values.
pub ghost struct OrderEntityLineItemsView {
    pub order_line_item_id: i64,
    pub sku_code: Seq<char>,
    pub price: i64,
    pub quantity: i64,
}

/// What an `OrderEntityResponse` holds, as mathematical values.
pub ghost struct OrderEntityView {
    pub order_id: i64,
    pub order_number: Seq<char>,
    pub created_at: Option<Timestamp>,
    pub items: Seq<OrderEntityLineItemsView>,
}

/// What a `Status` holds, as mathematical values.
pub ghost struct StatusView {
    pub code: Code,
    pub message: Seq<char>,
}

impl View for OrderRequestItem {
    type V = OrderRequestItemView;

    open spec fn view(&self) -> OrderRequestItemView {
        OrderRequestItemView {
            sku_code: self.sku_code@,
            price: self.price,
            quantity: self.quantity,
        }
    }
}

impl View for OrderRequest {
    type V = Seq<OrderRequestItemView>;

    open spec fn view(&self) -> Seq<OrderRequestItemView> {
        views(self.items@)
    }
}

impl View for OrderResponse {
    type V = Seq<char>;

    open spec fn view(&self) -> Seq<char> {
        self.order_number@
    }
}

impl View for OrderEntityLineItems {
    type V = OrderEntityLineItemsView;

    open spec fn view(&self) -> OrderEntityLineItemsView {
        OrderEntityLineItemsView {
            order_line_item_id: self.order_line_item_id,
            sku_code: self.sku_code@,
            price: self.price,
            quantity: self.quantity,
        }
    }
}

impl View for OrderEntityResponse {
    type V = OrderEntityView;

    open spec fn view(&self) -> OrderEntityView {
        OrderEntityView {
            order_id: self.order_id,
            order_number: self.order_number@,
            created_at: self.created_at,
            items: views(self.items@),
        }
    }
}

impl View for OrderListResponse {
    type V = Seq<OrderEntityView>;

    open spec fn view(&self) -> Seq<OrderEntityView> {
        views(self.orders@)
    }
}

impl View for Status {
    type V = StatusView;

    open spec fn view(&self) -> StatusView {
        StatusView { code: self.code, message: self.message@ }
    }
}

} // verus!
