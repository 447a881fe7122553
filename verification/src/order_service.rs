//! The RPC facade: how requests become orders, and how what the repository
//! returns becomes a response or a status.

use crate::error::Error;
use crate::models::{lemma_views_push, views, LineItemView, Order, OrderLineItems, OrderView};
use crate::order_repository::{is_listing, law_listing_is_unique, JoinedRowView, OrderRepository};
use crate::outside::{is_random_uuid_text, join_sku_codes, joined, random_uuid_text, sku_codes_of};
use crate::proto::{
    Code, DeleteOrderRequest, DeleteOrderResponse, OrderEntityLineItems, OrderEntityLineItemsView,
    OrderEntityResponse, OrderEntityView, OrderListResponse, OrderRequest, OrderRequestItemView,
    OrderResponse, Status, StatusView, Timestamp,
};
use crate::text::{append_decimal, decimal};
use vstd::prelude::*;
use vstd::string::StringExecFns;

verus! {

/// The line of a new order that a line of a request asks for.
pub open spec fn requested_item(item: OrderRequestItemView) -> LineItemView {
    LineItemView { id: None, sku_code: item.sku_code, price: item.price, quantity: item.quantity }
}

/// The new order that a request asks for, under the given order number:
/// without identifier and time of creation, its lines as in the request.
pub open spec fn requested_order(
    order_number: Seq<char>,
    request: Seq<OrderRequestItemView>,
) -> OrderView {
    OrderView {
        id: None,
        order_number,
        created_at: None,
        items: request.map_values(|item: OrderRequestItemView| requested_item(item)),
    }
}

/// A line of an order as it goes on the wire; a line without identifier goes
/// out with the identifier 0.
pub open spec fn line_entity_of(item: LineItemView) -> OrderEntityLineItemsView {
    OrderEntityLineItemsView {
        order_line_item_id: match item.id {
            Some(id) => id,
            None => 0,
        },
        sku_code: item.sku_code,
        price: item.price,
        quantity: item.quantity,
    }
}

/// An order as it goes on the wire; an order without identifier goes out with
/// the identifier 0, one without time of creation goes out without. The
/// nanoseconds go out as a signed number of 32 bits, which holds every count
/// below two seconds as it is.
pub open spec fn entity_of(order: OrderView) -> OrderEntityView {
    OrderEntityView {
        order_id: match order.id {
            Some(id) => id,
            None => 0,
        },
        order_number: order.order_number,
        created_at: match order.created_at {
            Some(at) => Some(Timestamp { seconds: at.seconds, nanos: at.nanos as i32 }),
            None => None,
        },
        items: order.items.map_values(|item: LineItemView| line_entity_of(item)),
    }
}

/// The status of a failed call: internal, with the given message.
pub open spec fn internal(message: Seq<char>) -> StatusView {
    StatusView { code: Code::Internal, message }
}

/// Builds the new order that `request` asks for, under `order_number`.
pub fn order_from_request(order_number: String, request: &OrderRequest) -> (order: Order)
    ensures
        order@ == requested_order(order_number@, request@),
{
    let mut items: Vec<OrderLineItems> = Vec::new();
    let mut i: usize = 0;
    while i < request.items.len()
        invariant
            i <= request.items.len(),
            views(items@) == request@.take(i as int).map_values(
                |item: OrderRequestItemView| requested_item(item),
            ),
        decreases request.items.len() - i,
    {
        let line = &request.items[i];
        let item = OrderLineItems {
            id: None,
            sku_code: line.sku_code.clone(),
            price: line.price,
            quantity: line.quantity,
        };
        proof {
            lemma_views_push(items@, item);
            assert(request@.take(i as int + 1) =~= request@.take(i as int).push(line@));
            assert(request@.take(i as int).push(line@).map_values(
                |item: OrderRequestItemView| requested_item(item),
            ) =~= request@.take(i as int).map_values(
                |item: OrderRequestItemView| requested_item(item),
            ).push(requested_item(line@)));
        }
        items.push(item);
        i = i + 1;
    }
    proof {
        assert(request@.take(i as int) =~= request@);
    }
    Order { id: None, order_number, created_at: None, items }
}

/// Maps an order to its form on the wire.
pub fn order_entity(order: &Order) -> (entity: OrderEntityResponse)
    ensures
        entity@ == entity_of(order@),
{
    let mut items: Vec<OrderEntityLineItems> = Vec::new();
    let mut i: usize = 0;
    while i < order.items.len()
        invariant
            i <= order.items.len(),
            views(items@) == order@.items.take(i as int).map_values(
                |item: LineItemView| line_entity_of(item),
            ),
        decreases order.items.len() - i,
    {
        let item = &order.items[i];
        let line = OrderEntityLineItems {
            order_line_item_id: match item.id {
                Some(id) => id,
                None => 0,
            },
            sku_code: item.sku_code.clone(),
            price: item.price,
            quantity: item.quantity,
        };
        proof {
            lemma_views_push(items@, line);
            assert(order@.items.take(i as int + 1) =~= order@.items.take(i as int).push(item@));
            assert(order@.items.take(i as int).push(item@).map_values(
                |item: LineItemView| line_entity_of(item),
            ) =~= order@.items.take(i as int).map_values(
                |item: LineItemView| line_entity_of(item),
            ).push(line_entity_of(item@)));
        }
        items.push(line);
        i = i + 1;
    }
    proof {
        assert(order@.items.take(i as int) =~= order@.items);
    }
    OrderEntityResponse {
        order_id: match order.id {
            Some(id) => id,
            None => 0,
        },
        order_number: order.order_number.clone(),
        created_at: match order.created_at {
            Some(at) => Some(Timestamp { seconds: at.seconds, nanos: at.nanos as i32 }),
            None => None,
        },
        items,
    }
}

/// The orders of a list response stand in strictly ascending order of their
/// identifiers: of any two entities, the one with the smaller `order_id`
/// comes first.
pub proof fn law_list_is_ascending(list: Seq<OrderView>, rows: Seq<JoinedRowView>)
    requires
        is_listing(list, rows),
    ensures
        forall|i: int, j: int|
            0 <= i < j < list.len() ==> entity_of(#[trigger] list[i]).order_id < entity_of(
                #[trigger] list[j],
            ).order_id,
{
    assert forall|i: int, j: int| 0 <= i < j < list.len() implies entity_of(
        #[trigger] list[i],
    ).order_id < entity_of(#[trigger] list[j]).order_id by {
        assert(list[i].id.unwrap() < list[j].id.unwrap());
    }
}

/// The rows decide the list response: two lists made of the same rows go on
/// the wire as the same entities in the same order.
pub proof fn law_list_is_determined(a: Seq<OrderView>, b: Seq<OrderView>, rows: Seq<JoinedRowView>)
    requires
        is_listing(a, rows),
        is_listing(b, rows),
    ensures
        a.map_values(|order: OrderView| entity_of(order)) == b.map_values(
            |order: OrderView| entity_of(order),
        ),
{
    law_listing_is_unique(a, b, rows);
}

/// The facade of the service. It keeps nothing between calls.
pub struct OrderService {
    pub repository: OrderRepository,
}

impl OrderService {
    pub fn new(order_repository: OrderRepository) -> (service: OrderService)
        ensures
            service.repository == order_repository,
    {
        OrderService { repository: order_repository }
    }

    /// The repository behind the facade.
    pub fn repository(&self) -> (repository: &OrderRepository)
        ensures
            *repository == self.repository,
    {
        &self.repository
    }

    /// The SKU codes of a request, separated by commas, as the log names them.
    pub fn sku_codes(&self, request: &OrderRequest) -> (text: String)
        ensures
            text@ == joined(sku_codes_of(request.items@), ","@),
    {
        join_sku_codes(&request.items, ",")
    }

    /// Builds the order to store for a request to place one: the lines of the
    /// request in their order, under an order number drawn afresh.
    pub fn place(&self, request: &OrderRequest) -> (order: Order)
        ensures
            is_random_uuid_text(order@.order_number),
            order@ == requested_order(order@.order_number, request@),
    {
        order_from_request(random_uuid_text(), request)
    }

    /// Answers a request to place an order, given what storing it returned:
    /// the order number where it was stored, else the internal status.
    pub fn placed(&self, saved: Result<String, Error>) -> (answer: Result<OrderResponse, Status>)
        ensures
            match saved {
                Ok(order_number) => answer is Ok && answer->Ok_0@ == order_number@,
                Err(_) => answer is Err && answer->Err_0@ == internal("could not save order"@),
            },
    {
        match saved {
            Ok(order_number) => Ok(OrderResponse { order_number }),
            Err(_) => Err(
                Status { code: Code::Internal, message: String::from_str("could not save order") },
            ),
        }
    }

    /// Answers a request for the list of orders, given what reading them
    /// returned: each order in its form on the wire, in the same order, else
    /// the internal status.
    pub fn get_order_list(&self, listed: Result<Vec<Order>, Error>) -> (answer: Result<
        OrderListResponse,
        Status,
    >)
        ensures
            match listed {
                Ok(orders) => answer is Ok && answer->Ok_0@ == views(orders@).map_values(
                    |order: OrderView| entity_of(order),
                ),
                Err(_) => answer is Err && answer->Err_0@ == internal("could not get_order_list"@),
            },
    {
        match listed {
            Ok(orders) => {
                let mut entities: Vec<OrderEntityResponse> = Vec::new();
                let mut i: usize = 0;
                while i < orders.len()
                    invariant
                        i <= orders.len(),
                        views(entities@) == views(orders@).take(i as int).map_values(
                            |order: OrderView| entity_of(order),
                        ),
                    decreases orders.len() - i,
                {
                    let entity = order_entity(&orders[i]);
                    proof {
                        lemma_views_push(entities@, entity);
                        assert(views(orders@).take(i as int + 1) =~= views(orders@).take(
                            i as int,
                        ).push(orders[i as int]@));
                        assert(views(orders@).take(i as int).push(orders[i as int]@).map_values(
                            |order: OrderView| entity_of(order),
                        ) =~= views(orders@).take(i as int).map_values(
                            |order: OrderView| entity_of(order),
                        ).push(entity_of(orders[i as int]@)));
                    }
                    entities.push(entity);
                    i = i + 1;
                }
                proof {
                    assert(views(orders@).take(i as int) =~= views(orders@));
                }
                Ok(OrderListResponse { orders: entities })
            },
            Err(_) => Err(
                Status {
                    code: Code::Internal,
                    message: String::from_str("could not get_order_list"),
                },
            ),
        }
    }

    /// Answers a request to delete an order, given what deleting it returned:
    /// whether an order was removed, else the internal status, which names
    /// the order.
    pub fn delete_order(&self, request: &DeleteOrderRequest, deleted: Result<bool, Error>) -> (answer:
        Result<DeleteOrderResponse, Status>)
        ensures
            match deleted {
                Ok(is_deleted) => answer == Ok::<DeleteOrderResponse, Status>(
                    DeleteOrderResponse { is_deleted },
                ),
                Err(_) => answer is Err && answer->Err_0@ == internal(
                    "could not delete order_id="@ + decimal(request.order_id as int),
                ),
            },
    {
        match deleted {
            Ok(is_deleted) => Ok(DeleteOrderResponse { is_deleted }),
            Err(_) => {
                let mut message = String::from_str("could not delete order_id=");
                append_decimal(&mut message, request.order_id);
                Err(Status { code: Code::Internal, message })
            },
        }
    }
}

} // verus!
