//! The order aggregate and its line items.

use vstd::prelude::*;

verus! {

/// An instant in UTC: whole seconds since the Unix epoch and the nanoseconds
/// elapsed within that second.
#[derive(Clone, Copy, Debug, PartialEq, Eq, PartialOrd, Ord, Hash)]
pub struct UtcDateTime {
    pub seconds: i64,
    pub nanos: u32,
}

/// One line of an order. `id` is absent until the line has been stored.
#[derive(Clone, Debug, PartialEq, Eq, PartialOrd, Ord)]
pub struct OrderLineItems {
    pub id: Option<i64>,
    pub sku_code: String,
    pub price: i64,
    pub quantity: i64,
}

/// An order with its lines. `id` and `created_at` are absent until the order
/// has been stored.
#[derive(Clone, Debug, PartialEq, Eq, PartialOrd, Ord)]
pub struct Order {
    pub id: Option<i64>,
    pub order_number: String,
    pub created_at: Option<UtcDateTime>,
    pub items: Vec<OrderLineItems>,
}

/// What an `OrderLineItems` holds, as mathematical values.
pub ghost struct LineItemView {
    pub id: Option<i64>,
    pub sku_code: Seq<char>,
    pub price: i64,
    pub quantity: i64,
}

/// What an `Order` holds, as mathematical values.
pub ghost struct OrderView {
    pub id: Option<i64>,
    pub order_number: Seq<char>,
    pub created_at: Option<UtcDateTime>,
    pub items: Seq<LineItemView>,
}

impl View for OrderLineItems {
    type V = LineItemView;

    open spec fn view(&self) -> LineItemView {
        LineItemView {
            id: self.id,
            sku_code: self.sku_code@,
            price: self.price,
            quantity: self.quantity,
        }
    }
}

impl View for Order {
    type V = OrderView;

    open spec fn view(&self) -> OrderView {
        OrderView {
            id: self.id,
            order_number: self.order_number@,
            created_at: self.created_at,
            items: views(self.items@),
        }
    }
}

/// The views of the elements of a sequence, in the same order.
pub open spec fn views<T: View>(s: Seq<T>) -> Seq<T::V> {
    Seq::new(s.len(), |i: int| s[i]@)
}

/// Pushing an element pushes its view.
pub proof fn lemma_views_push<T: View>(s: Seq<T>, t: T)
    ensures
        views(s.push(t)) == views(s).push(t@),
{
    assert(views(s.push(t)) =~= views(s).push(t@));
}

impl OrderLineItems {
    /// A copy of this line.
    pub fn duplicate(&self) -> (copy: OrderLineItems)
        ensures
            copy@ == self@,
    {
        OrderLineItems {
            id: self.id,
            sku_code: self.sku_code.clone(),
            price: self.price,
            quantity: self.quantity,
        }
    }
}

/// A copy of the lines, in the same order.
pub fn duplicate_items(items: &Vec<OrderLineItems>) -> (copy: Vec<OrderLineItems>)
    ensures
        views(copy@) == views(items@),
{
    let mut copy: Vec<OrderLineItems> = Vec::new();
    let mut i: usize = 0;
    while i < items.len()
        invariant
            i <= items.len(),
            views(copy@) == views(items@).take(i as int),
        decreases items.len() - i,
    {
        let item = items[i].duplicate();
        proof {
            lemma_views_push(copy@, item);
            assert(views(items@).take(i as int).push(item@) =~= views(items@).take(i as int + 1));
        }
        copy.push(item);
        i = i + 1;
    }
    assert(views(items@).take(i as int) =~= views(items@));
    copy
}

impl Order {
    /// A copy of this order.
    pub fn duplicate(&self) -> (copy: Order)
        ensures
            copy@ == self@,
    {
        Order {
            id: self.id,
            order_number: self.order_number.clone(),
            created_at: self.created_at,
            items: duplicate_items(&self.items),
        }
    }
}

} // verus!
