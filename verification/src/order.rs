//! Orders: what a cart becomes at checkout.

use crate::cart::{clone_items, item_views, total_cost, total_of, ItemView, OrderItem};
use crate::payment::{OrderPayment, PaymentView};
use vstd::prelude::*;

verus! {

/// The state of an order as plain mathematical values.
pub enum StateView {
    Open,
    Closed { payment: PaymentView },
}

/// Where an order stands: open until it is paid, closed with its payment
/// from then on.
#[derive(Debug, PartialEq, Eq)]
pub enum OrderState {
    Open,
    Closed { payment: OrderPayment },
}

impl View for OrderState {
    type V = StateView;

    open spec fn view(&self) -> StateView {
        match self {
            OrderState::Open => StateView::Open,
            OrderState::Closed { payment } => StateView::Closed { payment: payment@ },
        }
    }
}

/// The word that names a state.
pub open spec fn state_label(state: StateView) -> Seq<char> {
    match state {
        StateView::Open => "open"@,
        StateView::Closed { .. } => "closed"@,
    }
}

impl Clone for OrderState {
    fn clone(&self) -> (r: Self)
        ensures
            r@ == self@,
    {
        match self {
            OrderState::Open => OrderState::Open,
            OrderState::Closed { payment } => OrderState::Closed { payment: payment.clone() },
        }
    }
}

impl OrderState {
    /// The state in a word: `open` or `closed`.
    pub fn label(&self) -> (r: &'static str)
        ensures
            r@ == state_label(self@),
    {
        match self {
            OrderState::Open => "open",
            OrderState::Closed { .. } => "closed",
        }
    }
}

/// An order as plain mathematical values.
pub struct OrderView {
    pub order_id: nat,
    pub username: Seq<char>,
    pub items: Seq<ItemView>,
    pub delivery_address: Seq<char>,
    pub state: StateView,
}

/// What closing an order with a payment gives: the order after it, and
/// whether it was closed by this. An open order becomes closed with the
/// payment; a closed order stays as it is.
pub open spec fn close_result(order: OrderView, payment: PaymentView) -> (OrderView, bool) {
    if order.state is Open {
        (OrderView { state: StateView::Closed { payment }, ..order }, true)
    } else {
        (order, false)
    }
}

/// An order: the items a user checked out, for whom, and where to. The
/// user is named, not referred to, and the items are the order's own: what
/// happens to the user or the catalog later does not reach the order. Only
/// its state ever changes, and only once, from open to closed.
#[derive(Debug, PartialEq, Eq)]
pub struct Order {
    order_id: u64,
    username: String,
    items: Vec<OrderItem>,
    delivery_address: String,
    state: OrderState,
}

impl View for Order {
    type V = OrderView;

    closed spec fn view(&self) -> OrderView {
        OrderView {
            order_id: self.order_id as nat,
            username: self.username@,
            items: item_views(self.items@),
            delivery_address: self.delivery_address@,
            state: self.state@,
        }
    }
}

impl Clone for Order {
    fn clone(&self) -> (r: Self)
        ensures
            r@ == self@,
    {
        Order {
            order_id: self.order_id,
            username: self.username.clone(),
            items: clone_items(self.items.as_slice()),
            delivery_address: self.delivery_address.clone(),
            state: self.state.clone(),
        }
    }
}

impl Order {
    /// An order made of its parts.
    pub fn new(
        order_id: u64,
        username: String,
        items: Vec<OrderItem>,
        delivery_address: String,
        state: OrderState,
    ) -> (r: Self)
        ensures
            r@ == (OrderView {
                order_id: order_id as nat,
                username: username@,
                items: item_views(items@),
                delivery_address: delivery_address@,
                state: state@,
            }),
    {
        Order { order_id, username, items, delivery_address, state }
    }

    /// The number of the order.
    pub fn order_id(&self) -> (r: u64)
        ensures
            r as nat == self@.order_id,
    {
        self.order_id
    }

    /// The name of the user who placed the order.
    pub fn username(&self) -> (r: &str)
        ensures
            r@ == self@.username,
    {
        self.username.as_str()
    }

    /// The items of the order.
    pub fn items(&self) -> (r: &[OrderItem])
        ensures
            item_views(r@) == self@.items,
    {
        self.items.as_slice()
    }

    /// Where the order is to be delivered.
    pub fn delivery_address(&self) -> (r: &str)
        ensures
            r@ == self@.delivery_address,
    {
        self.delivery_address.as_str()
    }

    /// The state of the order.
    pub fn state(&self) -> (r: &OrderState)
        ensures
            r@ == self@.state,
    {
        &self.state
    }

    /// The price of the order: the sum of the costs of its items, computed
    /// anew from the items at each call.
    pub fn total_price(&self) -> (r: i128)
        ensures
            r as int == total_cost(self@.items),
    {
        total_of(self.items.as_slice())
    }

    /// Closes the order with the given payment. Only an open order can be
    /// closed: a closed one stays as it is, with the payment it has.
    ///
    /// Returns whether the order was closed by this call.
    pub fn close(&mut self, payment: OrderPayment) -> (r: bool)
        ensures
            (final(self)@, r) == close_result(old(self)@, payment@),
    {
        match self.state {
            OrderState::Open => {
                self.state = OrderState::Closed { payment };
                true
            },
            OrderState::Closed { .. } => false,
        }
    }
}

/// Closing works once: closing an open order succeeds and leaves it closed
/// with the payment given; closing again, with any payment, is refused and
/// changes nothing.
pub proof fn lemma_close_once(order: OrderView, first: PaymentView, second: PaymentView)
    ensures
        order.state is Open ==> close_result(order, first).1 && close_result(order, first).0.state
            == (StateView::Closed { payment: first }),
        close_result(close_result(order, first).0, second) == (close_result(order, first).0, false),
{
}

/// Closing changes nothing of an order but its state.
pub proof fn lemma_close_keeps_order(order: OrderView, payment: PaymentView)
    ensures
        close_result(order, payment).0.order_id == order.order_id,
        close_result(order, payment).0.username == order.username,
        close_result(order, payment).0.items == order.items,
        close_result(order, payment).0.delivery_address == order.delivery_address,
{
}

/// The views of a sequence of orders, in the same order.
pub open spec fn order_views(orders: Seq<Order>) -> Seq<OrderView> {
    Seq::new(orders.len(), |i: int| orders[i]@)
}

} // verus!
