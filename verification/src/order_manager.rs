//! The order book: where orders get their numbers, and where they are
//! found again.

use crate::find::{first_match, lemma_first_match_is};
use crate::order::{close_result, order_views, Order, OrderState, OrderView, StateView};
use crate::payment::PaymentView;
use crate::text::same_text;
use crate::user::{User, UserView};
use vstd::prelude::*;

verus! {

/// The order book as plain mathematical values: the orders, and the number
/// that the next order will get.
pub struct OrderManagerView {
    pub orders: Seq<OrderView>,
    pub sequence_id: nat,
}

/// The order numbers rise along the sequence, and all lie below the number
/// that comes next: no number occurs twice, and none will be given again.
pub open spec fn well_numbered(book: OrderManagerView) -> bool {
    &&& forall|i: int, j: int|
        0 <= i < j < book.orders.len() ==> (#[trigger] book.orders[i]).order_id < (
        #[trigger] book.orders[j]).order_id
    &&& forall|i: int|
        0 <= i < book.orders.len() ==> (#[trigger] book.orders[i]).order_id < book.sequence_id
}

/// The order that a checkout makes: it carries the given number, names the
/// user, holds what was in the user's cart, and is open.
pub open spec fn placed(order_id: nat, user: UserView, delivery_address: Seq<char>) -> OrderView {
    OrderView {
        order_id,
        username: user.username,
        items: user.cart,
        delivery_address,
        state: StateView::Open,
    }
}

/// The order book after a checkout: the new order stands at the end with
/// the number that was next, and the next number is one higher.
pub open spec fn after_checkout(
    book: OrderManagerView,
    user: UserView,
    delivery_address: Seq<char>,
) -> OrderManagerView {
    OrderManagerView {
        orders: book.orders.push(placed(book.sequence_id, user, delivery_address)),
        sequence_id: book.sequence_id + 1,
    }
}

/// Whether the order has the given number and belongs to the named user.
pub open spec fn is_order_of(order: OrderView, order_id: nat, username: Seq<char>) -> bool {
    order.order_id == order_id && order.username == username
}

/// The condition that an order has the given number and belongs to the
/// named user.
pub open spec fn asked_for(order_id: nat, username: Seq<char>) -> spec_fn(OrderView) -> bool {
    |order: OrderView| is_order_of(order, order_id, username)
}

/// The first position whose order has the given number and belongs to the
/// named user, or the number of orders if there is none.
pub open spec fn order_position(orders: Seq<OrderView>, order_id: nat, username: Seq<char>) -> int {
    first_match(orders, asked_for(order_id, username))
}

/// The orders of the named user, in their order.
pub open spec fn orders_of(orders: Seq<OrderView>, username: Seq<char>) -> Seq<OrderView> {
    orders.filter(|order: OrderView| order.username == username)
}

/// The order book: every order ever placed, oldest first, and the counter
/// from which orders get their numbers.
#[derive(Debug, PartialEq, Eq)]
pub struct OrderManager {
    orders: Vec<Order>,
    sequence_id: u64,
}

impl View for OrderManager {
    type V = OrderManagerView;

    closed spec fn view(&self) -> OrderManagerView {
        OrderManagerView {
            orders: order_views(self.orders@),
            sequence_id: self.sequence_id as nat,
        }
    }
}

impl Default for OrderManager {
    fn default() -> (r: Self)
        ensures
            r@ == (OrderManagerView { orders: Seq::empty(), sequence_id: 0 }),
    {
        OrderManager::new()
    }
}

impl OrderManager {
    /// An order book without orders, whose first order will have number 0.
    pub fn new() -> (r: Self)
        ensures
            r@ == (OrderManagerView { orders: Seq::empty(), sequence_id: 0 }),
            well_numbered(r@),
    {
        let r = OrderManager { orders: Vec::new(), sequence_id: 0 };
        assert(r@.orders =~= Seq::<OrderView>::empty());
        r
    }

    /// An order book of the given orders and counter, if the order numbers
    /// rise along the orders and all lie below the counter.
    pub fn from_parts(orders: Vec<Order>, sequence_id: u64) -> (r: Option<Self>)
        ensures
            r is Some <==> well_numbered(
                OrderManagerView { orders: order_views(orders@), sequence_id: sequence_id as nat },
            ),
            r is Some ==> r.unwrap()@ == (OrderManagerView {
                orders: order_views(orders@),
                sequence_id: sequence_id as nat,
            }),
    {
        let ghost book = OrderManagerView {
            orders: order_views(orders@),
            sequence_id: sequence_id as nat,
        };
        let mut i: usize = 0;
        while i < orders.len()
            invariant
                i <= orders.len(),
                book.orders == order_views(orders@),
                book.sequence_id == sequence_id as nat,
                forall|k: int| 0 <= k < i ==> (#[trigger] book.orders[k]).order_id < sequence_id,
                forall|k: int|
                    0 < k < i ==> book.orders[k - 1].order_id < (
                    #[trigger] book.orders[k]).order_id,
            decreases orders.len() - i,
        {
            if orders[i].order_id() >= sequence_id {
                return None;
            }
            if i > 0 && orders[i - 1].order_id() >= orders[i].order_id() {
                proof {
                    assert(!(book.orders[i - 1].order_id < book.orders[i as int].order_id));
                }
                return None;
            }
            i += 1;
        }
        proof {
            lemma_rising(book.orders);
        }
        Some(OrderManager { orders, sequence_id })
    }

    /// A copy of the orders, oldest first.
    pub fn clone_orders(&self) -> (r: Vec<Order>)
        ensures
            order_views(r@) == self@.orders,
    {
        let mut copy: Vec<Order> = Vec::new();
        let mut i: usize = 0;
        while i < self.orders.len()
            invariant
                i <= self.orders.len(),
                order_views(copy@) == self@.orders.take(i as int),
            decreases self.orders.len() - i,
        {
            let one = self.orders[i].clone();
            copy.push(one);
            proof {
                assert(self@.orders.take(i as int + 1) =~= self@.orders.take(i as int).push(
                    self.orders@[i as int]@,
                ));
            }
            i += 1;
        }
        copy
    }

    /// The number that the next order will get.
    pub fn sequence_id(&self) -> (r: u64)
        ensures
            r as nat == self@.sequence_id,
    {
        self.sequence_id
    }

    /// Turns the user's cart into an order. The order gets the next number,
    /// names the user, takes every item out of the cart, which is empty
    /// afterwards, and is open. An empty cart gives an order without items.
    ///
    /// Returns the new order, which stands at the end of the book. Only when
    /// the numbers have run out is no order made, and then nothing changes.
    pub fn checkout<'a>(&'a mut self, user: &mut User, delivery_address: String) -> (r: Option<
        &'a Order,
    >)
        ensures
            r is Some <==> old(self)@.sequence_id < u64::MAX,
            match r {
                Some(order) => {
                    &&& order@ == placed(old(self)@.sequence_id, old(user)@, delivery_address@)
                    &&& final(self)@ == after_checkout(old(self)@, old(user)@, delivery_address@)
                    &&& final(user)@ == (UserView { cart: Seq::empty(), ..old(user)@ })
                },
                None => final(self)@ == old(self)@ && final(user)@ == old(user)@,
            },
            well_numbered(old(self)@) ==> well_numbered(final(self)@),
    {
        if self.sequence_id == u64::MAX {
            return None;
        }
        let ghost book = self@;
        let ghost buyer = user@;
        let order_id = self.sequence_id;
        self.sequence_id = order_id + 1;
        let username = user.username().to_owned();
        let items = user.cart_mut().take_items();
        let order = Order::new(order_id, username, items, delivery_address, OrderState::Open);
        self.orders.push(order);
        proof {
            assert(self@.orders =~= after_checkout(book, buyer, delivery_address@).orders);
            lemma_checkout_well_numbered(book, buyer, delivery_address@);
        }
        let last = self.orders.len() - 1;
        Some(&self.orders[last])
    }

    /// The orders, oldest first.
    pub fn orders(&self) -> (r: &[Order])
        ensures
            order_views(r@) == self@.orders,
    {
        self.orders.as_slice()
    }

    /// The orders, to change them. What the caller makes of them takes their
    /// place; the counter stays as it is.
    pub fn orders_mut(&mut self) -> (r: &mut [Order])
        ensures
            order_views(r@) == old(self)@.orders,
            final(self)@.orders == order_views(final(r)@),
            final(self)@.sequence_id == old(self)@.sequence_id,
    {
        self.orders.as_mut_slice()
    }

    /// Where the first order stands that has the given number and belongs to
    /// the named user, if there is one.
    pub fn order_index(&self, order_id: u64, username: &str) -> (r: Option<usize>)
        ensures
            match r {
                Some(at) => at == order_position(self@.orders, order_id as nat, username@) && at
                    < self@.orders.len(),
                None => order_position(self@.orders, order_id as nat, username@)
                    == self@.orders.len(),
            },
    {
        let mut i: usize = 0;
        while i < self.orders.len()
            invariant
                i <= self.orders.len(),
                forall|j: int|
                    0 <= j < i ==> !is_order_of(
                        #[trigger] self@.orders[j],
                        order_id as nat,
                        username@,
                    ),
            decreases self.orders.len() - i,
        {
            if self.orders[i].order_id() == order_id && same_text(
                self.orders[i].username(),
                username,
            ) {
                proof {
                    lemma_first_match_is(
                        self@.orders,
                        asked_for(order_id as nat, username@),
                        i as int,
                    );
                }
                return Some(i);
            }
            i += 1;
        }
        proof {
            lemma_first_match_is(self@.orders, asked_for(order_id as nat, username@), i as int);
        }
        None
    }

    /// Finds the order with the given number among those of the named user,
    /// and hands it out for change. What the caller makes of the order takes
    /// its place in the book; nothing else changes.
    pub fn find_order_mut(&mut self, order_id: u64, username: &str) -> (r: Option<&mut Order>)
        ensures
            match r {
                Some(order) => {
                    let at = order_position(old(self)@.orders, order_id as nat, username@);
                    &&& at < old(self)@.orders.len()
                    &&& order@ == old(self)@.orders[at]
                    &&& final(self)@.orders == old(self)@.orders.update(at, final(order)@)
                    &&& final(self)@.sequence_id == old(self)@.sequence_id
                },
                None => order_position(old(self)@.orders, order_id as nat, username@) == old(
                    self,
                )@.orders.len() && final(self)@ == old(self)@,
            },
    {
        match self.order_index(order_id, username) {
            Some(at) => {
                let order = &mut self.orders[at];
                Some(order)
            },
            None => None,
        }
    }

    /// The orders of the named user, oldest first.
    pub fn orders_for_user(&self, username: &str) -> (r: Vec<&Order>)
        ensures
            Seq::new(r@.len(), |i: int| r@[i]@) == orders_of(self@.orders, username@),
    {
        let ghost mine = |order: OrderView| order.username == username@;
        let ghost all = self@.orders;
        let mut found: Vec<&Order> = Vec::new();
        let mut i: usize = 0;
        while i < self.orders.len()
            invariant
                i <= self.orders.len(),
                all == self@.orders,
                mine == |order: OrderView| order.username == username@,
                Seq::new(found@.len(), |k: int| found@[k]@) == all.take(i as int).filter(mine),
            decreases self.orders.len() - i,
        {
            proof {
                assert(all.take(i as int + 1) =~= all.take(i as int).push(all[i as int]));
                all.take(i as int).lemma_filter_push(all[i as int], mine);
            }
            if same_text(self.orders[i].username(), username) {
                found.push(&self.orders[i]);
            }
            i += 1;
        }
        proof {
            assert(all.take(i as int) =~= all);
        }
        found
    }
}

/// Orders whose numbers rise from each to the next have numbers that rise
/// from each to all that follow.
pub proof fn lemma_rising(orders: Seq<OrderView>)
    requires
        forall|k: int|
            0 < k < orders.len() ==> orders[k - 1].order_id < (#[trigger] orders[k]).order_id,
    ensures
        forall|i: int, j: int|
            0 <= i < j < orders.len() ==> (#[trigger] orders[i]).order_id < (
            #[trigger] orders[j]).order_id,
    decreases orders.len(),
{
    if orders.len() > 0 {
        let front = orders.drop_last();
        assert forall|k: int| 0 < k < front.len() implies front[k - 1].order_id < (
        #[trigger] front[k]).order_id by {
            assert(front[k - 1] == orders[k - 1] && front[k] == orders[k]);
        }
        lemma_rising(front);
        assert forall|i: int, j: int| 0 <= i < j < orders.len() implies (
        #[trigger] orders[i]).order_id < (#[trigger] orders[j]).order_id by {
            let last = orders.len() - 1;
            if j < last {
                assert(front[i] == orders[i] && front[j] == orders[j]);
            } else {
                // Up to the one before the last through the front, then one step more.
                assert(orders[last - 1].order_id < orders[last].order_id);
                if i < last - 1 {
                    assert(front[i] == orders[i] && front[last - 1] == orders[last - 1]);
                }
            }
        }
    }
}

/// A checkout keeps the order numbers in order, as long as there is a number
/// left to give.
pub proof fn lemma_checkout_well_numbered(
    book: OrderManagerView,
    user: UserView,
    delivery_address: Seq<char>,
)
    ensures
        well_numbered(book) ==> well_numbered(after_checkout(book, user, delivery_address)),
{
}

/// The order book after one checkout for each of the requests, in turn. A
/// request is the user who checks out and the delivery address.
pub open spec fn after_checkouts(
    book: OrderManagerView,
    requests: Seq<(UserView, Seq<char>)>,
) -> OrderManagerView
    decreases requests.len(),
{
    if requests.len() == 0 {
        book
    } else {
        after_checkout(
            after_checkouts(book, requests.drop_last()),
            requests.last().0,
            requests.last().1,
        )
    }
}

/// Order numbers count up: checkouts that are made one after another give
/// orders whose numbers are the counter's value at the start, that plus
/// one, plus two, and so on, each greater than the one before. In a new
/// order book they are 0, 1, 2 and so on. The earlier orders stay as they
/// are.
pub proof fn lemma_checkouts_count_up(book: OrderManagerView, requests: Seq<(UserView, Seq<char>)>)
    ensures
        after_checkouts(book, requests).sequence_id == book.sequence_id + requests.len(),
        after_checkouts(book, requests).orders.len() == book.orders.len() + requests.len(),
        after_checkouts(book, requests).orders.take(book.orders.len() as int) == book.orders,
        forall|i: int|
            0 <= i < requests.len() ==> (#[trigger] after_checkouts(
                book,
                requests,
            ).orders[book.orders.len() + i]) == placed(
                book.sequence_id + i as nat,
                requests[i].0,
                requests[i].1,
            ),
        well_numbered(book) ==> well_numbered(after_checkouts(book, requests)),
    decreases requests.len(),
{
    if requests.len() > 0 {
        let front = requests.drop_last();
        let middle = after_checkouts(book, front);
        lemma_checkouts_count_up(book, front);
        lemma_checkout_well_numbered(middle, requests.last().0, requests.last().1);
    }
}

/// Closing an order leaves the order numbers of the book as they are, and
/// with them their order.
pub proof fn lemma_close_well_numbered(book: OrderManagerView, at: int, payment: PaymentView)
    requires
        well_numbered(book),
        0 <= at < book.orders.len(),
    ensures
        well_numbered(
            OrderManagerView {
                orders: book.orders.update(at, close_result(book.orders[at], payment).0),
                sequence_id: book.sequence_id,
            },
        ),
{
}

} // verus!
