//! The shop as a whole: its users, its catalog and its orders, and the
//! snapshot by which its state is kept between runs.

use crate::catalog::{product_views, Catalog};
use crate::order::{order_views, Order, OrderView};
use crate::order_manager::{after_checkout, well_numbered, OrderManager, OrderManagerView};
use crate::product::{Product, ProductView};
use crate::user::{user_views, User, UserView};
use crate::user_manager::{distinct_usernames, UserManager};
use vstd::prelude::*;

verus! {

/// The state of the shop as plain mathematical values.
pub struct ApplicationView {
    pub users: Seq<UserView>,
    pub products: Seq<ProductView>,
    pub orders: Seq<OrderView>,
    pub sequence_id: nat,
}

/// The state of a shop that has just opened: no users, no products, no
/// orders, and 0 as the number of the first order.
pub open spec fn empty_state() -> ApplicationView {
    ApplicationView {
        users: Seq::empty(),
        products: Seq::empty(),
        orders: Seq::empty(),
        sequence_id: 0,
    }
}

/// The order book that is part of a state.
pub open spec fn order_book(state: ApplicationView) -> OrderManagerView {
    OrderManagerView { orders: state.orders, sequence_id: state.sequence_id }
}

/// What holds of the state of every shop that was filled by its own
/// operations: no two users share a username, and the order numbers rise
/// and lie below the counter.
pub open spec fn consistent(state: ApplicationView) -> bool {
    distinct_usernames(state.users) && well_numbered(order_book(state))
}

/// The state with which a shop starts from what was kept of an earlier
/// run: the kept state if there is one and it is consistent, and the state
/// of a shop that has just opened otherwise.
pub open spec fn loaded(kept: Option<ApplicationView>) -> ApplicationView {
    match kept {
        Some(state) => if consistent(state) {
            state
        } else {
            empty_state()
        },
        None => empty_state(),
    }
}

/// The whole state of a shop in one value, to be written down and read
/// back: users, products, orders and the order counter. Which usernames
/// are taken is not part of it: that follows from the users.
#[derive(Debug, PartialEq, Eq)]
pub struct Snapshot {
    pub users: Vec<User>,
    pub products: Vec<Product>,
    pub orders: Vec<Order>,
    pub sequence_id: u64,
}

impl View for Snapshot {
    type V = ApplicationView;

    open spec fn view(&self) -> ApplicationView {
        ApplicationView {
            users: user_views(self.users@),
            products: product_views(self.products@),
            orders: order_views(self.orders@),
            sequence_id: self.sequence_id as nat,
        }
    }
}

/// The view of a snapshot that may be missing.
pub open spec fn kept_view(snapshot: Option<Snapshot>) -> Option<ApplicationView> {
    match snapshot {
        Some(kept) => Some(kept@),
        None => None,
    }
}

/// The shop: the registry of users, the catalog and the order book.
#[derive(Debug, PartialEq, Eq)]
pub struct CoronaApplication {
    pub user_manager: UserManager,
    pub catalog: Catalog,
    pub order_manager: OrderManager,
}

impl View for CoronaApplication {
    type V = ApplicationView;

    open spec fn view(&self) -> ApplicationView {
        ApplicationView {
            users: self.user_manager@,
            products: self.catalog@,
            orders: self.order_manager@.orders,
            sequence_id: self.order_manager@.sequence_id,
        }
    }
}

impl Default for CoronaApplication {
    fn default() -> (r: Self)
        ensures
            r@ == empty_state(),
    {
        CoronaApplication::new()
    }
}

impl CoronaApplication {
    /// A shop that has just opened.
    pub fn new() -> (r: Self)
        ensures
            r@ == empty_state(),
    {
        CoronaApplication {
            user_manager: UserManager::new(),
            catalog: Catalog::new(),
            order_manager: OrderManager::new(),
        }
    }

    /// The state of the shop as a snapshot. The shop itself stays as it is.
    pub fn save(&self) -> (r: Snapshot)
        ensures
            r@ == self@,
    {
        Snapshot {
            users: self.user_manager.clone_users(),
            products: self.catalog.clone_products(),
            orders: self.order_manager.clone_orders(),
            sequence_id: self.order_manager.sequence_id(),
        }
    }

    /// The shop as it was when the snapshot was taken. Where there is no
    /// snapshot, or the snapshot is not consistent, the shop starts as one
    /// that has just opened: a missing or spoilt snapshot is no failure.
    pub fn load(snapshot: Option<Snapshot>) -> (r: Self)
        ensures
            r@ == loaded(kept_view(snapshot)),
            consistent(r@),
    {
        let restored = match snapshot {
            None => None,
            Some(kept) => {
                let Snapshot { users, products, orders, sequence_id } = kept;
                match UserManager::from_users(users) {
                    None => None,
                    Some(user_manager) => match OrderManager::from_parts(orders, sequence_id) {
                        None => None,
                        Some(order_manager) => {
                            let catalog = Catalog::from_products(products);
                            Some(CoronaApplication { user_manager, catalog, order_manager })
                        },
                    },
                }
            },
        };
        match restored {
            Some(application) => application,
            None => {
                let fresh = CoronaApplication::new();
                proof {
                    lemma_empty_state_is_consistent();
                }
                fresh
            },
        }
    }
}

/// A shop that has just opened is in a consistent state.
pub proof fn lemma_empty_state_is_consistent()
    ensures
        consistent(empty_state()),
{
}

/// Keeping and reading back loses nothing: a shop that starts from the
/// snapshot of a consistent state is in that very state, with the same
/// users, products, orders and counter. The counter goes on where it was:
/// the next order to be placed, by whomever and whereto, gets a number that
/// is greater than that of every order in the snapshot.
pub proof fn lemma_save_then_load(
    state: ApplicationView,
    user: UserView,
    delivery_address: Seq<char>,
)
    requires
        consistent(state),
    ensures
        loaded(Some(state)) == state,
        forall|i: int|
            0 <= i < state.orders.len() ==> (#[trigger] state.orders[i]).order_id < after_checkout(
                order_book(loaded(Some(state))),
                user,
                delivery_address,
            ).orders.last().order_id,
{
}

} // verus!
