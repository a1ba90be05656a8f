use corona::cart::{Cart, OrderItem};
use corona::catalog::Catalog;
use corona::order::{Order, OrderState};
use corona::order_manager::OrderManager;
use corona::payment::{CardNumber, OrderPayment};
use corona::product::Product;
use corona::user::User;

fn product(code: &str, name: &str, unit_price: u32) -> Product {
    Product::new(code.to_string(), name.to_string(), unit_price).unwrap()
}

fn user(username: &str) -> User {
    User::new(username.to_string(), "hash".to_string(), format!("{username}@x.com"), Cart::new())
}

fn card(text: &str) -> CardNumber {
    CardNumber::new(text.to_string()).unwrap()
}

fn order(order_id: u64, username: &str) -> Order {
    Order::new(order_id, username.to_string(), Vec::new(), "Street 1".to_string(), OrderState::Open)
}

#[test]
fn a_card_number_has_sixteen_characters() {
    assert_eq!(card("1234567890123456").as_str(), "1234567890123456");
    assert_eq!(CardNumber::new("123456789012345".to_string()), None);
    assert_eq!(CardNumber::new("12345678901234567".to_string()), None);
    assert_eq!(CardNumber::new(String::new()), None);
}

#[test]
fn a_card_number_is_measured_in_characters() {
    let sixteen = "١٢٣٤٥٦٧٨٩٠١٢٣٤٥٦";
    assert_eq!(sixteen.chars().count(), 16);
    assert!(CardNumber::new(sixteen.to_string()).is_some());
    let eight_of_two_bytes = "éééééééé";
    assert_eq!(eight_of_two_bytes.len(), 16);
    assert_eq!(CardNumber::new(eight_of_two_bytes.to_string()), None);
}

#[test]
fn payments_and_states_have_labels() {
    assert_eq!(OrderPayment::Cash.label(), "cash");
    let paid = OrderPayment::CreditCard { card_number: card("1234567890123456") };
    assert_eq!(paid.label(), "credit card 1234567890123456");
    assert_eq!(OrderState::Open.label(), "open");
    assert_eq!(OrderState::Closed { payment: OrderPayment::Cash }.label(), "closed");
    assert_eq!(OrderState::Closed { payment: paid }.label(), "closed");
}

#[test]
fn checkout_moves_the_cart_into_an_open_order() {
    let mut book = OrderManager::new();
    let mut alice = user("alice");
    assert!(alice.cart_mut().add_item(&product("T1", "Tea", 250), 2));
    assert!(alice.cart_mut().add_item(&product("C1", "Coffee", 400), 1));
    let before = alice.cart().clone();

    let placed = book.checkout(&mut alice, "Street 1".to_string()).unwrap();
    assert_eq!(placed.order_id(), 0);
    assert_eq!(placed.username(), "alice");
    assert_eq!(placed.delivery_address(), "Street 1");
    assert_eq!(placed.items(), before.items());
    assert_eq!(placed.state(), &OrderState::Open);
    assert_eq!(placed.total_price(), 900);

    assert!(alice.cart().items().is_empty());
    assert_eq!(alice.username(), "alice");
    assert_eq!(book.orders().len(), 1);
    assert_eq!(book.sequence_id(), 1);
}

#[test]
fn an_empty_cart_gives_an_order_without_items() {
    let mut book = OrderManager::new();
    let mut alice = user("alice");
    let placed = book.checkout(&mut alice, String::new()).unwrap();
    assert!(placed.items().is_empty());
    assert_eq!(placed.total_price(), 0);
    assert_eq!(placed.state(), &OrderState::Open);
}

#[test]
fn order_numbers_count_up_from_zero() {
    let mut book = OrderManager::new();
    let mut alice = user("alice");
    let mut bob = user("bob");
    for expected in 0..5u64 {
        let buyer = if expected % 2 == 0 { &mut alice } else { &mut bob };
        let number = book.checkout(buyer, "Street 1".to_string()).unwrap().order_id();
        assert_eq!(number, expected);
    }
    let numbers: Vec<u64> = book.orders().iter().map(|o| o.order_id()).collect();
    assert_eq!(numbers, vec![0, 1, 2, 3, 4]);
    assert_eq!(book.sequence_id(), 5);
}

#[test]
fn an_order_keeps_its_items_when_the_catalog_changes() {
    let mut catalog = Catalog::new();
    catalog.add_product(product("T1", "Tea", 250));
    let mut book = OrderManager::new();
    let mut alice = user("alice");
    assert!(alice.cart_mut().add_item(catalog.select(1).unwrap(), 2));
    book.checkout(&mut alice, "Street 1".to_string()).unwrap();

    catalog.remove_product("T1");
    catalog.add_product(product("T1", "Tea", 99999));

    let kept = &book.orders()[0];
    assert_eq!(kept.items().len(), 1);
    assert_eq!(kept.items()[0].product().unit_price(), 250);
    assert_eq!(kept.total_price(), 500);
}

#[test]
fn when_the_numbers_have_run_out_nothing_is_ordered() {
    let mut book = OrderManager::from_parts(Vec::new(), u64::MAX).unwrap();
    let mut alice = user("alice");
    assert!(alice.cart_mut().add_item(&product("T1", "Tea", 250), 2));
    assert!(book.checkout(&mut alice, "Street 1".to_string()).is_none());
    assert!(book.orders().is_empty());
    assert_eq!(book.sequence_id(), u64::MAX);
    assert_eq!(alice.cart().items().len(), 1);

    let mut last = OrderManager::from_parts(Vec::new(), u64::MAX - 1).unwrap();
    let number = last.checkout(&mut alice, "Street 1".to_string()).unwrap().order_id();
    assert_eq!(number, u64::MAX - 1);
    assert_eq!(last.sequence_id(), u64::MAX);
}

#[test]
fn an_open_order_is_closed_once() {
    let mut first = order(7, "alice");
    assert!(first.close(OrderPayment::Cash));
    assert_eq!(first.state(), &OrderState::Closed { payment: OrderPayment::Cash });

    let paid = OrderPayment::CreditCard { card_number: card("1234567890123456") };
    assert!(!first.close(paid));
    assert_eq!(first.state(), &OrderState::Closed { payment: OrderPayment::Cash });
    assert_eq!(first.order_id(), 7);
    assert_eq!(first.username(), "alice");
}

#[test]
fn an_order_closed_by_card_keeps_the_card() {
    let mut first = order(0, "alice");
    let paid = OrderPayment::CreditCard { card_number: card("1234567890123456") };
    assert!(first.close(paid.clone()));
    assert_eq!(first.state(), &OrderState::Closed { payment: paid });
    assert!(!first.close(OrderPayment::Cash));
    assert_eq!(first.state().label(), "closed");
}

#[test]
fn the_price_of_an_order_is_the_sum_over_its_items() {
    let items = vec![
        OrderItem::new(product("T1", "Tea", 250), 2),
        OrderItem::new(product("C1", "Coffee", 400), 3),
        OrderItem::new(product("R1", "Refund", 100), -1),
    ];
    let placed =
        Order::new(3, "alice".to_string(), items, "Street 1".to_string(), OrderState::Open);
    assert_eq!(placed.total_price(), 1600);
    assert_eq!(placed.clone(), placed);
}

#[test]
fn an_order_is_found_by_number_and_owner() {
    let orders = vec![order(0, "alice"), order(1, "bob"), order(5, "alice")];
    let mut book = OrderManager::from_parts(orders, 6).unwrap();
    assert_eq!(book.order_index(5, "alice"), Some(2));
    assert_eq!(book.order_index(1, "bob"), Some(1));
    assert_eq!(book.order_index(1, "alice"), None);
    assert_eq!(book.order_index(2, "alice"), None);
    assert_eq!(book.order_index(0, ""), None);

    assert!(book.find_order_mut(1, "alice").is_none());
    let found = book.find_order_mut(1, "bob").unwrap();
    assert!(found.close(OrderPayment::Cash));
    assert_eq!(book.orders()[1].state().label(), "closed");
    assert_eq!(book.orders()[0].state().label(), "open");
    assert_eq!(book.orders()[2].state().label(), "open");
    assert!(!book.find_order_mut(1, "bob").unwrap().close(OrderPayment::Cash));
}

#[test]
fn the_orders_of_a_user_are_picked_in_order() {
    let orders = vec![order(0, "alice"), order(1, "bob"), order(5, "alice")];
    let book = OrderManager::from_parts(orders, 6).unwrap();
    let of_alice: Vec<u64> = book.orders_for_user("alice").iter().map(|o| o.order_id()).collect();
    assert_eq!(of_alice, vec![0, 5]);
    let of_bob: Vec<u64> = book.orders_for_user("bob").iter().map(|o| o.order_id()).collect();
    assert_eq!(of_bob, vec![1]);
    assert!(book.orders_for_user("carol").is_empty());
}

#[test]
fn orders_can_be_changed_in_place() {
    let mut book = OrderManager::from_parts(vec![order(0, "alice"), order(1, "bob")], 2).unwrap();
    for each in book.orders_mut().iter_mut() {
        assert!(each.close(OrderPayment::Cash));
    }
    assert!(book.orders().iter().all(|o| o.state().label() == "closed"));
    assert_eq!(book.sequence_id(), 2);
}

#[test]
fn an_order_book_needs_rising_numbers_below_the_counter() {
    assert!(OrderManager::from_parts(Vec::new(), 0).is_some());
    assert!(OrderManager::from_parts(vec![order(0, "a"), order(1, "b")], 2).is_some());
    assert!(OrderManager::from_parts(vec![order(3, "a"), order(10, "b")], 100).is_some());
    assert_eq!(OrderManager::from_parts(vec![order(0, "a"), order(1, "b")], 1), None);
    assert_eq!(OrderManager::from_parts(vec![order(0, "a")], 0), None);
    assert_eq!(OrderManager::from_parts(vec![order(1, "a"), order(0, "b")], 2), None);
    assert_eq!(OrderManager::from_parts(vec![order(1, "a"), order(1, "b")], 2), None);
    let unordered = vec![order(0, "a"), order(2, "b"), order(1, "c")];
    assert_eq!(OrderManager::from_parts(unordered, 9), None);
}

#[test]
fn the_orders_can_be_copied_out() {
    let book = OrderManager::from_parts(vec![order(0, "alice"), order(1, "bob")], 2).unwrap();
    assert_eq!(&book.clone_orders()[..], book.orders());
}
