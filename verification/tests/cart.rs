use corona::cart::{clone_items, total_of, Cart, OrderItem};
use corona::product::Product;

fn product(code: &str, name: &str, unit_price: u32) -> Product {
    Product::new(code.to_string(), name.to_string(), unit_price).unwrap()
}

#[test]
fn a_new_cart_is_empty_and_costs_nothing() {
    let cart = Cart::new();
    assert!(cart.items().is_empty());
    assert_eq!(cart.total_cost(), 0);
}

#[test]
fn adding_the_same_code_merges_into_one_item() {
    let mut cart = Cart::new();
    let tea = product("T1", "Tea", 250);
    assert!(cart.add_item(&tea, 2));
    assert!(cart.add_item(&tea, 3));
    assert!(cart.add_item(&tea, -1));
    assert_eq!(cart.items().len(), 1);
    assert_eq!(cart.items()[0].code(), "T1");
    assert_eq!(cart.items()[0].quantity(), 4);
    assert_eq!(cart.total_cost(), 1000);
}

#[test]
fn different_codes_get_items_of_their_own_in_the_order_of_adding() {
    let mut cart = Cart::new();
    assert!(cart.add_item(&product("T1", "Tea", 250), 2));
    assert!(cart.add_item(&product("C1", "Coffee", 400), 1));
    assert!(cart.add_item(&product("T1", "Tea", 250), 5));
    let codes: Vec<&str> = cart.items().iter().map(|item| item.code()).collect();
    assert_eq!(codes, vec!["T1", "C1"]);
    assert_eq!(cart.items()[0].quantity(), 7);
    assert_eq!(cart.items()[1].quantity(), 1);
}

#[test]
fn an_item_keeps_the_product_as_it_was_first_added() {
    let mut cart = Cart::new();
    assert!(cart.add_item(&product("T1", "Tea", 250), 1));
    assert!(cart.add_item(&product("T1", "Green tea", 999), 1));
    assert_eq!(cart.items().len(), 1);
    assert_eq!(cart.items()[0].name(), "Tea");
    assert_eq!(cart.items()[0].product().unit_price(), 250);
    assert_eq!(cart.items()[0].quantity(), 2);
    assert_eq!(cart.total_cost(), 500);
}

#[test]
fn zero_and_negative_quantities_are_taken() {
    let mut cart = Cart::new();
    let tea = product("T1", "Tea", 250);
    assert!(cart.add_item(&tea, 0));
    assert_eq!(cart.items().len(), 1);
    assert_eq!(cart.items()[0].quantity(), 0);
    assert!(cart.add_item(&tea, -3));
    assert_eq!(cart.items()[0].quantity(), -3);
    assert_eq!(cart.total_cost(), -750);
}

#[test]
fn a_quantity_that_cannot_be_recorded_is_refused_and_changes_nothing() {
    let mut cart = Cart::new();
    let tea = product("T1", "Tea", 250);
    assert!(cart.add_item(&tea, i32::MAX));
    assert!(!cart.add_item(&tea, 1));
    assert_eq!(cart.items().len(), 1);
    assert_eq!(cart.items()[0].quantity(), i32::MAX);
    assert!(cart.add_item(&tea, -1));
    assert_eq!(cart.items()[0].quantity(), i32::MAX - 1);

    let mut low = Cart::new();
    assert!(low.add_item(&tea, i32::MIN));
    assert!(!low.add_item(&tea, -1));
    assert_eq!(low.items()[0].quantity(), i32::MIN);
}

#[test]
fn removing_takes_the_item_out() {
    let mut cart = Cart::new();
    assert!(cart.add_item(&product("T1", "Tea", 250), 2));
    assert!(cart.add_item(&product("C1", "Coffee", 400), 1));
    assert!(cart.add_item(&product("M1", "Milk", 120), 3));
    cart.remove_item("C1");
    let codes: Vec<&str> = cart.items().iter().map(|item| item.code()).collect();
    assert_eq!(codes, vec!["T1", "M1"]);
}

#[test]
fn removing_a_code_that_is_not_there_changes_nothing() {
    let mut cart = Cart::new();
    assert!(cart.add_item(&product("T1", "Tea", 250), 2));
    cart.remove_item("nothing");
    cart.remove_item("");
    cart.remove_item("t1");
    assert_eq!(cart.items().len(), 1);
    assert_eq!(cart.items()[0].quantity(), 2);
    let mut empty = Cart::new();
    empty.remove_item("T1");
    assert!(empty.items().is_empty());
}

#[test]
fn adding_after_removing_starts_afresh() {
    let mut cart = Cart::new();
    let tea = product("T1", "Tea", 250);
    assert!(cart.add_item(&tea, 40));
    assert!(cart.add_item(&product("C1", "Coffee", 400), 1));
    cart.remove_item("T1");
    assert!(cart.add_item(&tea, 1));
    let codes: Vec<&str> = cart.items().iter().map(|item| item.code()).collect();
    assert_eq!(codes, vec!["C1", "T1"]);
    assert_eq!(cart.items()[1].quantity(), 1);
}

#[test]
fn adding_after_removing_works_even_at_the_limit() {
    let mut cart = Cart::new();
    let tea = product("T1", "Tea", 250);
    assert!(cart.add_item(&tea, i32::MAX));
    cart.remove_item("T1");
    assert!(cart.add_item(&tea, i32::MAX));
    assert_eq!(cart.items()[0].quantity(), i32::MAX);
}

#[test]
fn the_total_is_the_sum_of_quantity_times_price() {
    let mut cart = Cart::new();
    assert!(cart.add_item(&product("T1", "Tea", 250), 2));
    assert!(cart.add_item(&product("C1", "Coffee", 400), 3));
    assert!(cart.add_item(&product("F1", "Free", 0), 100));
    assert_eq!(cart.items()[0].total_price(), 500);
    assert_eq!(cart.items()[1].total_price(), 1200);
    assert_eq!(cart.items()[2].total_price(), 0);
    assert_eq!(cart.total_cost(), 1700);
}

#[test]
fn the_total_is_exact_for_the_largest_values() {
    let dear = product("D", "Dear", u32::MAX);
    let items = vec![
        OrderItem::new(dear.clone(), i32::MAX),
        OrderItem::new(dear.clone(), i32::MAX),
        OrderItem::new(dear.clone(), i32::MIN),
    ];
    let most = i32::MAX as i128 * u32::MAX as i128;
    let least = i32::MIN as i128 * u32::MAX as i128;
    assert_eq!(items[0].total_price() as i128, most);
    assert_eq!(items[2].total_price() as i128, least);
    assert_eq!(total_of(&items), most + most + least);
    assert_eq!(total_of(&items), 9223372026117357570);
    assert_eq!(total_of(&items[1..]), -(u32::MAX as i128));
}

#[test]
fn an_item_reports_its_parts() {
    let item = OrderItem::new(product("T1", "Tea", 250), 4);
    assert_eq!(item.code(), "T1");
    assert_eq!(item.name(), "Tea");
    assert_eq!(item.quantity(), 4);
    assert_eq!(item.product().unit_price(), 250);
    assert_eq!(item.total_price(), 1000);
    assert_eq!(item.clone(), item);
}

#[test]
fn a_cart_can_be_made_of_items_with_distinct_codes() {
    let items = vec![
        OrderItem::new(product("T1", "Tea", 250), 2),
        OrderItem::new(product("C1", "Coffee", 400), 1),
    ];
    let cart = Cart::from_items(clone_items(&items)).unwrap();
    assert_eq!(cart.items(), &items[..]);
    assert_eq!(Cart::from_items(Vec::new()).unwrap(), Cart::new());
}

#[test]
fn a_cart_cannot_be_made_of_items_that_share_a_code() {
    let items = vec![
        OrderItem::new(product("T1", "Tea", 250), 2),
        OrderItem::new(product("C1", "Coffee", 400), 1),
        OrderItem::new(product("T1", "Other tea", 300), 1),
    ];
    assert_eq!(Cart::from_items(items), None);
}

#[test]
fn taking_the_items_leaves_the_cart_empty() {
    let mut cart = Cart::new();
    assert!(cart.add_item(&product("T1", "Tea", 250), 2));
    let copy = cart.clone();
    let items = cart.take_items();
    assert_eq!(items.len(), 1);
    assert_eq!(&items[..], copy.items());
    assert!(cart.items().is_empty());
}
