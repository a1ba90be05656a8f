use corona::catalog::Catalog;
use corona::product::Product;

fn product(code: &str, name: &str, unit_price: u32) -> Product {
    Product::new(code.to_string(), name.to_string(), unit_price).unwrap()
}

fn codes(catalog: &Catalog) -> Vec<&str> {
    catalog.products().iter().map(|p| p.code()).collect()
}

#[test]
fn a_product_reports_its_parts() {
    let tea = product("T1", "Tea", 250);
    assert_eq!(tea.code(), "T1");
    assert_eq!(tea.name(), "Tea");
    assert_eq!(tea.unit_price(), 250);
    assert_eq!(tea.clone(), tea);
}

#[test]
fn a_product_needs_a_code() {
    assert_eq!(Product::new(String::new(), "Tea".to_string(), 250), None);
    assert!(Product::new(" ".to_string(), String::new(), 0).is_some());
}

#[test]
fn products_are_added_at_the_end() {
    let mut catalog = Catalog::new();
    assert!(catalog.products().is_empty());
    catalog.add_product(product("T1", "Tea", 250));
    catalog.add_product(product("C1", "Coffee", 400));
    assert_eq!(codes(&catalog), vec!["T1", "C1"]);
    assert_eq!(catalog.products()[1].name(), "Coffee");
}

#[test]
fn a_code_can_be_added_twice() {
    let mut catalog = Catalog::new();
    catalog.add_product(product("T1", "Tea", 250));
    catalog.add_product(product("T1", "Tea again", 300));
    assert_eq!(codes(&catalog), vec!["T1", "T1"]);
}

#[test]
fn removing_a_code_removes_every_product_that_has_it() {
    let mut catalog = Catalog::new();
    catalog.add_product(product("T1", "Tea", 250));
    catalog.add_product(product("C1", "Coffee", 400));
    catalog.add_product(product("T1", "Tea again", 300));
    catalog.add_product(product("M1", "Milk", 120));
    catalog.remove_product("T1");
    assert_eq!(codes(&catalog), vec!["C1", "M1"]);
}

#[test]
fn removing_an_unknown_code_changes_nothing() {
    let mut catalog = Catalog::new();
    catalog.add_product(product("T1", "Tea", 250));
    catalog.remove_product("T2");
    catalog.remove_product("");
    assert_eq!(codes(&catalog), vec!["T1"]);
    let mut empty = Catalog::new();
    empty.remove_product("T1");
    assert!(empty.products().is_empty());
}

#[test]
fn products_are_selected_by_numbers_from_one() {
    let mut catalog = Catalog::new();
    catalog.add_product(product("T1", "Tea", 250));
    catalog.add_product(product("C1", "Coffee", 400));
    assert_eq!(catalog.select(1).map(|p| p.code()), Some("T1"));
    assert_eq!(catalog.select(2).map(|p| p.code()), Some("C1"));
    assert_eq!(catalog.select(0), None);
    assert_eq!(catalog.select(3), None);
    assert_eq!(catalog.select(usize::MAX), None);
    assert_eq!(Catalog::new().select(1), None);
}

#[test]
fn a_catalog_can_be_made_of_products_and_copied_out() {
    let catalog = Catalog::from_products(vec![product("T1", "Tea", 250), product("T1", "Tea", 1)]);
    assert_eq!(codes(&catalog), vec!["T1", "T1"]);
    assert_eq!(&catalog.clone_products()[..], catalog.products());
}
