use corona::menu::{parse_session_command, parse_user_command, SessionCommand, UserCommand};

#[test]
fn a_visitor_can_register_log_in_save_and_quit() {
    assert_eq!(parse_session_command("register"), SessionCommand::Register);
    assert_eq!(parse_session_command("login"), SessionCommand::Login);
    assert_eq!(parse_session_command("save"), SessionCommand::Save);
    assert_eq!(parse_session_command("q"), SessionCommand::Quit);
    assert_eq!(parse_session_command("quit"), SessionCommand::Quit);
    assert_eq!(parse_session_command("exit"), SessionCommand::Quit);
    assert_eq!(parse_session_command(""), SessionCommand::Nothing);
}

#[test]
fn a_visitor_is_not_understood_otherwise() {
    assert_eq!(parse_session_command("logout"), SessionCommand::Unknown);
    assert_eq!(parse_session_command("Login"), SessionCommand::Unknown);
    assert_eq!(parse_session_command(" login"), SessionCommand::Unknown);
    assert_eq!(parse_session_command("pay"), SessionCommand::Unknown);
}

#[test]
fn every_user_can_shop() {
    for is_admin in [false, true] {
        let parse = |line: &str| parse_user_command(line, is_admin);
        assert_eq!(parse("product list"), UserCommand::ProductList);
        assert_eq!(parse("product ls"), UserCommand::ProductList);
        assert_eq!(parse("catalog"), UserCommand::ProductList);
        assert_eq!(parse("products"), UserCommand::ProductList);
        assert_eq!(parse("cart add"), UserCommand::CartAdd);
        assert_eq!(parse("add"), UserCommand::CartAdd);
        assert_eq!(parse("cart remove"), UserCommand::CartRemove);
        assert_eq!(parse("cart list"), UserCommand::CartList);
        assert_eq!(parse("cart ls"), UserCommand::CartList);
        assert_eq!(parse("cart"), UserCommand::CartList);
        assert_eq!(parse("order"), UserCommand::Checkout);
        assert_eq!(parse("checkout"), UserCommand::Checkout);
        assert_eq!(parse("pay"), UserCommand::Pay);
        assert_eq!(parse("q"), UserCommand::Logout);
        assert_eq!(parse("quit"), UserCommand::Logout);
        assert_eq!(parse("exit"), UserCommand::Logout);
        assert_eq!(parse("logout"), UserCommand::Logout);
        assert_eq!(parse(""), UserCommand::Nothing);
        assert_eq!(parse("remove"), UserCommand::Unknown);
        assert_eq!(parse("register"), UserCommand::Unknown);
        assert_eq!(parse("PAY"), UserCommand::Unknown);
    }
}

#[test]
fn only_the_administrator_changes_the_catalog() {
    assert_eq!(parse_user_command("product add", true), UserCommand::ProductAdd);
    assert_eq!(parse_user_command("product remove", true), UserCommand::ProductRemove);
    assert_eq!(parse_user_command("product add", false), UserCommand::Unknown);
    assert_eq!(parse_user_command("product remove", false), UserCommand::Unknown);
}

#[test]
fn the_administrator_sees_all_orders_and_others_their_own() {
    for line in ["order list", "order ls", "orders"] {
        assert_eq!(parse_user_command(line, true), UserCommand::AllOrders);
        assert_eq!(parse_user_command(line, false), UserCommand::OwnOrders);
    }
}
