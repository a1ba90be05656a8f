//! The commands of the shop's dialogue, read from the lines a user types.

use crate::text::same_text;
use vstd::prelude::*;

verus! {

/// What a visitor who is not logged in can ask for.
#[derive(Clone, Copy, Debug, PartialEq, Eq, Structural)]
pub enum SessionCommand {
    /// Open an account.
    Register,
    /// Log in.
    Login,
    /// Write the state of the shop to its file.
    Save,
    /// Leave.
    Quit,
    /// An empty line: nothing to do.
    Nothing,
    /// Anything else.
    Unknown,
}

/// What a user who is logged in can ask for.
#[derive(Clone, Copy, Debug, PartialEq, Eq, Structural)]
pub enum UserCommand {
    /// Add a product to the catalog. Only the administrator can.
    ProductAdd,
    /// Remove a product from the catalog. Only the administrator can.
    ProductRemove,
    /// Show the catalog.
    ProductList,
    /// Put a product into the cart.
    CartAdd,
    /// Take a product out of the cart.
    CartRemove,
    /// Show the cart.
    CartList,
    /// Show the orders of every user. Only the administrator gets this.
    AllOrders,
    /// Show the user's own orders.
    OwnOrders,
    /// Turn the cart into an order.
    Checkout,
    /// Pay an order.
    Pay,
    /// Log out.
    Logout,
    /// An empty line: nothing to do.
    Nothing,
    /// Anything else, and what only the administrator may ask for when
    /// someone else asks.
    Unknown,
}

/// The command that a line means to a visitor who is not logged in.
pub open spec fn session_command(line: Seq<char>) -> SessionCommand {
    if line == "register"@ {
        SessionCommand::Register
    } else if line == "login"@ {
        SessionCommand::Login
    } else if line == "save"@ {
        SessionCommand::Save
    } else if line == "q"@ || line == "quit"@ || line == "exit"@ {
        SessionCommand::Quit
    } else if line == ""@ {
        SessionCommand::Nothing
    } else {
        SessionCommand::Unknown
    }
}

/// The command that a line means to a user who is logged in, as the
/// administrator or not.
pub open spec fn user_command(line: Seq<char>, is_admin: bool) -> UserCommand {
    if line == "product add"@ && is_admin {
        UserCommand::ProductAdd
    } else if line == "product remove"@ && is_admin {
        UserCommand::ProductRemove
    } else if line == "product list"@ || line == "product ls"@ || line == "catalog"@ || line
        == "products"@ {
        UserCommand::ProductList
    } else if line == "cart add"@ || line == "add"@ {
        UserCommand::CartAdd
    } else if line == "cart remove"@ {
        UserCommand::CartRemove
    } else if line == "cart list"@ || line == "cart ls"@ || line == "cart"@ {
        UserCommand::CartList
    } else if line == "order list"@ || line == "order ls"@ || line == "orders"@ {
        if is_admin {
            UserCommand::AllOrders
        } else {
            UserCommand::OwnOrders
        }
    } else if line == "order"@ || line == "checkout"@ {
        UserCommand::Checkout
    } else if line == "pay"@ {
        UserCommand::Pay
    } else if line == "q"@ || line == "quit"@ || line == "exit"@ || line == "logout"@ {
        UserCommand::Logout
    } else if line == ""@ {
        UserCommand::Nothing
    } else {
        UserCommand::Unknown
    }
}

/// Reads the command of a visitor who is not logged in.
pub fn parse_session_command(line: &str) -> (r: SessionCommand)
    ensures
        r == session_command(line@),
{
    if same_text(line, "register") {
        SessionCommand::Register
    } else if same_text(line, "login") {
        SessionCommand::Login
    } else if same_text(line, "save") {
        SessionCommand::Save
    } else if same_text(line, "q") || same_text(line, "quit") || same_text(line, "exit") {
        SessionCommand::Quit
    } else if same_text(line, "") {
        SessionCommand::Nothing
    } else {
        SessionCommand::Unknown
    }
}

/// Reads the command of a user who is logged in.
pub fn parse_user_command(line: &str, is_admin: bool) -> (r: UserCommand)
    ensures
        r == user_command(line@, is_admin),
{
    if same_text(line, "product add") && is_admin {
        UserCommand::ProductAdd
    } else if same_text(line, "product remove") && is_admin {
        UserCommand::ProductRemove
    } else if same_text(line, "product list") || same_text(line, "product ls") || same_text(
        line,
        "catalog",
    ) || same_text(line, "products") {
        UserCommand::ProductList
    } else if same_text(line, "cart add") || same_text(line, "add") {
        UserCommand::CartAdd
    } else if same_text(line, "cart remove") {
        UserCommand::CartRemove
    } else if same_text(line, "cart list") || same_text(line, "cart ls") || same_text(
        line,
        "cart",
    ) {
        UserCommand::CartList
    } else if same_text(line, "order list") || same_text(line, "order ls") || same_text(
        line,
        "orders",
    ) {
        if is_admin {
            UserCommand::AllOrders
        } else {
            UserCommand::OwnOrders
        }
    } else if same_text(line, "order") || same_text(line, "checkout") {
        UserCommand::Checkout
    } else if same_text(line, "pay") {
        UserCommand::Pay
    } else if same_text(line, "q") || same_text(line, "quit") || same_text(line, "exit")
        || same_text(line, "logout") {
        UserCommand::Logout
    } else if same_text(line, "") {
        UserCommand::Nothing
    } else {
        UserCommand::Unknown
    }
}

} // verus!
