//! A small shop: users register, fill a cart from the catalog, check out
//! into an order, and pay the order.
//!
//! Every operation states what it returns and changes over a plain
//! mathematical view of the values involved, and is proved to do so. None
//! asks anything of its caller, and none panics: what cannot be done is
//! refused through the result, and a refused operation changes nothing.
//! The two calls into the bcrypt crate are taken on trust: `credential` says
//! what is assumed of them.
//!
//! Money and quantities are whole numbers. A price counts the smallest unit
//! of the currency, a quantity the smallest amount that is sold; a cost is
//! a quantity times a price. Totals are exact.
//!
//! The modules, from the leaves up:
//! - `text`, `find`: comparing texts, finding the first match in a sequence;
//! - `product`, `catalog`: what is on offer;
//! - `cart`: order items and the cart that merges them by product code;
//! - `credential`, `user`, `user_manager`: accounts, passwords and login;
//! - `payment`, `order`, `order_manager`: orders, their numbers and their
//!   one step from open to closed;
//! - `application`: the shop as a whole and its snapshot;
//! - `input`, `menu`: numbers and commands read from typed lines.

pub mod application;
pub mod cart;
pub mod catalog;
pub mod credential;
pub mod find;
pub mod input;
pub mod menu;
pub mod order;
pub mod order_manager;
pub mod payment;
pub mod product;
pub mod text;
pub mod user;
pub mod user_manager;
