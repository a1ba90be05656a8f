//! Users: who shops here.

use crate::cart::{Cart, ItemView};
use crate::text::same_text;
use vstd::prelude::*;

verus! {

/// A user as plain mathematical values.
pub struct UserView {
    pub username: Seq<char>,
    pub password_hash: Seq<char>,
    pub email: Seq<char>,
    pub cart: Seq<ItemView>,
}

/// An account: a username, the hash of the password, an email address, and
/// the one cart that belongs to the user.
#[derive(Debug, PartialEq, Eq)]
pub struct User {
    username: String,
    password_hash: String,
    email: String,
    cart: Cart,
}

impl View for User {
    type V = UserView;

    closed spec fn view(&self) -> UserView {
        UserView {
            username: self.username@,
            password_hash: self.password_hash@,
            email: self.email@,
            cart: self.cart@,
        }
    }
}

impl Clone for User {
    fn clone(&self) -> (r: Self)
        ensures
            r@ == self@,
    {
        User {
            username: self.username.clone(),
            password_hash: self.password_hash.clone(),
            email: self.email.clone(),
            cart: self.cart.clone(),
        }
    }
}

impl User {
    /// A user with the given name, password hash, email address and cart.
    pub fn new(username: String, password_hash: String, email: String, cart: Cart) -> (r: Self)
        ensures
            r@ == (UserView {
                username: username@,
                password_hash: password_hash@,
                email: email@,
                cart: cart@,
            }),
    {
        User { username, password_hash, email, cart }
    }

    /// The name under which the user is registered.
    pub fn username(&self) -> (r: &str)
        ensures
            r@ == self@.username,
    {
        self.username.as_str()
    }

    /// The hash of the user's password.
    pub fn password_hash(&self) -> (r: &str)
        ensures
            r@ == self@.password_hash,
    {
        self.password_hash.as_str()
    }

    /// The user's email address.
    pub fn email(&self) -> (r: &str)
        ensures
            r@ == self@.email,
    {
        self.email.as_str()
    }

    /// The user's cart.
    pub fn cart(&self) -> (r: &Cart)
        ensures
            r@ == self@.cart,
    {
        &self.cart
    }

    /// The user's cart, to change it. Nothing else of the user changes.
    pub fn cart_mut(&mut self) -> (r: &mut Cart)
        ensures
            r@ == old(self)@.cart,
            final(self)@ == (UserView { cart: final(r)@, ..old(self)@ }),
    {
        &mut self.cart
    }

    /// Whether the user is the administrator: the one whose username is
    /// `admin`.
    pub fn is_admin(&self) -> (r: bool)
        ensures
            r == (self@.username == "admin"@),
    {
        same_text(self.username.as_str(), "admin")
    }
}

/// The views of a sequence of users, in the same order.
pub open spec fn user_views(users: Seq<User>) -> Seq<UserView> {
    Seq::new(users.len(), |i: int| users[i]@)
}

} // verus!
