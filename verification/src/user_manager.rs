//! The registry of users: registration and login.

use crate::cart::Cart;
use crate::credential::{hash_password, password_matches, verdict};
use crate::find::{first_match, lemma_first_match, lemma_first_match_is};
use crate::text::same_text;
use crate::user::{user_views, User, UserView};
use vstd::prelude::*;

verus! {

/// Whether some user has the given username.
pub open spec fn taken(users: Seq<UserView>, username: Seq<char>) -> bool {
    exists|i: int| 0 <= i < users.len() && (#[trigger] users[i]).username == username
}

/// No two users have the same username.
pub open spec fn distinct_usernames(users: Seq<UserView>) -> bool {
    forall|i: int, j: int|
        0 <= i < j < users.len() ==> (#[trigger] users[i]).username != (
        #[trigger] users[j]).username
}

/// Whether the user is let in with the given username and password: the
/// username is the user's own and the password matches the stored hash.
pub open spec fn admits(user: UserView, username: Seq<char>, password: Seq<char>) -> bool {
    user.username == username && verdict(password, user.password_hash) == Some(true)
}

/// The condition that a user is let in with the given username and
/// password.
pub open spec fn lets_in(username: Seq<char>, password: Seq<char>) -> spec_fn(UserView) -> bool {
    |user: UserView| admits(user, username, password)
}

/// The first position whose user is let in with the given username and
/// password, or the number of users if none is.
pub open spec fn login_position(
    users: Seq<UserView>,
    username: Seq<char>,
    password: Seq<char>,
) -> int {
    first_match(users, lets_in(username, password))
}

/// A user as registration makes it: the given name, hash and email address,
/// and an empty cart.
pub open spec fn registered(
    username: Seq<char>,
    password_hash: Seq<char>,
    email: Seq<char>,
) -> UserView {
    UserView { username, password_hash, email, cart: Seq::empty() }
}

/// The registry of users. It hands out no two users with the same username
/// as long as it is filled by registration alone.
#[derive(Debug, PartialEq, Eq)]
pub struct UserManager {
    users: Vec<User>,
}

impl View for UserManager {
    type V = Seq<UserView>;

    closed spec fn view(&self) -> Seq<UserView> {
        user_views(self.users@)
    }
}

impl Default for UserManager {
    fn default() -> (r: Self)
        ensures
            r@ == Seq::<UserView>::empty(),
    {
        UserManager::new()
    }
}

impl UserManager {
    /// A registry without users.
    pub fn new() -> (r: Self)
        ensures
            r@ == Seq::<UserView>::empty(),
            distinct_usernames(r@),
    {
        let r = UserManager { users: Vec::new() };
        r
    }

    /// A registry of the given users, if no two of them have the same
    /// username.
    pub fn from_users(users: Vec<User>) -> (r: Option<Self>)
        ensures
            r is Some <==> distinct_usernames(user_views(users@)),
            r is Some ==> r.unwrap()@ == user_views(users@),
    {
        let ghost views = user_views(users@);
        let mut j: usize = 0;
        while j < users.len()
            invariant
                j <= users.len(),
                views == user_views(users@),
                distinct_usernames(views.take(j as int)),
            decreases users.len() - j,
        {
            let mut i: usize = 0;
            while i < j
                invariant
                    i <= j < users.len(),
                    views == user_views(users@),
                    forall|k: int|
                        0 <= k < i ==> (#[trigger] views[k]).username
                            != views[j as int].username,
                decreases j - i,
            {
                if same_text(users[i].username(), users[j].username()) {
                    proof {
                        assert(views[i as int].username == views[j as int].username);
                    }
                    return None;
                }
                i += 1;
            }
            j += 1;
        }
        proof {
            assert(views.take(j as int) =~= views);
        }
        Some(UserManager { users })
    }

    /// A copy of the users, in order.
    pub fn clone_users(&self) -> (r: Vec<User>)
        ensures
            user_views(r@) == self@,
    {
        let mut copy: Vec<User> = Vec::new();
        let mut i: usize = 0;
        while i < self.users.len()
            invariant
                i <= self.users.len(),
                user_views(copy@) == self@.take(i as int),
            decreases self.users.len() - i,
        {
            let one = self.users[i].clone();
            copy.push(one);
            proof {
                assert(self@.take(i as int + 1) =~= self@.take(i as int).push(
                    self.users@[i as int]@,
                ));
            }
            i += 1;
        }
        copy
    }

    /// The users, in the order in which they registered.
    pub fn users(&self) -> (r: &[User])
        ensures
            user_views(r@) == self@,
    {
        self.users.as_slice()
    }

    /// Whether the username is taken.
    pub fn is_taken(&self, username: &str) -> (r: bool)
        ensures
            r == taken(self@, username@),
    {
        let mut i: usize = 0;
        while i < self.users.len()
            invariant
                i <= self.users.len(),
                forall|j: int| 0 <= j < i ==> (#[trigger] self@[j]).username != username@,
            decreases self.users.len() - i,
        {
            if same_text(self.users[i].username(), username) {
                assert(self@[i as int].username == username@);
                return true;
            }
            i += 1;
        }
        false
    }

    /// Registers a user whose password was already hashed, or was not: with
    /// `None` for the hash nobody is registered. Nobody is registered either
    /// when the username is taken. The new user starts with an empty cart.
    ///
    /// Returns whether the user was registered; if not, nothing changes.
    pub fn enroll(&mut self, username: String, password_hash: Option<String>, email: String) -> (r:
        bool)
        ensures
            r == (!taken(old(self)@, username@) && password_hash is Some),
            r ==> final(self)@ == old(self)@.push(
                registered(username@, password_hash.unwrap()@, email@),
            ),
            !r ==> final(self)@ == old(self)@,
            distinct_usernames(old(self)@) ==> distinct_usernames(final(self)@),
    {
        if self.is_taken(username.as_str()) {
            return false;
        }
        match password_hash {
            None => false,
            Some(hash) => {
                let ghost before = self@;
                let user = User::new(username, hash, email, Cart::new());
                self.users.push(user);
                proof {
                    lemma_push_distinct(before, self@.last());
                }
                true
            },
        }
    }

    /// Registers a user with the given username, password and email address.
    /// The password is hashed with a fresh salt, and only the hash is kept.
    ///
    /// Returns whether the user was registered. A username that is taken is
    /// always refused. Otherwise the user is registered unless hashing fails,
    /// and then goes to the end with an empty cart and a hash that the
    /// password matches. When the answer is no, nothing changes.
    pub fn add_user(&mut self, username: String, password: String, email: String) -> (r: bool)
        ensures
            taken(old(self)@, username@) ==> !r,
            r ==> final(self)@.len() == old(self)@.len() + 1
                && final(self)@.drop_last() == old(self)@
                && final(self)@.last() == registered(
                username@,
                final(self)@.last().password_hash,
                email@,
            ) && verdict(password@, final(self)@.last().password_hash) == Some(true),
            !r ==> final(self)@ == old(self)@,
            distinct_usernames(old(self)@) ==> distinct_usernames(final(self)@),
    {
        if self.is_taken(username.as_str()) {
            return false;
        }
        let hash = hash_password(password.as_str());
        let r = self.enroll(username, hash, email);
        r
    }

    /// Where the first user stands who is let in with the username and the
    /// password, if there is one.
    pub fn login_index(&self, username: &str, password: &str) -> (r: Option<usize>)
        ensures
            match r {
                Some(at) => at == login_position(self@, username@, password@) && at < self@.len(),
                None => login_position(self@, username@, password@) == self@.len(),
            },
    {
        let mut i: usize = 0;
        while i < self.users.len()
            invariant
                i <= self.users.len(),
                forall|j: int| 0 <= j < i ==> !admits(#[trigger] self@[j], username@, password@),
            decreases self.users.len() - i,
        {
            if same_text(self.users[i].username(), username) && password_matches(
                password,
                self.users[i].password_hash(),
            ) {
                proof {
                    lemma_first_match_is(self@, lets_in(username@, password@), i as int);
                }
                return Some(i);
            }
            i += 1;
        }
        proof {
            lemma_first_match_is(self@, lets_in(username@, password@), i as int);
        }
        None
    }

    /// Logs a user in: finds the first user with the given username whose
    /// stored hash the password matches. A wrong password and an unknown
    /// username end alike, in `None`.
    pub fn user_login(&self, username: &str, password: &str) -> (r: Option<&User>)
        ensures
            match r {
                Some(user) => login_position(self@, username@, password@) < self@.len()
                    && user@ == self@[login_position(self@, username@, password@)],
                None => login_position(self@, username@, password@) == self@.len(),
            },
    {
        match self.login_index(username, password) {
            Some(at) => Some(&self.users[at]),
            None => None,
        }
    }

    /// Logs a user in, as `user_login` does, and hands the user out for
    /// change. What the caller makes of the user takes the user's place in
    /// the registry; nothing else changes.
    pub fn user_login_mut(&mut self, username: String, password: String) -> (r: Option<&mut User>)
        ensures
            match r {
                Some(user) => login_position(old(self)@, username@, password@) < old(self)@.len()
                    && user@ == old(self)@[login_position(old(self)@, username@, password@)]
                    && final(self)@ == old(self)@.update(
                    login_position(old(self)@, username@, password@),
                    final(user)@,
                ),
                None => login_position(old(self)@, username@, password@) == old(self)@.len()
                    && final(self)@ == old(self)@,
            },
    {
        match self.login_index(username.as_str(), password.as_str()) {
            Some(at) => {
                let user = &mut self.users[at];
                Some(user)
            },
            None => None,
        }
    }
}

/// A user whose username is not taken can join users with distinct
/// usernames, and the usernames stay distinct.
pub proof fn lemma_push_distinct(users: Seq<UserView>, user: UserView)
    requires
        !taken(users, user.username),
    ensures
        distinct_usernames(users) ==> distinct_usernames(users.push(user)),
{
}

/// How many users have the given username.
pub open spec fn occurrences(users: Seq<UserView>, username: Seq<char>) -> nat {
    users.filter(|user: UserView| user.username == username).len()
}

/// Among users with distinct usernames, a username that is taken belongs to
/// exactly one user, and one that is not taken to none.
pub proof fn lemma_occurrences(users: Seq<UserView>, username: Seq<char>)
    requires
        distinct_usernames(users),
    ensures
        occurrences(users, username) == if taken(users, username) { 1nat } else { 0nat },
    decreases users.len(),
{
    reveal(Seq::filter);
    if users.len() > 0 {
        let front = users.drop_last();
        let last = users.last();
        lemma_occurrences(front, username);
        if taken(front, username) {
            // Who has the name in the front has it among all the users.
            let k = choose|k: int|
                0 <= k < front.len() && (#[trigger] front[k]).username == username;
            assert(front[k] == users[k]);
        }
        if taken(users, username) && last.username != username {
            // Who has the name is not the last user, so stands in the front.
            let k = choose|k: int|
                0 <= k < users.len() && (#[trigger] users[k]).username == username;
            assert(front[k] == users[k]);
        }
    }
}

/// A second registration under a username does not go through: once a user
/// has joined, the username is taken, so that another user of that name is
/// refused; and if the usernames were distinct and the name was free, the
/// name now belongs to exactly one user.
pub proof fn lemma_registered_once(users: Seq<UserView>, user: UserView)
    ensures
        taken(users.push(user), user.username),
        distinct_usernames(users) && !taken(users, user.username) ==> occurrences(
            users.push(user),
            user.username,
        ) == 1,
{
    let after = users.push(user);
    assert(after[users.len() as int].username == user.username);
    if distinct_usernames(users) && !taken(users, user.username) {
        lemma_push_distinct(users, user);
        lemma_occurrences(after, user.username);
    }
}

/// A user who has just joined under a free username is let in with the
/// password that the stored hash matches, and it is that user who is let in.
pub proof fn lemma_registered_logs_in(users: Seq<UserView>, user: UserView, password: Seq<char>)
    requires
        !taken(users, user.username),
        verdict(password, user.password_hash) == Some(true),
    ensures
        login_position(users.push(user), user.username, password) == users.len(),
{
    let after = users.push(user);
    lemma_first_match_is(after, lets_in(user.username, password), users.len() as int);
}

/// Nobody is let in exactly when no user has both the username and a hash
/// that the password matches. An unknown username and a wrong password both
/// come to this, and end alike.
pub proof fn lemma_login_refused(users: Seq<UserView>, username: Seq<char>, password: Seq<char>)
    ensures
        login_position(users, username, password) == users.len() <==> forall|i: int|
            0 <= i < users.len() ==> !admits(#[trigger] users[i], username, password),
        !taken(users, username) ==> login_position(users, username, password) == users.len(),
{
    lemma_first_match(users, lets_in(username, password));
    if forall|i: int| 0 <= i < users.len() ==> !admits(#[trigger] users[i], username, password) {
        lemma_first_match_is(users, lets_in(username, password), users.len() as int);
    }
}

/// Changing a user without changing the username keeps the usernames
/// distinct.
pub proof fn lemma_update_distinct(users: Seq<UserView>, at: int, user: UserView)
    requires
        distinct_usernames(users),
        0 <= at < users.len(),
        user.username == users[at].username,
    ensures
        distinct_usernames(users.update(at, user)),
{
}

} // verus!
