//! The read-only user record derived from the client address.

use vstd::prelude::*;

verus! {

/// A user as the service reports it: derived from the connection peer,
/// never touched by the dispatcher.
pub struct User {
    pub username: String,
    pub computer_name: String,
    pub ip: String,
}

/// The mathematical value of a [`User`].
pub ghost struct UserView {
    pub username: Seq<char>,
    pub computer_name: Seq<char>,
    pub ip: Seq<char>,
}

impl View for User {
    type V = UserView;

    open spec fn view(&self) -> UserView {
        UserView {
            username: self.username@,
            computer_name: self.computer_name@,
            ip: self.ip@,
        }
    }
}

impl Clone for User {
    fn clone(&self) -> (r: Self)
        ensures
            r@ == self@,
    {
        User {
            username: self.username.clone(),
            computer_name: self.computer_name.clone(),
            ip: self.ip.clone(),
        }
    }
}

} // verus!
