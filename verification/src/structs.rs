//! A user's record, and the ways to make one and to change one.

use vstd::prelude::*;

verus! {

/// What is known of a user.
pub struct User {
    pub active: bool,
    pub username: String,
    pub email: String,
    pub sign_in_count: u64,
}

/// The record of a new user: active, and signed in once.
pub fn build_user(email: String, username: String) -> (user: User)
    ensures
        user.active,
        user.username == username,
        user.email == email,
        user.sign_in_count == 1,
{
    User { active: true, username, email, sign_in_count: 1 }
}

impl User {
    /// Counts one more sign-in.
    ///
    /// A counter at `u64::MAX` cannot count further, so it is left out.
    pub fn record_sign_in(&mut self)
        requires
            old(self).sign_in_count < u64::MAX,
        ensures
            final(self).sign_in_count == old(self).sign_in_count + 1,
            final(self).active == old(self).active,
            final(self).username == old(self).username,
            final(self).email == old(self).email,
    {
        self.sign_in_count += 1;
    }
}

} // verus!
