//! What belongs to a user.

use vstd::prelude::*;

verus! {

/// How long the token and the session of a user last, in seconds; `None`
/// where they last for ever.
#[derive(Clone, Copy, Debug, PartialEq, Eq, Structural)]
pub struct UserDuration {
    pub token: Option<u64>,
    pub session: Option<u64>,
}

/// What a statement says of the password of a user.
#[derive(Clone, Debug, PartialEq, Eq)]
pub enum UserSecret {
    /// Nothing.
    Unset,
    /// The password, which is to be hashed before it is stored.
    Password(String),
    /// The hash of the password.
    Passhash(String),
}

impl UserDuration {
    /// The durations of a user for whom none are said: a token lasts for an
    /// hour, a session for ever.
    pub fn default() -> (r: UserDuration)
        ensures
            r == (UserDuration { token: Some(3600), session: None }),
    {
        UserDuration { token: Some(3600), session: None }
    }
}

} // verus!
