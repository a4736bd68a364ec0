//! `DEFINE USER`.

use vstd::prelude::*;
use crate::expr::base::Base;
use crate::expr::user::{UserDuration, UserSecret};

verus! {

/// The definition of a user.
#[derive(Clone, Debug, PartialEq, Eq)]
pub struct DefineUserStatement {
    pub name: String,
    pub base: Base,
    pub secret: UserSecret,
    pub roles: Vec<String>,
    pub duration: UserDuration,
    pub comment: Option<String>,
    pub if_not_exists: bool,
    pub overwrite: bool,
}

impl DefineUserStatement {
    /// The definition of the user `name` at the level `base`, with these
    /// roles and durations and nothing else said.
    pub fn from_parsed_values(name: String, base: Base, roles: Vec<String>, duration: UserDuration) -> (r:
        Self)
        ensures
            r == (DefineUserStatement {
                name,
                base,
                secret: UserSecret::Unset,
                roles,
                duration,
                comment: None,
                if_not_exists: false,
                overwrite: false,
            }),
    {
        DefineUserStatement {
            name,
            base,
            secret: UserSecret::Unset,
            roles,
            duration,
            comment: None,
            if_not_exists: false,
            overwrite: false,
        }
    }

    /// Sets the password of the user.
    pub fn set_password(&mut self, password: &str)
        ensures
            final(self).secret matches UserSecret::Password(p) && p@ == password@,
            *final(self) == (DefineUserStatement { secret: final(self).secret, ..*old(self) }),
    {
        self.secret = UserSecret::Password(password.to_owned());
    }

    /// Sets the hash of the password of the user.
    pub fn set_passhash(&mut self, passhash: String)
        ensures
            *final(self) == (DefineUserStatement {
                secret: UserSecret::Passhash(passhash),
                ..*old(self)
            }),
    {
        self.secret = UserSecret::Passhash(passhash);
    }

    /// Sets how long a token of the user lasts.
    pub fn set_token_duration(&mut self, duration: Option<u64>)
        ensures
            *final(self) == (DefineUserStatement {
                duration: UserDuration { token: duration, session: old(self).duration.session },
                ..*old(self)
            }),
    {
        self.duration.token = duration;
    }

    /// Sets how long a session of the user lasts.
    pub fn set_session_duration(&mut self, duration: Option<u64>)
        ensures
            *final(self) == (DefineUserStatement {
                duration: UserDuration { token: old(self).duration.token, session: duration },
                ..*old(self)
            }),
    {
        self.duration.session = duration;
    }
}

} // verus!
