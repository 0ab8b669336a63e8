//! The credential held for the planning service.

use vstd::prelude::*;

verus! {

/// The session of the signed-in user: at most one token.
#[derive(Debug)]
pub struct Session {
    pub auth_token: Option<String>,
}

impl Session {
    /// A session without a token.
    pub fn new() -> (r: Session)
        ensures
            r.auth_token is None,
    {
        Session { auth_token: None }
    }

    /// Stores `token`, replacing the one held before.
    pub fn set_auth_token(&mut self, token: String)
        ensures
            final(self).auth_token == Some(token),
    {
        self.auth_token = Some(token);
    }

    /// Forgets the token.
    pub fn clear_auth_token(&mut self)
        ensures
            final(self).auth_token is None,
    {
        self.auth_token = None;
    }
}

impl Default for Session {
    fn default() -> (r: Session)
        ensures
            r.auth_token is None,
    {
        Session::new()
    }
}

} // verus!
