//! The per-request context: the session token presented and the user it
//! belongs to.

use crate::models::User;
use vstd::prelude::*;

verus! {

/// What a request knows about who is asking.
#[derive(Debug, PartialEq, Eq)]
pub struct Context {
    pub token: Option<String>,
    pub current_user: Option<User>,
}

impl Clone for Context {
    fn clone(&self) -> (copy: Self)
        ensures
            copy.token == self.token,
            copy.current_user is Some <==> self.current_user is Some,
            copy.current_user matches Some(c) ==> {
                let u = self.current_user->0;
                &&& c.id == u.id
                &&& c.username == u.username
                &&& c.iterations == u.iterations
                &&& c.salt@ == u.salt@
                &&& c.credential@ == u.credential@
            },
    {
        let token = match &self.token {
            Some(t) => Some(t.clone()),
            None => None,
        };
        let current_user = match &self.current_user {
            Some(u) => Some(u.clone()),
            None => None,
        };
        Context { token, current_user }
    }
}

impl Context {
    /// A context with no token and no user.
    pub fn new() -> (context: Context)
        ensures
            context.token is None,
            context.current_user is None,
    {
        Context { token: None, current_user: None }
    }

    /// This context with `token` as the session token; the user is kept.
    pub fn with_auth(self, token: String) -> (context: Context)
        ensures
            context.token == Some(token),
            context.current_user == self.current_user,
    {
        let mut context = self;
        context.token = Some(token);
        context
    }

    /// This context with `user` as the user; the token is kept.
    pub fn with_user(self, user: Option<User>) -> (context: Context)
        ensures
            context.current_user == user,
            context.token == self.token,
    {
        let mut context = self;
        context.current_user = user;
        context
    }

    /// The user of this request, if any.
    pub fn current_user(&self) -> (user: Option<&User>)
        ensures
            user is Some <==> self.current_user is Some,
            user matches Some(u) ==> *u == self.current_user->0,
    {
        match &self.current_user {
            Some(v) => Some(v),
            None => None,
        }
    }
}

} // verus!
