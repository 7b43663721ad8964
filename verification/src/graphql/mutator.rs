//! The root mutation object: who may create a project, and logging in.

use super::models::GraphqlError;
use crate::context::Context;
use crate::crypto::pbkdf2_hmac_sha256;
use crate::models::users::lemma_accepts_is_pbkdf2;
use crate::models::{self, NewProject};
use vstd::utf8::encode_utf8;
use vstd::prelude::*;

verus! {

/// The root mutation object of the schema.
#[derive(Debug, PartialEq, Eq)]
pub struct MutatorHolder;

/// The message of a failed login; the same whether the user is missing or the
/// password is wrong.
pub open spec fn is_login_failure(e: GraphqlError) -> bool {
    &&& e.message@ == "No user found or invalid password"@
    &&& e.error@ == "no user found"@
}

/// A failed login is exactly the error "No user found or invalid password"
/// with "no user found" as its `error` value.
pub proof fn lemma_login_failure_is_exact(e: GraphqlError)
    ensures
        is_login_failure(e) <==> (e.message@ == "No user found or invalid password"@ && e.error@
            == "no user found"@),
{
}

impl MutatorHolder {
    /// The project to store for the `createProject` mutation: owned by the
    /// user of the request, which is required.
    pub fn create_project(context: &Context, slug: String, name: String) -> (project: Result<NewProject, GraphqlError>)
        ensures
            context.current_user matches Some(u) ==> (project matches Ok(p) && p.slug == slug && p.name == name
                && p.owner_id == u.id),
            context.current_user is None ==> (project matches Err(e) && e.message@
                == "No user associated with this session"@ && e.error@ == "forbidden"@),
    {
        match context.current_user() {
            Some(user) => Ok(NewProject { slug, name, owner_id: user.id }),
            None => Err(GraphqlError::new("No user associated with this session", "forbidden")),
        }
    }
}

/// The decision of a login, given the user found under the username: that
/// user when `password` is theirs, else the login failure, which does not tell
/// a missing user from a wrong password.
pub fn log_in(found: Option<models::User>, password: &str) -> (user: Result<models::User, GraphqlError>)
    requires
        found matches Some(u) ==> u.iterations != 0,
    ensures
        user matches Ok(u) ==> found == Some(u) && u.accepts(password@),
        user matches Err(e) ==> is_login_failure(e),
        user matches Err(e) ==> e.message@ == "No user found or invalid password"@ && e.error@ == "no user found"@,
        user matches Ok(u) ==> found == Some(u) && u.credential@.len() > 0 && pbkdf2_hmac_sha256(
            u.iterations as u32,
            u.salt@,
            encode_utf8(password@),
            u.credential@.len(),
        ) == u.credential@,
        found matches Some(u) ==> (0 < u.credential@.len() <= 0xffff_ffff * 32 && u.salt@.len()
            < 0x1000_0000_0000_0000 && encode_utf8(password@).len() < 0x1000_0000_0000_0000 && pbkdf2_hmac_sha256(
            u.iterations as u32,
            u.salt@,
            encode_utf8(password@),
            u.credential@.len(),
        ) == u.credential@ ==> user == Ok::<models::User, GraphqlError>(u)),
        found is None ==> user is Err,
        found matches Some(u) ==> (u.accepts(password@) && u.checkable(password@) ==> user == Ok::<
            models::User,
            GraphqlError,
        >(u)),
{
    proof {
        if found is Some {
            lemma_accepts_is_pbkdf2(found->0, password@);
        }
    }
    let user = match found {
        Some(v) => v,
        None => {
            return Err(GraphqlError::new("No user found or invalid password", "no user found"));
        },
    };
    if !user.verify_password(password) {
        return Err(GraphqlError::new("No user found or invalid password", "no user found"));
    }
    Ok(user)
}

} // verus!
