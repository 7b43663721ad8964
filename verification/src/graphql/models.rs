//! The objects of the GraphQL API, each wrapping a stored row, and the errors
//! their resolvers answer with.

use crate::ids::{hyphenated, hyphenated_string};
use crate::models;
use vstd::prelude::*;
use vstd::string::StringExecFns;

verus! {

/// An error answered to a GraphQL request: a message and the value of its
/// `error` extension.
#[derive(Debug, PartialEq, Eq)]
pub struct GraphqlError {
    pub message: String,
    pub error: String,
}

impl GraphqlError {
    /// The error with this message and `error` value.
    pub fn new(message: &str, error: &str) -> (e: GraphqlError)
        ensures
            e.message@ == message@,
            e.error@ == error@,
    {
        GraphqlError { message: String::from_str(message), error: String::from_str(error) }
    }
}

/// A resolver found no row where the store should have one: this message, with
/// "internal error".
pub open spec fn is_internal_error(e: GraphqlError, message: Seq<char>) -> bool {
    &&& e.message@ == message
    &&& e.error@ == "internal error"@
}

/// A missing-row answer is exactly an error with that message and
/// "internal error" as its `error` value.
pub proof fn lemma_internal_error_is_exact(e: GraphqlError, message: Seq<char>)
    ensures
        is_internal_error(e, message) <==> (e.message@ == message && e.error@ == "internal error"@),
{
}

/// A user of the API.
#[derive(Debug, PartialEq, Eq)]
pub struct User {
    pub model: models::User,
}

impl User {
    pub fn new(user: models::User) -> (u: User)
        ensures
            u.model == user,
    {
        User { model: user }
    }
}

/// A login session of the API: its user and its stored session.
#[derive(Debug, PartialEq, Eq)]
pub struct UserSession {
    pub user: User,
    pub session_model: models::UserSession,
}

impl UserSession {
    pub fn new(user: User, session: models::UserSession) -> (s: UserSession)
        ensures
            s.user == user,
            s.session_model == session,
    {
        UserSession { user, session_model: session }
    }

    /// The session token: the hyphenated text form of the session's UUID.
    pub fn token(&self) -> (token: String)
        ensures
            token@ == hyphenated(self.session_model.id),
    {
        hyphenated_string(self.session_model.id)
    }
}

/// A project of the API.
#[derive(Debug, PartialEq, Eq)]
pub struct Project {
    pub model: models::Project,
}

impl Project {
    pub fn new(project: models::Project) -> (p: Project)
        ensures
            p.model == project,
    {
        Project { model: project }
    }

    /// The `owner` field, given the user found under the project's `owner_id`.
    pub fn owner(&self, found: Option<User>) -> (owner: Result<User, GraphqlError>)
        ensures
            found matches Some(u) ==> owner == Ok::<User, GraphqlError>(u),
            found is None ==> (owner matches Err(e) && is_internal_error(e, "No user found for owner_id of project"@)),
    {
        match found {
            Some(user) => Ok(user),
            None => Err(GraphqlError::new("No user found for owner_id of project", "internal error")),
        }
    }
}

/// A step of the API.
#[derive(Debug, PartialEq, Eq)]
pub struct Step {
    pub model: models::Step,
}

/// The input for adding a step to a feature.
#[derive(Debug, PartialEq, Eq)]
pub struct StepInput {
    pub feature_slug: String,
    pub step_type: String,
    pub value: String,
    pub position: Option<i32>,
}

/// The input for adding a feature to a project.
#[derive(Debug, PartialEq, Eq)]
pub struct FeatureInput {
    pub project_slug: String,
    pub slug: String,
    pub name: String,
}

impl Step {
    pub fn new(step: models::Step) -> (s: Step)
        ensures
            s.model == step,
    {
        Step { model: step }
    }

    /// The `feature` field, given the feature found under the step's
    /// `feature_id`.
    pub fn feature(&self, found: Option<Feature>) -> (feature: Result<Feature, GraphqlError>)
        ensures
            found matches Some(f) ==> feature == Ok::<Feature, GraphqlError>(f),
            found is None ==> (feature matches Err(e) && is_internal_error(e, "No feature found for feature_id of step"@)),
    {
        match found {
            Some(feature) => Ok(feature),
            None => Err(GraphqlError::new("No feature found for feature_id of step", "internal error")),
        }
    }

    /// The `creator` field, given the user found under the step's
    /// `creator_id`.
    pub fn creator(&self, found: Option<User>) -> (creator: Result<User, GraphqlError>)
        ensures
            found matches Some(u) ==> creator == Ok::<User, GraphqlError>(u),
            found is None ==> (creator matches Err(e) && is_internal_error(e, "No user found for creator_id of step"@)),
    {
        match found {
            Some(user) => Ok(user),
            None => Err(GraphqlError::new("No user found for creator_id of step", "internal error")),
        }
    }
}

/// A feature of the API.
#[derive(Debug, PartialEq, Eq)]
pub struct Feature {
    pub model: models::Feature,
}

impl Feature {
    pub fn new(feature: models::Feature) -> (f: Feature)
        ensures
            f.model == feature,
    {
        Feature { model: feature }
    }

    /// The `project` field, given the project found under the feature's
    /// `project_id`.
    pub fn project(&self, found: Option<Project>) -> (project: Result<Project, GraphqlError>)
        ensures
            found matches Some(p) ==> project == Ok::<Project, GraphqlError>(p),
            found is None ==> (project matches Err(e) && is_internal_error(e, "No project found for project_id of feature"@)),
    {
        match found {
            Some(project) => Ok(project),
            None => Err(GraphqlError::new("No project found for project_id of feature", "internal error")),
        }
    }

    /// The `creator` field, given the user found under the feature's
    /// `creator_id`. The message speaks of a step.
    pub fn creator(&self, found: Option<User>) -> (creator: Result<User, GraphqlError>)
        ensures
            found matches Some(u) ==> creator == Ok::<User, GraphqlError>(u),
            found is None ==> (creator matches Err(e) && is_internal_error(e, "No user found for creator_id of step"@)),
    {
        match found {
            Some(user) => Ok(user),
            None => Err(GraphqlError::new("No user found for creator_id of step", "internal error")),
        }
    }
}

} // verus!
