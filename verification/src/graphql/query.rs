//! The root query object: how a user is looked up.

use super::models::GraphqlError;
use crate::models::features::features_of_project;
use crate::models::steps::{rows_of_feature, sorted_by_position};
use crate::models::{Feature, Project, Step};
use vstd::prelude::*;

verus! {

/// The root query object of the schema.
#[derive(Debug, PartialEq, Eq)]
pub struct QueryHolder;

/// How the `user` query finds its user.
#[derive(Debug, PartialEq, Eq)]
pub enum UserLookup {
    ById(i32),
    ByUsername(String),
}

impl QueryHolder {
    /// The lookup for the `user` query: by `id` when one is given, else by
    /// `username`; one of them is required.
    pub fn user(username: Option<String>, id: Option<i32>) -> (lookup: Result<UserLookup, GraphqlError>)
        ensures
            id matches Some(i) ==> (lookup matches Ok(UserLookup::ById(j)) && j == i),
            id is None && username is Some ==> (lookup matches Ok(UserLookup::ByUsername(name)) && name
                == username->0),
            id is None && username is None ==> (lookup matches Err(e) && e.message@
                == "Either `username` or `id` is required"@ && e.error@ == "invalid parameters"@),
    {
        if let Some(id) = id {
            return Ok(UserLookup::ById(id));
        }
        if let Some(username) = username {
            return Ok(UserLookup::ByUsername(username));
        }
        Err(GraphqlError::new("Either `username` or `id` is required", "invalid parameters"))
    }
}

/// The features of the project looked up for a `features` field: none when no
/// project was found, else the project's features among `features`, in their
/// order.
pub fn project_features(project: Option<&Project>, features: &Vec<Feature>) -> (listed: Vec<Feature>)
    ensures
        project is None ==> listed@.len() == 0,
        project matches Some(p) ==> listed@ == features_of_project(features@, p.id),
{
    match project {
        Some(p) => Feature::all_by_project(p, features),
        None => Vec::new(),
    }
}

/// The steps of the feature looked up for a `steps` field: none when no
/// feature was found, else the feature's steps among `steps` in ascending
/// order of position.
pub fn feature_steps(feature: Option<&Feature>, steps: &Vec<Step>) -> (listed: Vec<Step>)
    ensures
        feature is None ==> listed@.len() == 0,
        feature matches Some(f) ==> sorted_by_position(listed@) && listed@.to_multiset() =~= rows_of_feature(
            steps@,
            f.id,
        ).to_multiset(),
{
    match feature {
        Some(f) => Step::all_by_feature(f, steps),
        None => Vec::new(),
    }
}

} // verus!
