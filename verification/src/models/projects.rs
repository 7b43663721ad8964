//! Projects: the top of the ownership tree. A project has an owner and holds
//! features.

use vstd::prelude::*;

verus! {

/// A stored project.
#[derive(Debug, PartialEq, Eq)]
pub struct Project {
    pub id: i32,
    pub slug: String,
    pub name: String,
    pub owner_id: i32,
}

/// A project as it is stored, before the store has given it an id.
#[derive(Debug, PartialEq, Eq)]
pub struct NewProject {
    pub slug: String,
    pub name: String,
    pub owner_id: i32,
}

} // verus!
