//! Verified core of gurka, a service for writing and organising Gherkin-style
//! features: users with salted PBKDF2 credentials, projects, features and the
//! ordered steps of a feature.
//!
//! The storage and the GraphQL transport live outside this crate; the functions
//! here decide what is stored, how rows are ordered and what a request is
//! answered.

pub mod crypto;
pub mod ids;
pub mod models;
pub mod text;
pub mod context;
pub mod graphql;
