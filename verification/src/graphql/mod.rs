//! What the GraphQL API answers: the objects it returns and the decisions of
//! its resolvers.

pub mod models;
pub mod mutator;
pub mod query;

pub use models::{Feature, FeatureInput, GraphqlError, Project, Step, StepInput, User, UserSession};
pub use mutator::{log_in, MutatorHolder};
pub use query::{feature_steps, project_features, QueryHolder, UserLookup};
