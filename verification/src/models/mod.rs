//! The rows of the store and the rules for building and ordering them.

pub mod features;
pub mod projects;
pub mod steps;
pub mod users;

pub use features::{Feature, NewFeature};
pub use projects::{NewProject, Project};
pub use steps::{NewStep, NewStepInner, PositionUpdate, Step, StepError, StepMove};
pub use users::{NewUser, User, UserSession};
