//! Client-side logic for the Digitales Register school platform: the routes'
//! request and response models, the checks applied to every response, and the
//! decisions around schools and sessions.

pub mod routes;
pub mod school;
pub mod utils;

pub use school::{School, SchoolCreationError, SchoolLoginError};
