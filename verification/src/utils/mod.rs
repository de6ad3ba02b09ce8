//! Small helpers shared by the routes.

pub mod http_util;
pub mod int_bool;
pub mod number;
pub mod text;
