//! Logging in.

pub mod post;

pub use post::{login, FormData};
