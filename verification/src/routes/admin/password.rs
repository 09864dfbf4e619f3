//! Changing the administrator's password.

pub mod post;

pub use post::{change_password, FormData};
