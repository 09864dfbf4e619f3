//! What only a logged-in administrator may do.

pub mod password;
