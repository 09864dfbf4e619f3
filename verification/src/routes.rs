//! The decisions of the request handlers, each as a step from what has
//! happened to what is to be done next.

pub mod admin;
pub mod login;
pub mod subscriptions_confirm;

pub use subscriptions_confirm::{
    confirm, error_chain_fmt, ConfirmAction, ConfirmEvent, ErrorChain, Parameters,
    SubscribeConfirmError,
};
