//! The two requests that the service answers: a new subscription, and the
//! confirmation of one.

pub mod subscriptions;
pub mod subscriptions_confirm;

pub use subscriptions::{subscribe, FormData, SubscribeError};
pub use subscriptions_confirm::{confirm, Parameters};
