//! Validated value types: raw input becomes a domain value only by passing
//! through a `parse` function, so holding one is proof of validity.

pub mod new_subscriber;
pub mod subscriber_email;
pub mod subscriber_name;

pub use new_subscriber::NewSubscriber;
pub use subscriber_email::SubscriberEmail;
pub use subscriber_name::SubscriberName;
