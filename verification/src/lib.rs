//! The core of a newsletter service: a visitor submits a name and an email
//! address, receives a one-time confirmation link, and becomes a confirmed
//! subscriber once the link is followed.
//!
//! Every function here carries a contract that Verus proves. The few calls
//! into other crates stand behind small functions whose contracts are
//! believed rather than proved; each of them says so in its documentation.

pub mod configuration;
pub mod domain;
pub mod email;
pub mod repository;
pub mod routes;
pub mod store;
pub mod text;
pub mod token;
pub mod workflow;
