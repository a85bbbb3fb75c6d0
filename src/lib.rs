//! Identity and session core of a newsletter backend: password hashing,
//! signed bearer tokens, session records kept in a shared expiring cache,
//! and the request authenticator built on them.

pub mod error;
pub mod ids;
pub mod claims;
pub mod token;
pub mod session;
pub mod session_store;
pub mod password;
pub mod auth;
pub mod domain;
pub mod schema;
pub mod config;
