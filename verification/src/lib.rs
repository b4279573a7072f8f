//! Authentication core: a credential store with unique usernames and e-mail
//! addresses, salted password hashing, and session tokens in two flavours
//! (signed tokens that expire, and a revocable table of opaque tokens),
//! composed into the register / login / verify / logout use cases.

pub mod error;
pub mod password;
pub mod ident;
pub mod database;
pub mod tokens;
pub mod sessions;
pub mod authority;
pub mod bearer;
pub mod service;
pub mod config;
pub mod text;
pub mod host;
