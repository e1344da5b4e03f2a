//! Authentication: users with hashed passwords, signed tokens, and the
//! agent that registers users, logs them in, refreshes their tokens and
//! updates their passwords.

pub mod auth_agent;

pub mod auth_headers;
pub mod passwd;
pub mod token;
pub mod user;
