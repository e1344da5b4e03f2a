//! The web-facing side of the library: the authentication agent with its
//! user, password and token handling, and the plain data the web layer
//! exchanges with it.

pub mod auth;
pub mod request_headers;
pub mod spa_services;
