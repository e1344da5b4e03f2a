//! The search agent: a query builder for a metasearch backend, the request
//! URL it implies, and the parsing of the backend's result list.

pub mod searx;
pub mod searx_agent;
