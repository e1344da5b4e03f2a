//! An agent orchestration core: agents are named handlers that receive an
//! action envelope and produce an output envelope, a registry (the swarm)
//! owns the agents and routes actions to them by a compound string id, and
//! each agent dispatches an operation name to a typed handler method.

pub mod agent;
pub mod basic_agents;
pub mod interop;
pub mod json;
pub mod llm_agent;
pub mod searx_agent;
pub mod swarm;
pub mod text;
pub mod web;
