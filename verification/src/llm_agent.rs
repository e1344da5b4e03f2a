//! The fixed-shape language-model agent: prompt templates filled from a
//! key/value prompt, a chat-message builder, the HTTP client that carries the
//! request, and the response envelope the backend answers with.

pub mod llm_agent;
pub mod llm_client;
pub mod llm_message;
pub mod llm_response;
