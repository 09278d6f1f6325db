//! Model providers: their events and errors, their configuration, the echo provider used
//! in tests, and the OpenAI-compatible protocol.

pub mod config;
pub mod echo;
pub mod openai;
pub mod openai_laws;
pub mod provider;
pub mod provider_factory;
pub mod provider_laws;
