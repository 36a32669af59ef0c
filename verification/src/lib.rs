//! Request routing and reply shaping for an OpenAI-compatible local model proxy.

pub mod text;
pub mod catalog;
pub mod reply;
pub mod router;
