//! LLM inference as resources.
//!
//! One front grammar, `urn:llm:ask`, over pluggable backends that are addressable
//! themselves, `urn:llm:<provider>:ask`. A backend is any server with an OpenAI-compatible
//! chat interface; a [`Registry`] names the backends, what is known of each, and which one
//! answers when a request names none. Which backend answers can be left to requirements
//! (`needs="vision, ctx>=32k, cost<=cheap"`), and which model to the server.
//!
//! The library decides and never sends. Whatever takes a conversation with a server is a
//! machine: it hands out the next request, is handed what came back, and ends in an answer.
//! Each machine is specified step by step, and proved to come, with any server, to an
//! outcome that is stated in one piece.

pub mod annotate;
pub mod answer;
pub mod backend;
pub mod config;
pub mod describe;
pub mod discover;
pub mod error;
pub mod inventory;
pub mod json;
pub mod listing;
pub mod live;
pub mod models;
pub mod needs;
pub mod net;
pub mod routing;
pub mod select;
pub mod space;
pub mod text;
pub mod turtle;

pub use annotate::AnnotationConflict;
pub use backend::OpenAiBackend;
pub use config::{Caps, OpenAiConfig, Registry};
pub use error::Error;
pub use inventory::{ConfigEndpoint, ModelsEndpoint};
pub use live::{InstalledEndpoint, ModelEndpoint, UpEndpoint};
pub use models::InstalledModel;
pub use routing::{AskFacade, SelectEndpoint};
