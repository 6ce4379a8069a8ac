//! Tool routing for an agent runtime: a bounded record of recent tool calls,
//! a catalog that a language model chooses from, the decisions of a selector
//! backed by embeddings and a vector store, and the factory that picks one.

pub mod error;
pub mod history;
pub mod text;
pub mod tool;
pub mod llm;
pub mod vector;
pub mod router;
pub mod session;
pub mod cli;
