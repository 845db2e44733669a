//! Core of a real-time collaboration service: presence, cursors and event fan-out,
//! and the classification of questions put to the code assistant.

pub mod bus;
mod clock;
pub mod connection;
pub mod lemmas;
pub mod presence;
pub mod protocol;
pub mod rag_pipeline;
pub mod session;
pub mod text;
