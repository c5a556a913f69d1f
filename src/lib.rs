//! A small client for a generative-language HTTP API: it builds the request
//! for a prompt, and turns a decoded reply into the generated texts.

pub mod client;
pub mod error;
pub mod laws;
pub mod request;
pub mod response;

pub use client::Gemini;
pub use error::GeminiError;
