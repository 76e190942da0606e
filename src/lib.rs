//! A chunked, resumable, rate-limited HTTP download engine.

pub mod buffer;
pub mod chunk;
pub mod clock;
pub mod config;
pub mod engine;
pub mod error;
pub mod limiter;
pub mod manager;
pub mod progress;
pub mod retry;
pub mod text;
pub mod validator;
