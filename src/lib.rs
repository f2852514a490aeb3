//! Hiding text messages inside PNG files: chunk types, chunks and the PNG
//! container, each with its byte layout stated and proved.

pub mod args;
pub mod chunk;
pub mod chunk_type;
pub mod commands;
pub mod error;
pub mod png;
