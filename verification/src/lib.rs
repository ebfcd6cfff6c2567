//! Prompt reuse and context bookkeeping for an in-process llama.cpp engine.
//!
//! The crate decides; it never touches the engine itself. Every operation of the
//! engine, of the file system and of the clock is asked for as an action and
//! answered as an event, so what stands here can be proved for every answer.

pub mod cache;
pub mod decode;
pub mod error;
pub mod fnv;
pub mod generation;
pub mod index;
pub mod key;
pub mod ladder;
pub mod media;
pub mod media_cache;
pub mod mtp;
pub mod multimodal;
pub mod paths;
pub mod prefill;
pub mod prepare;
pub mod session;
pub mod settings;
pub mod slot;
pub mod stops;
pub mod text;
pub mod token;
pub mod window;
