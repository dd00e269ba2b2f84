//! Core of a desktop assistant backend: a single-session audio capture state
//! machine with a verified PCM container codec, a registry of cancellation
//! flags, a cancellable-operation race, a streaming relay, and an encrypted
//! credential store.

pub mod ai_types;
pub mod audio_types;
pub mod chat;
pub mod catalog;
pub mod ids;
pub mod recorder;
pub mod registry;
pub mod relay;
pub mod secure_storage;
pub mod ops;
pub mod text;
pub mod wav;
