//! Helpers that stand beside the engine.

pub mod base64_encoder;
