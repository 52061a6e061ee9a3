//! Renderer (`ref`) interface values: texture ids, pixel formats, the
//! software frame buffer and the renderer's error types.

pub mod engine;
pub mod engine_types;
pub mod texture;
