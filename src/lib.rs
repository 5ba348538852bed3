//! The rendering command pipeline of a small game framework: handle-indexed
//! resource registries, double-buffered command frames with a bounded payload
//! arena, a producer-facing facade and the per-tick driver that dispatches
//! recorded commands to a graphics backend.

pub mod assets;
pub mod bytes_loader;
pub mod component;
pub mod errors;
pub mod frame;
pub mod handle;
pub mod mesh;
pub mod registry;
pub mod service;
pub mod text;
