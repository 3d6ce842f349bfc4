//! Turns a parsed OpenAPI document into flat, namespaced, deduplicated
//! model and service descriptors, ready for a rendering layer to emit.

pub mod assemble;
pub mod casing;
pub mod generate;
pub mod imports;
pub mod laws;
pub mod model;
pub mod resolve;
pub mod services;
pub mod specs;
pub mod strutil;
pub mod views;
