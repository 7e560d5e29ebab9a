//! Collection, processing and delivery logic of an AI news pushing service.

pub mod text;
pub mod keyed;
pub mod json;
pub mod adapters;
pub mod engine;
pub mod commands;
