//! The IIIF request model, its grammar and the image descriptor.

pub mod identifier;
pub mod info;
pub mod parser;
pub mod types;
