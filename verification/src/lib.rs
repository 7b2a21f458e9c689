//! Code generation for Arrow/Gandiva user-defined functions: a type mapper,
//! an attribute parser, a wrapper-signature synthesizer, a registry with a
//! JSON emitter, and a workspace scanner that assembles an aggregator package.

pub mod text;
pub mod descriptor;
pub mod gdv_string;
pub mod json;
pub mod meta;
pub mod scanner;
pub mod signature;
pub mod type_map;
pub mod wrapper;
