//! Verified C header generation for an FFI inventory.
pub mod validate;
pub mod codegen;
pub mod functions;
pub mod header_laws;
pub mod model;
pub mod sorting;
pub mod text;
pub mod topo;
