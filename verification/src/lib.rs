//! Typed marshaling core for an audio-plugin extension framework.
//!
//! The crate covers three mechanisms: resolving host-supplied capability
//! descriptors into typed objects (with aliasing prevention and
//! threading-context validation), a self-describing binary value format
//! with writer and reader objects, and a transactional key/value
//! persistence protocol built on that format.

pub mod atom;
pub mod buf_size;
pub mod feature;
pub mod options;
pub mod state;
pub mod table;
pub mod urid;
