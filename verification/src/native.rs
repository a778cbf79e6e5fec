//! The logic of the native archive provider adapter: status codes, callback
//! state, handler metadata, and the checks made around each native call.

pub mod callbacks;
pub mod decoder;
pub mod encoder;
pub mod error;
pub mod ffi;
pub mod loader;
pub mod metadata;
pub mod streams;

pub use decoder::ArchiveEngine;
pub use error::Format7zError;
