//! Host-side core of a sandboxed content-processing engine. Modules run
//! against contents inside a WebAssembly engine; this library is everything
//! around the engine: the bytes of contents and who owns them, the in-memory
//! filesystem that guests see, the WASI calls they make, the files through
//! which they publish rows and sub-content, and what the scheduler does
//! with the results.
//!
//! Each stateful type has a view in plain values, and every operation says
//! what it returns and leaves behind in terms of that view.

/// Shared immutable byte buffers.
pub mod shared_buffer;
/// Contents and the store of their bytes.
pub mod content;
/// Text helpers: paths, prefixes, decimal numbers.
pub mod text;
/// The in-memory filesystem in plain values, with its laws.
pub mod fs_model;
/// The in-memory filesystem.
pub mod memory_fs;
/// JSON documents, read through `serde_json`.
pub mod json;
/// Table schemas and rows.
pub mod types;
/// The wire format of guest emissions.
pub mod emission;
/// Byte layouts of the WASI ABI.
pub mod layout;
/// The WASI host in plain values, with its laws.
pub mod wasi_model;
/// The WASI host.
pub mod wasi;
/// The scratch state of one call.
pub mod context;
/// Module styles, limits, and how calls end.
pub mod module;
/// The steps around one call into a module.
pub mod host;
/// Declared tables and the rows that fit them.
pub mod metadata;
/// Sink operations and sub-contents for a processed content.
pub mod processor;
/// An in-memory metadata sink.
pub mod sink;
/// Finding work on work-stealing deques.
pub mod scheduler;
/// The precompile cache.
pub mod precompile;
/// Helpers for module authors.
pub mod guest;
