//! The driving layer of an incremental markup parser.
//!
//! This crate sequences a possibly incomplete, possibly reentrant stream of
//! text into an opaque parsing engine. It owns the document's input stream, a
//! stack of reentrant document-write transactions, and a queue of input
//! deferred while a parser-blocking script is pending, and it guarantees that
//! no chunk of input is ever duplicated, dropped or reordered on its way to
//! the engine.

pub mod buffer_queue;
pub mod driver;
pub mod input_stream;
