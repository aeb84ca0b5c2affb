//! A verified reader for the UniPen statement-based text interchange format
//! for on-line handwriting samples.
//!
//! The library turns UniPen text, possibly spanning several files through
//! splice directives, into a validated in-memory document: per-sample pen
//! coordinate runs, segment labels with bounding boxes, and document
//! metadata. It performs no I/O itself; the surrounding program reads files
//! and feeds their text in.

pub mod builder;
pub mod component_set;
pub mod decode;
pub mod error;
pub mod lex;
pub mod model;
pub mod resolve;
pub mod statements;
