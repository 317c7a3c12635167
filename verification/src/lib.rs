//! Core of a terminal pager for byte streams that arrive incrementally.
//!
//! The library keeps a focused position visible inside a fixed-size character
//! grid while content streams in, logical lines wrap into several displayed
//! rows, and the grid is resized live.  The engine walks the document one
//! displayed row at a time and maintains a scroll-margin invariant that
//! degrades gracefully near the start and end of the document.

pub mod action;
pub mod databuf;
pub mod dimensions;
pub mod document;
pub mod document_viewer;
pub mod document_viewport;
pub mod sexp_tokenizer;
pub mod test_helpers;
pub mod text_document;
