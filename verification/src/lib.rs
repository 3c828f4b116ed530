//! Query attribute selection and result presentation for a configuration
//! language tool, plus the error taxonomy of its language server.
//!
//! The library decides which metadata attributes of a queried field are
//! shown, renders a found field either as an annotated human-readable
//! report or as a structured (machine-parsable) document, and maps the
//! language server's recoverable errors onto protocol error codes.

pub mod attrs;
pub mod data;
pub mod decode;
pub mod json;
pub mod lsp;
pub mod parse;
pub mod present;
pub mod report;
pub mod text;
