//! Writes XML markup in the form that spreadsheet files use: a declaration
//! line, start, end and empty tags, and the composite cell and shared-string
//! elements, with the escaping rules of that format.
//!
//! Every function states the exact text it produces. The text is modelled as
//! a sequence of characters; the bytes that reach a file are its UTF-8
//! encoding.

pub mod std_specs;
pub mod escape;
pub mod decimal;
pub mod markup;
pub mod writer;

pub use escape::{escape_attributes, escape_data};
pub use writer::XMLWriter;
