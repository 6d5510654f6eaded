//! A verified core for the `pymulter` Python bindings of the `multer` crate:
//! the parsing of multipart/form-data streams in which the input is fed in
//! pieces and the fields are read one by one.
//!
//! - [`size_limit`] and [`constraint`] hold the configuration of a parse and
//!   hand it to `multer`.
//! - [`parser`] takes the input, ends it, sets `multer` to parse it, and turns
//!   what `multer` answers into fields and exceptions.
//! - [`field`] holds the metadata of a field and reads its content.
//! - [`laws`] states what holds of a parser and a field from one call to the
//!   next.
//! - [`boundary`] finds the boundary in a Content-Type header.
//! - [`chunk_stream`] is the input as `multer` reads it, [`exception`] the
//!   Python exceptions that are raised, and [`text`] a few views.
//! - [`outside`] is what is believed without proof of `multer`, `bytes`,
//!   `futures` and the standard library.

pub mod boundary;
pub mod chunk_stream;
pub mod constraint;
pub mod exception;
pub mod field;
pub mod laws;
pub mod outside;
pub mod parser;
pub mod size_limit;
pub mod text;

pub use boundary::{boundary_answer, py_parse_boundary};
pub use chunk_stream::ChunkStream;
pub use constraint::ConstraintWrapper;
pub use exception::Exception;
pub use field::MultipartField;
pub use parser::MultipartParser;
pub use size_limit::SizeLimitWrapper;
