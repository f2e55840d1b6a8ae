//! Parsing of IDF 3.0 documents: board and panel files (`.emn`) and
//! component library files (`.emp`), and the checks that the references
//! between them resolve.
//!
//! Every parser is stated against a grammar written as spec functions over
//! the document's characters, and is proved to return exactly what that
//! grammar gives: the parsed values, or the error and where it occurs.

pub mod primitives;
pub mod section;
pub mod point;
pub mod outlines;
pub mod drilled_holes;
pub mod notes;
pub mod component_placement;
pub mod headers;
pub mod board;
pub mod components;
pub mod library;
pub mod validation;
pub mod render;
