//! A plain-text entity-relationship description language, parsed into a
//! diagram model and rendered as Graphviz dot text.
//!
//! The pipeline is `text -> parse tree -> diagram model -> dot text`:
//! [`parser`] recognises the textual structure, [`er`] assembles the diagram
//! model and holds its types, and [`render`] turns a model into output text.

pub mod er;
pub mod errors;
pub mod parser;
pub mod render;
