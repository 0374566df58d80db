//! An interactive JSON record picker's core: decode a document, locate
//! an array inside it by a dotted path, render one display line per
//! record for a selection widget, and project the chosen record onto an
//! output field list.
pub mod codec;
pub mod error;
pub mod fields;
pub mod json;
pub mod path;
pub mod pipeline;
pub mod project;
pub mod render;
pub mod text;
