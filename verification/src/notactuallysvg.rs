//! A small builder for SVG markup: path data, attributes, elements and
//! the escaping of text.
pub mod arrowheads;
pub mod attributes;
pub mod element;
pub mod escape;
pub mod path;

pub use self::attributes::Attributes;
pub use self::element::{Element, ElementView};
pub use self::escape::{encode_attribute, encode_minimal};
pub use self::path::{Arc, Bounds, HDir, PathCmd, PathData};
