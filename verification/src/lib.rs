//! Syntax ("railroad") diagrams as Scalable Vector Graphics.
//!
//! A diagram is a tree of primitives that implement [`Node`]. Every node
//! announces a bounding box (`width`, `height`) and the height at which the
//! connecting path enters and leaves it (`entry_height`), and draws itself
//! into that box. The geometry of every node is specified by a spec
//! function, and `draw` is specified by the [`shape::Shape`] it produces.
pub mod choice;
pub mod collection;
pub mod diagram;
pub mod grid;
pub mod labeled_box;
pub mod leaves;
pub mod link;
pub mod node;
pub mod notactuallysvg;
pub mod optional;
pub mod overlay;
pub mod render;
pub mod repeat;
pub mod sequence;
pub mod shape;
pub mod stack;
pub mod strings;

pub use crate::choice::Choice;
pub use crate::collection::NodeCollection;
pub use crate::diagram::{Diagram, DEFAULT_CSS};
pub use crate::grid::{HorizontalGrid, VerticalGrid};
pub use crate::labeled_box::LabeledBox;
pub use crate::leaves::{Comment, Empty, End, NonTerminal, SimpleEnd, SimpleStart, Start, Terminal};
pub use crate::link::{Link, LinkTarget};
pub use crate::node::Node;
pub use crate::notactuallysvg as svg;
pub use crate::optional::Optional;
pub use crate::repeat::Repeat;
pub use crate::sequence::Sequence;
pub use crate::stack::Stack;

use crate::node::MAX_EXTENT;
use crate::notactuallysvg::attributes::{attrs_insert, AttrSeq, Attributes};
use crate::notactuallysvg::element::Element;
use crate::notactuallysvg::path::HDir;
use crate::shape::{rect_element, Shape};
use vstd::prelude::*;

verus! {

/// A rectangle drawn with the given dimensions, used for visual debugging
#[derive(Debug)]
pub struct Debug {
    entry_height: i64,
    height: i64,
    width: i64,
    attributes: Attributes,
}

impl Debug {
    /// The attributes of the rectangle that is drawn.
    pub closed spec fn attrs(&self) -> AttrSeq {
        self.attributes@
    }

    /// A rectangle of the given dimensions. The entry height has to be
    /// less than the height.
    #[must_use]
    pub fn new(entry_height: i64, height: i64, width: i64) -> (d: Self)
        requires
            entry_height < height,
        ensures
            d.spec_entry_height() == entry_height,
            d.spec_height() == height,
            d.spec_width() == width,
            d.attrs() == attrs_insert(
                attrs_insert(Seq::empty(), "class"@, "debug"@),
                "style"@,
                "fill: hsla(0, 100%, 90%, 0.9); stroke-width: 2; stroke: red"@,
            ),
    {
        let mut attributes = Attributes::new();
        attributes.insert("class".to_owned(), "debug".to_owned());
        attributes.insert(
            "style".to_owned(),
            "fill: hsla(0, 100%, 90%, 0.9); stroke-width: 2; stroke: red".to_owned(),
        );
        Self { entry_height, height, width, attributes }
    }
}

impl Node for Debug {
    closed spec fn spec_entry_height(&self) -> int {
        self.entry_height as int
    }

    closed spec fn spec_height(&self) -> int {
        self.height as int
    }

    closed spec fn spec_width(&self) -> int {
        self.width as int
    }

    /// The dimensions are not negative and at most `MAX_EXTENT`.
    open spec fn valid(&self) -> bool {
        0 <= self.spec_entry_height() <= self.spec_height() <= MAX_EXTENT && 0
            <= self.spec_width() <= MAX_EXTENT
    }

    open spec fn shape(&self, x: i64, y: i64, h_dir: HDir) -> Shape {
        Shape::Rect {
            x: x as int,
            y: y as int,
            width: self.spec_width(),
            height: self.spec_height(),
            round: false,
            attrs: self.attrs(),
        }
    }

    fn is_valid(&self) -> (ok: bool) {
        0 <= self.entry_height && self.entry_height <= self.height && self.height <= MAX_EXTENT
            && 0 <= self.width && self.width <= MAX_EXTENT
    }

    fn entry_height(&self) -> (r: i64) {
        self.entry_height
    }

    fn height(&self) -> (r: i64) {
        self.height
    }

    fn width(&self) -> (r: i64) {
        self.width
    }

    fn draw(&self, x: i64, y: i64, h_dir: HDir) -> (e: Element) {
        rect_element(x, y, self.width(), self.height(), false, &self.attributes)
    }
}

} // verus!
