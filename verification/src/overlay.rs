//! Visual debugging: the box of a node drawn over it.
use crate::node::Node;
use crate::notactuallysvg::element::{Element, ElementView};
use crate::notactuallysvg::escape::escape_minimal;
use crate::notactuallysvg::path::{path_text, HDir, PathCmd, PathData};
use vstd::prelude::*;

verus! {

/// The outline that marks the box of a node: its upper and its left edge,
/// and a stroke on the entry line.
pub open spec fn outline(x: i64, y: i64, entry_height: int, height: int, width: int) -> Seq<
    PathCmd,
> {
    seq![
        PathCmd::MoveTo { x, y },
        PathCmd::Horizontal { len: width as i64 },
        PathCmd::Vertical { len: 5 },
        PathCmd::MoveRel { dx: (-width) as i64, dy: -5i64 },
        PathCmd::Vertical { len: height as i64 },
        PathCmd::Horizontal { len: 5 },
        PathCmd::MoveRel { dx: -5i64, dy: (-height) as i64 },
        PathCmd::MoveRel { dx: 0, dy: entry_height as i64 },
        PathCmd::Horizontal { len: 10 },
    ]
}

/// The element with the name, the place and the geometry of a node as
/// attributes, a title, and the outline of the node as a sibling.
pub open spec fn with_overlay(
    e: ElementView,
    name: Seq<char>,
    x: i64,
    y: i64,
    entry_height: int,
    height: int,
    width: int,
) -> ElementView {
    e.with_attr("railroad:type"@, name).with_int("railroad:x"@, x as int).with_int(
        "railroad:y"@,
        y as int,
    ).with_int("railroad:entry_height"@, entry_height).with_int(
        "railroad:height"@,
        height,
    ).with_int("railroad:width"@, width).with_child(
        ElementView::blank("title"@).with_text(escape_minimal(name)),
    ).with_sibling(
        ElementView::blank("path"@).with_attr(
            "d"@,
            path_text(outline(x, y, entry_height, height, width), HDir::LTR),
        ).with_attr("class"@, "debug"@),
    )
}

impl Element {
    /// Leaves the element as it is: visual debugging is off unless
    /// `debug_overlay` is called in its place.
    #[must_use]
    pub fn debug<N: Node + ?Sized>(self, name: &str, x: i64, y: i64, n: &N) -> (e: Self)
        ensures
            e == self,
    {
        self
    }

    /// Adds some basic textual and visual debugging information to this Element
    #[must_use]
    pub fn debug_overlay<N: Node + ?Sized>(self, name: &str, x: i64, y: i64, n: &N) -> (e: Self)
        requires
            n.valid(),
        ensures
            e@ == with_overlay(
                self@,
                name@,
                x,
                y,
                n.spec_entry_height(),
                n.spec_height(),
                n.spec_width(),
            ),
    {
        let entry_height = n.entry_height();
        let height = n.height();
        let width = n.width();
        let p = PathData::new(HDir::LTR).move_to(x, y).horizontal(width).vertical(5).move_rel(
            -width,
            -5,
        ).vertical(height).horizontal(5).move_rel(-5, -height).move_rel(0, entry_height).horizontal(
            10,
        );
        assert(p@ =~= outline(x, y, entry_height as int, height as int, width as int));
        let d = p.to_string();
        self.set("railroad:type", name).set_int("railroad:x", x).set_int("railroad:y", y).set_int(
            "railroad:entry_height",
            entry_height,
        ).set_int("railroad:height", height).set_int("railroad:width", width).add(
            Element::new("title").text(name),
        ).append(Element::new("path").set("d", d.as_str()).set("class", "debug"))
    }
}

} // verus!
