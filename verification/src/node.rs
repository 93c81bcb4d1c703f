//! The contract that every element of a diagram meets.
use crate::notactuallysvg::element::Element;
use crate::notactuallysvg::path::{Bounds, HDir};
use crate::shape::{markup, within, Shape};
use crate::strings::{decimal, push_decimal};
use std::rc::Rc;
use std::sync::Arc;
use vstd::prelude::*;
use vstd::string::StringExecFns;

verus! {

/// Used as a form of scale throughout geometry calculations. Smaller values result in more compact
/// diagrams.
pub const ARC_RADIUS: i64 = 12;

/// The largest width and height that a node may have, and the largest
/// distance of a drawing from the origin. It leaves room for the sums that
/// the layout forms on the way.
pub const MAX_EXTENT: i64 = 0x0fff_ffff_ffff_ffff;

/// Something of the given extent can be placed at the coordinate `at`.
pub open spec fn placeable(at: int, extent: int) -> bool {
    -MAX_EXTENT <= at && at + extent <= MAX_EXTENT
}

/// The larger of two numbers.
pub open spec fn max(a: int, b: int) -> int {
    if a >= b {
        a
    } else {
        b
    }
}

/// The smaller of two numbers.
pub open spec fn min(a: int, b: int) -> int {
    if a <= b {
        a
    } else {
        b
    }
}

/// The larger of two numbers.
pub fn max_of(a: i64, b: i64) -> (r: i64)
    ensures
        r == max(a as int, b as int),
{
    if a >= b {
        a
    } else {
        b
    }
}

/// The smaller of two numbers.
pub fn min_of(a: i64, b: i64) -> (r: i64)
    ensures
        r == min(a as int, b as int),
{
    if a <= b {
        a
    } else {
        b
    }
}

/// A diagram is built from a set of primitives which implement `Node`.
///
/// A primitive is a geometric box, within which it can draw whatever it wants.
/// Simple primitives (e.g. `Start`) have fixed width, height etc.. Complex
/// primitives, which wrap other primitives (e.g. `Sequence`), use the methods
/// defined here to compute their own geometry. When the time comes for a primitive
/// to be drawn, the wrapping primitive computes the desired location of the wrapped
/// primitive(s) and calls `.draw()` on them. It is the primitive's job
/// to ensure that it uses only the space it announced.
pub trait Node {
    /// The vertical distance from this element's top to where the
    /// connecting path enters and leaves.
    spec fn spec_entry_height(&self) -> int;

    /// This primitive's total height.
    spec fn spec_height(&self) -> int;

    /// This primitive's total width.
    spec fn spec_width(&self) -> int;

    /// The node can be measured and drawn: what it is made of is itself
    /// well formed, and its width and height are at most `MAX_EXTENT`.
    spec fn valid(&self) -> bool;

    /// What the node draws when its upper left corner is at `(x, y)`.
    spec fn shape(&self, x: i64, y: i64, h_dir: HDir) -> Shape;

    /// Whether the node can be measured and drawn. The geometry of a node
    /// that can is bounded.
    fn is_valid(&self) -> (ok: bool)
        ensures
            ok == self.valid(),
            ok ==> 0 <= self.spec_entry_height() <= self.spec_height() <= MAX_EXTENT && 0
                <= self.spec_width() <= MAX_EXTENT,
    ;

    /// The vertical distance from this element's top to where the entering,
    /// connecting path is drawn.
    ///
    /// By convention, the path connecting primitives enters from the left.
    fn entry_height(&self) -> (r: i64)
        requires
            self.valid(),
        ensures
            r == self.spec_entry_height(),
            0 <= r <= self.spec_height(),
    ;

    /// This primitives's total height.
    fn height(&self) -> (r: i64)
        requires
            self.valid(),
        ensures
            r == self.spec_height(),
            self.spec_entry_height() <= r <= MAX_EXTENT,
    ;

    /// This primitive's total width.
    fn width(&self) -> (r: i64)
        requires
            self.valid(),
        ensures
            r == self.spec_width(),
            0 <= r <= MAX_EXTENT,
    ;

    /// The vertical distance from the height of the connecting path to the bottom.
    fn height_below_entry(&self) -> (r: i64)
        requires
            self.valid(),
        ensures
            r == self.spec_height() - self.spec_entry_height(),
            0 <= r <= MAX_EXTENT,
    {
        self.height() - self.entry_height()
    }

    /// Draw this element as an `svg::Element`.
    ///
    /// Everything that is drawn lies inside the rectangle of this node's
    /// width and height whose upper left corner is `(x, y)`.
    fn draw(&self, x: i64, y: i64, h_dir: HDir) -> (e: Element)
        requires
            self.valid(),
            placeable(x as int, self.spec_width()),
            placeable(y as int, self.spec_height()),
        ensures
            e@ == markup(self.shape(x, y, h_dir)),
            within(
                self.shape(x, y, h_dir),
                Bounds::at(x as int, y as int, self.spec_width(), self.spec_height()),
            ),
    ;
}

/// The entry height lies between zero and the height, and the width and
/// the height between zero and `MAX_EXTENT`.
pub open spec fn in_bounds(entry_height: int, height: int, width: int) -> bool {
    0 <= entry_height <= height <= MAX_EXTENT && 0 <= width <= MAX_EXTENT
}

/// The entry height of the node lies between zero and its height, and
/// its width and height between zero and `MAX_EXTENT`.
pub open spec fn bounded<N: Node + ?Sized>(n: &N) -> bool {
    in_bounds(n.spec_entry_height(), n.spec_height(), n.spec_width())
}

/// The node is valid and its geometry is bounded.
pub open spec fn well_formed<N: Node + ?Sized>(n: &N) -> bool {
    n.valid() && bounded(n)
}

/// The geometry of a node as a text, such as
/// `Node { entry_height: 5, height: 10, width: 15 }`.
pub open spec fn geometry_text(entry_height: int, height: int, width: int) -> Seq<char> {
    "Node { entry_height: "@ + decimal(entry_height) + ", height: "@ + decimal(height)
        + ", width: "@ + decimal(width) + " }"@
}

/// Appends the geometry of a node as a text.
pub fn push_geometry<N: Node + ?Sized>(out: &mut String, n: &N)
    requires
        n.valid(),
    ensures
        final(out)@ == old(out)@ + geometry_text(
            n.spec_entry_height(),
            n.spec_height(),
            n.spec_width(),
        ),
{
    out.append("Node { entry_height: ");
    push_decimal(out, n.entry_height());
    out.append(", height: ");
    push_decimal(out, n.height());
    out.append(", width: ");
    push_decimal(out, n.width());
    out.append(" }");
    assert(out@ =~= old(out)@ + geometry_text(
        n.spec_entry_height(),
        n.spec_height(),
        n.spec_width(),
    ));
}

/// The geometry of a node as a text, for debugging.
pub fn debug_string<N: Node + ?Sized>(n: &N) -> (s: String)
    requires
        n.valid(),
    ensures
        s@ == geometry_text(n.spec_entry_height(), n.spec_height(), n.spec_width()),
{
    let mut s = String::new();
    push_geometry(&mut s, n);
    assert(Seq::<char>::empty() + geometry_text(
        n.spec_entry_height(),
        n.spec_height(),
        n.spec_width(),
    ) =~= geometry_text(n.spec_entry_height(), n.spec_height(), n.spec_width()));
    s
}

/// The entry height, the height and the width of a node, where it is
/// valid.
pub fn checked_geometry<N: Node + ?Sized>(n: &N) -> (r: Option<(i64, i64, i64)>)
    ensures
        r == (if n.valid() {
            Some((n.spec_entry_height() as i64, n.spec_height() as i64, n.spec_width() as i64))
        } else {
            None
        }),
        n.valid() ==> bounded(n),
{
    if n.is_valid() {
        Some((n.entry_height(), n.height(), n.width()))
    } else {
        None
    }
}

/// What a node draws at `(x, y)`, where it is valid and can be placed
/// there.
pub fn checked_draw<N: Node + ?Sized>(n: &N, x: i64, y: i64, h_dir: HDir) -> (r: Option<Element>)
    ensures
        r is Some <==> n.valid() && placeable(x as int, n.spec_width()) && placeable(
            y as int,
            n.spec_height(),
        ),
        r matches Some(e) ==> e@ == markup(n.shape(x, y, h_dir)) && within(
            n.shape(x, y, h_dir),
            Bounds::at(x as int, y as int, n.spec_width(), n.spec_height()),
        ),
{
    if !n.is_valid() {
        return None;
    }
    let width = n.width();
    let height = n.height();
    if -MAX_EXTENT <= x && x <= MAX_EXTENT - width && -MAX_EXTENT <= y && y <= MAX_EXTENT
        - height {
        Some(n.draw(x, y, h_dir))
    } else {
        None
    }
}

impl<'a, N: Node + ?Sized> Node for &'a N {
    open spec fn spec_entry_height(&self) -> int {
        (**self).spec_entry_height()
    }

    open spec fn spec_height(&self) -> int {
        (**self).spec_height()
    }

    open spec fn spec_width(&self) -> int {
        (**self).spec_width()
    }

    open spec fn valid(&self) -> bool {
        (**self).valid()
    }

    open spec fn shape(&self, x: i64, y: i64, h_dir: HDir) -> Shape {
        (**self).shape(x, y, h_dir)
    }

    fn is_valid(&self) -> (ok: bool) {
        (**self).is_valid()
    }

    fn entry_height(&self) -> (r: i64) {
        (**self).entry_height()
    }

    fn height(&self) -> (r: i64) {
        (**self).height()
    }

    fn width(&self) -> (r: i64) {
        (**self).width()
    }

    fn draw(&self, x: i64, y: i64, h_dir: HDir) -> (e: Element) {
        (**self).draw(x, y, h_dir)
    }
}

impl<'a, N: Node + ?Sized> Node for &'a mut N {
    open spec fn spec_entry_height(&self) -> int {
        (**self).spec_entry_height()
    }

    open spec fn spec_height(&self) -> int {
        (**self).spec_height()
    }

    open spec fn spec_width(&self) -> int {
        (**self).spec_width()
    }

    open spec fn valid(&self) -> bool {
        (**self).valid()
    }

    open spec fn shape(&self, x: i64, y: i64, h_dir: HDir) -> Shape {
        (**self).shape(x, y, h_dir)
    }

    fn is_valid(&self) -> (ok: bool) {
        (**self).is_valid()
    }

    fn entry_height(&self) -> (r: i64) {
        (**self).entry_height()
    }

    fn height(&self) -> (r: i64) {
        (**self).height()
    }

    fn width(&self) -> (r: i64) {
        (**self).width()
    }

    fn draw(&self, x: i64, y: i64, h_dir: HDir) -> (e: Element) {
        (**self).draw(x, y, h_dir)
    }
}

impl<N: Node + ?Sized> Node for Box<N> {
    open spec fn spec_entry_height(&self) -> int {
        (**self).spec_entry_height()
    }

    open spec fn spec_height(&self) -> int {
        (**self).spec_height()
    }

    open spec fn spec_width(&self) -> int {
        (**self).spec_width()
    }

    open spec fn valid(&self) -> bool {
        (**self).valid()
    }

    open spec fn shape(&self, x: i64, y: i64, h_dir: HDir) -> Shape {
        (**self).shape(x, y, h_dir)
    }

    fn is_valid(&self) -> (ok: bool) {
        (**self).is_valid()
    }

    fn entry_height(&self) -> (r: i64) {
        (**self).entry_height()
    }

    fn height(&self) -> (r: i64) {
        (**self).height()
    }

    fn width(&self) -> (r: i64) {
        (**self).width()
    }

    fn draw(&self, x: i64, y: i64, h_dir: HDir) -> (e: Element) {
        (**self).draw(x, y, h_dir)
    }
}

impl<N: Node + ?Sized> Node for Rc<N> {
    open spec fn spec_entry_height(&self) -> int {
        (**self).spec_entry_height()
    }

    open spec fn spec_height(&self) -> int {
        (**self).spec_height()
    }

    open spec fn spec_width(&self) -> int {
        (**self).spec_width()
    }

    open spec fn valid(&self) -> bool {
        (**self).valid()
    }

    open spec fn shape(&self, x: i64, y: i64, h_dir: HDir) -> Shape {
        (**self).shape(x, y, h_dir)
    }

    fn is_valid(&self) -> (ok: bool) {
        (**self).is_valid()
    }

    fn entry_height(&self) -> (r: i64) {
        (**self).entry_height()
    }

    fn height(&self) -> (r: i64) {
        (**self).height()
    }

    fn width(&self) -> (r: i64) {
        (**self).width()
    }

    fn draw(&self, x: i64, y: i64, h_dir: HDir) -> (e: Element) {
        (**self).draw(x, y, h_dir)
    }
}

impl<N: Node + ?Sized> Node for Arc<N> {
    open spec fn spec_entry_height(&self) -> int {
        (**self).spec_entry_height()
    }

    open spec fn spec_height(&self) -> int {
        (**self).spec_height()
    }

    open spec fn spec_width(&self) -> int {
        (**self).spec_width()
    }

    open spec fn valid(&self) -> bool {
        (**self).valid()
    }

    open spec fn shape(&self, x: i64, y: i64, h_dir: HDir) -> Shape {
        (**self).shape(x, y, h_dir)
    }

    fn is_valid(&self) -> (ok: bool) {
        (**self).is_valid()
    }

    fn entry_height(&self) -> (r: i64) {
        (**self).entry_height()
    }

    fn height(&self) -> (r: i64) {
        (**self).height()
    }

    fn width(&self) -> (r: i64) {
        (**self).width()
    }

    fn draw(&self, x: i64, y: i64, h_dir: HDir) -> (e: Element) {
        (**self).draw(x, y, h_dir)
    }
}

} // verus!
