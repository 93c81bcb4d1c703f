//! An element that may be skipped.
use crate::node::{in_bounds, max, max_of, min, min_of, well_formed, Node, ARC_RADIUS, MAX_EXTENT};
use crate::notactuallysvg::attributes::{attrs_extend, attrs_insert, Attributes, AttrSeq};
use crate::notactuallysvg::element::Element;
use crate::notactuallysvg::path::{Arc, Bounds, HDir, PathCmd, PathData};
use crate::shape::{lemma_group_empty, lemma_group_push, lemma_within_larger, Shape};
use vstd::prelude::*;

verus! {

/// Wraps another element to make that element logically optional.
///
/// Draws a separate path above, which skips the given element.
#[derive(Debug, Clone)]
pub struct Optional<N> {
    inner: N,
    attributes: Attributes,
}

impl<N> Optional<N> {
    /// The wrapped element.
    pub closed spec fn inner(&self) -> N {
        self.inner
    }

    /// The attributes of the group that is drawn.
    pub closed spec fn attrs(&self) -> AttrSeq {
        self.attributes@
    }

    pub fn new(inner: N) -> (o: Self)
        ensures
            o.inner() == inner,
            o.attrs() == attrs_insert(Seq::empty(), "class"@, "optional"@),
    {
        let mut attributes = Attributes::new();
        attributes.insert("class".to_owned(), "optional".to_owned());
        Self { inner, attributes }
    }

    pub fn into_inner(self) -> (n: N)
        ensures
            n == self.inner(),
    {
        self.inner
    }

    /// Set an attribute on the main SVG-element that will be drawn.
    pub fn attr(&mut self, key: String, value: String)
        ensures
            final(self).attrs() == attrs_insert(old(self).attrs(), key@, value@),
            final(self).inner() == old(self).inner(),
    {
        self.attributes.insert(key, value);
    }
}

impl<N: Default> Default for Optional<N> {
    fn default() -> (o: Self)
        ensures
            o.attrs() == AttrSeq::empty(),
    {
        Self { inner: Default::default(), attributes: Attributes::new() }
    }
}

impl<N: Node> Optional<N> {
    /// The path that skips the element: from the left edge on the entry
    /// line up to the top edge, along it above the element, and down to
    /// the entry line on the right edge; and the two stubs that lead from
    /// the edges to the element.
    pub open spec fn bypass(&self, x: i64, y: i64) -> Seq<PathCmd> {
        let r = ARC_RADIUS;
        let entry = self.inner().spec_entry_height();
        seq![
            PathCmd::MoveTo { x, y: (y + self.spec_entry_height()) as i64 },
            PathCmd::Horizontal { len: (r * 2) as i64 },
            PathCmd::MoveRel { dx: (-r * 2) as i64, dy: 0 },
            PathCmd::Arc { radius: r, kind: Arc::WestToNorth },
            PathCmd::Vertical { len: min(0, -entry + r) as i64 },
            PathCmd::Arc { radius: r, kind: Arc::SouthToEast },
            PathCmd::Horizontal { len: self.inner().spec_width() as i64 },
            PathCmd::Arc { radius: r, kind: Arc::WestToSouth },
            PathCmd::Vertical { len: max(0, entry - r) as i64 },
            PathCmd::Arc { radius: r, kind: Arc::NorthToEast },
            PathCmd::Horizontal { len: (-r * 2) as i64 },
        ]
    }

    /// What the element draws: it stands two radii from the left edge with
    /// its entry line on the entry line of the whole.
    pub open spec fn inner_shape(&self, x: i64, y: i64, h_dir: HDir) -> Shape {
        self.inner().shape(
            (x + ARC_RADIUS * 2) as i64,
            (y + self.spec_entry_height() - self.inner().spec_entry_height()) as i64,
            h_dir,
        )
    }

    /// The entry height of a valid node lies between zero and its height,
    /// and its width and height between zero and `MAX_EXTENT`.
    pub proof fn lemma_bounded(&self)
        requires
            self.valid(),
        ensures
            in_bounds(self.spec_entry_height(), self.spec_height(), self.spec_width()),
    {
    }
}

impl<N: Node> Node for Optional<N> {
    /// One radius for the bypass, then the entry height of the element
    /// or one more radius where the entry height is less.
    open spec fn spec_entry_height(&self) -> int {
        ARC_RADIUS + max(ARC_RADIUS as int, self.inner().spec_entry_height())
    }

    open spec fn spec_height(&self) -> int {
        self.spec_entry_height() + self.inner().spec_height() - self.inner().spec_entry_height()
    }

    open spec fn spec_width(&self) -> int {
        ARC_RADIUS * 2 + self.inner().spec_width() + ARC_RADIUS * 2
    }

    /// The element is well formed, and the width and the height are at
    /// most `MAX_EXTENT`.
    open spec fn valid(&self) -> bool {
        &&& well_formed(&self.inner())
        &&& self.spec_width() <= MAX_EXTENT
        &&& self.spec_height() <= MAX_EXTENT
    }

    open spec fn shape(&self, x: i64, y: i64, h_dir: HDir) -> Shape {
        Shape::Group {
            tag: "g"@,
            attrs: attrs_extend(Seq::empty(), self.attrs()),
            children: seq![
                Shape::Path { cmds: self.bypass(x, y), dir: h_dir },
                self.inner_shape(x, y, h_dir),
            ],
        }
    }

    fn is_valid(&self) -> (ok: bool) {
        if !self.inner.is_valid() {
            return false;
        }
        let entry = ARC_RADIUS + max_of(ARC_RADIUS, self.inner.entry_height());
        let height = entry + self.inner.height_below_entry();
        let width = ARC_RADIUS * 2 + self.inner.width() + ARC_RADIUS * 2;
        width <= MAX_EXTENT && height <= MAX_EXTENT
    }

    fn entry_height(&self) -> (r: i64) {
        ARC_RADIUS + max_of(ARC_RADIUS, self.inner.entry_height())
    }

    fn height(&self) -> (r: i64) {
        self.entry_height() + self.inner.height_below_entry()
    }

    fn width(&self) -> (r: i64) {
        ARC_RADIUS * 2 + self.inner.width() + ARC_RADIUS * 2
    }

    fn draw(&self, x: i64, y: i64, h_dir: HDir) -> (e: Element) {
        let ghost tag = "g"@;
        let ghost attrs = attrs_extend(Seq::empty(), self.attrs());
        let ghost b = Bounds::at(x as int, y as int, self.spec_width(), self.spec_height());
        let entry = self.entry_height();
        let inner_entry = self.inner.entry_height();
        let ix = x + ARC_RADIUS * 2;
        let iy = y + entry - inner_entry;
        let i = self.inner.draw(ix, iy, h_dir);
        let v = PathData::new(h_dir).move_to(x, y + entry).horizontal(ARC_RADIUS * 2).move_rel(
            -ARC_RADIUS * 2,
            0,
        ).arc(ARC_RADIUS, Arc::WestToNorth).vertical(min_of(0, -inner_entry + ARC_RADIUS)).arc(
            ARC_RADIUS,
            Arc::SouthToEast,
        ).horizontal(self.inner.width()).arc(ARC_RADIUS, Arc::WestToSouth).vertical(
            max_of(0, inner_entry - ARC_RADIUS),
        ).arc(ARC_RADIUS, Arc::NorthToEast).horizontal(-ARC_RADIUS * 2);
        proof {
            let vs = Shape::Path { cmds: self.bypass(x, y), dir: h_dir };
            let is = self.inner_shape(x, y, h_dir);
            assert(v@ =~= self.bypass(x, y));
            lemma_within_larger(
                is,
                Bounds::at(
                    ix as int,
                    iy as int,
                    self.inner().spec_width(),
                    self.inner().spec_height(),
                ),
                b,
            );
            lemma_group_empty(tag, attrs, b);
            lemma_group_push(tag, attrs, Seq::empty(), vs, b);
            lemma_group_push(tag, attrs, seq![vs], is, b);
            assert(Seq::<Shape>::empty().push(vs) =~= seq![vs]);
            assert(seq![vs].push(is) =~= seq![vs, is]);
        }
        Element::new("g").set_all(&self.attributes).add(v.into_path()).add(i)
    }
}

} // verus!
