//! An element that may be gone through again.
use crate::node::{in_bounds, max, max_of, min, min_of, well_formed, Node, ARC_RADIUS, MAX_EXTENT};
use crate::notactuallysvg::attributes::{attrs_extend, attrs_insert, Attributes, AttrSeq};
use crate::notactuallysvg::element::Element;
use crate::notactuallysvg::path::{Arc, Bounds, HDir, PathCmd, PathData};
use crate::shape::{lemma_group_empty, lemma_group_push, lemma_within_larger, Shape};
use vstd::prelude::*;

verus! {

/// Wraps one element by providing a backwards-path through another element.
#[derive(Debug, Clone)]
pub struct Repeat<I, R> {
    inner: I,
    repeat: R,
    spacing: i64,
    attributes: Attributes,
}

impl<I, R> Repeat<I, R> {
    /// The element on the forward path.
    pub closed spec fn inner(&self) -> I {
        self.inner
    }

    /// The element on the backward path.
    pub closed spec fn repeat(&self) -> R {
        self.repeat
    }

    /// The least distance between the two elements.
    pub closed spec fn spacing(&self) -> int {
        self.spacing as int
    }

    /// The attributes of the group that is drawn.
    pub closed spec fn attrs(&self) -> AttrSeq {
        self.attributes@
    }

    pub fn new(inner: I, repeat: R) -> (r: Self)
        ensures
            r.inner() == inner,
            r.repeat() == repeat,
            r.spacing() == 10,
            r.attrs() == attrs_insert(Seq::empty(), "class"@, "repeat"@),
    {
        let mut attributes = Attributes::new();
        attributes.insert("class".to_owned(), "repeat".to_owned());
        Self { inner, repeat, spacing: 10, attributes }
    }

    /// Set an attribute on the main SVG-element that will be drawn.
    pub fn attr(&mut self, key: String, value: String)
        ensures
            final(self).attrs() == attrs_insert(old(self).attrs(), key@, value@),
            final(self).inner() == old(self).inner(),
            final(self).repeat() == old(self).repeat(),
            final(self).spacing() == old(self).spacing(),
    {
        self.attributes.insert(key, value);
    }
}

impl<I: Default, R: Default> Default for Repeat<I, R> {
    fn default() -> (r: Self)
        ensures
            r.spacing() == 10,
            r.attrs() == AttrSeq::empty(),
    {
        Self {
            inner: Default::default(),
            repeat: Default::default(),
            spacing: 10,
            attributes: Attributes::new(),
        }
    }
}

impl<I: Node, R: Node> Repeat<I, R> {
    /// The distance between the entry lines of the two elements: room for
    /// the two arcs of the loop at least, and for what the upper element
    /// has below its entry line, the spacing and what the lower element
    /// has above its entry line.
    pub open spec fn spec_height_between_entries(&self) -> int {
        max(
            ARC_RADIUS * 2,
            self.inner().spec_height() - self.inner().spec_entry_height() + self.spacing()
                + self.repeat().spec_entry_height(),
        )
    }

    /// The distance between the entry lines of the two elements.
    pub fn height_between_entries(&self) -> (r: i64)
        requires
            self.valid(),
        ensures
            r == self.spec_height_between_entries(),
            ARC_RADIUS * 2 <= r <= MAX_EXTENT,
    {
        max_of(
            ARC_RADIUS * 2,
            self.inner.height_below_entry() + self.spacing + self.repeat.entry_height(),
        )
    }

    /// The forward path past the upper element and the loop that leads
    /// back below it.
    pub open spec fn tracks(&self, x: i64, y: i64) -> Seq<PathCmd> {
        let r = ARC_RADIUS;
        let iw = self.inner().spec_width();
        let rw = self.repeat().spec_width();
        let between = self.spec_height_between_entries();
        seq![
            PathCmd::MoveTo { x, y: (y + self.spec_entry_height()) as i64 },
            PathCmd::Horizontal { len: r },
            PathCmd::MoveRel { dx: iw as i64, dy: 0 },
            PathCmd::Horizontal { len: max(r as int, rw - iw + r) as i64 },
            PathCmd::MoveRel { dx: -r as i64, dy: 0 },
            PathCmd::Arc { radius: r, kind: Arc::WestToSouth },
            PathCmd::Vertical { len: (between - r * 2) as i64 },
            PathCmd::Arc { radius: r, kind: Arc::NorthToWest },
            PathCmd::MoveRel { dx: -rw as i64, dy: 0 },
            PathCmd::Horizontal { len: min(0, rw - iw) as i64 },
            PathCmd::Arc { radius: r, kind: Arc::EastToNorth },
            PathCmd::Vertical { len: (-between + r * 2) as i64 },
            PathCmd::Arc { radius: r, kind: Arc::SouthToEast },
        ]
    }

    /// What the lower element draws: it stands at the right end of the
    /// loop and at the bottom, and its arrows point backwards.
    pub open spec fn repeat_shape(&self, x: i64, y: i64, h_dir: HDir) -> Shape {
        self.repeat().shape(
            (x + self.spec_width() - self.repeat().spec_width() - ARC_RADIUS) as i64,
            (y + self.spec_height() - self.repeat().spec_height()) as i64,
            h_dir.inverted(),
        )
    }

    /// What the upper element draws: it stands one radius from the left
    /// edge and at the top.
    pub open spec fn inner_shape(&self, x: i64, y: i64, h_dir: HDir) -> Shape {
        self.inner().shape((x + ARC_RADIUS) as i64, y, h_dir)
    }

    /// The entry height of a valid node lies between zero and its height,
    /// and its width and height between zero and `MAX_EXTENT`.
    pub proof fn lemma_bounded(&self)
        requires
            self.valid(),
        ensures
            in_bounds(self.spec_entry_height(), self.spec_height(), self.spec_width()),
    {
    }
}

impl<I: Node, R: Node> Node for Repeat<I, R> {
    open spec fn spec_entry_height(&self) -> int {
        self.inner().spec_entry_height()
    }

    open spec fn spec_height(&self) -> int {
        self.inner().spec_entry_height() + self.spec_height_between_entries()
            + self.repeat().spec_height() - self.repeat().spec_entry_height()
    }

    open spec fn spec_width(&self) -> int {
        ARC_RADIUS + max(self.repeat().spec_width(), self.inner().spec_width()) + ARC_RADIUS
    }

    /// Both elements are well formed, the spacing is not negative, and
    /// the spacing, the width and the height are at most `MAX_EXTENT`.
    open spec fn valid(&self) -> bool {
        &&& well_formed(&self.inner())
        &&& well_formed(&self.repeat())
        &&& 0 <= self.spacing() <= MAX_EXTENT
        &&& self.spec_width() <= MAX_EXTENT
        &&& self.spec_height() <= MAX_EXTENT
    }

    open spec fn shape(&self, x: i64, y: i64, h_dir: HDir) -> Shape {
        Shape::Group {
            tag: "g"@,
            attrs: attrs_extend(Seq::empty(), self.attrs()),
            children: seq![
                Shape::Path { cmds: self.tracks(x, y), dir: h_dir },
                self.repeat_shape(x, y, h_dir),
                self.inner_shape(x, y, h_dir),
            ],
        }
    }

    fn is_valid(&self) -> (ok: bool) {
        if !self.inner.is_valid() || !self.repeat.is_valid() {
            return false;
        }
        if self.spacing < 0 || self.spacing > MAX_EXTENT {
            return false;
        }
        let between = max_of(
            ARC_RADIUS * 2,
            self.inner.height_below_entry() + self.spacing + self.repeat.entry_height(),
        );
        let height = self.inner.entry_height() + between + self.repeat.height_below_entry();
        let width = ARC_RADIUS + max_of(self.repeat.width(), self.inner.width()) + ARC_RADIUS;
        width <= MAX_EXTENT && height <= MAX_EXTENT
    }

    fn entry_height(&self) -> (r: i64) {
        self.inner.entry_height()
    }

    fn height(&self) -> (r: i64) {
        self.inner.entry_height() + self.height_between_entries()
            + self.repeat.height_below_entry()
    }

    fn width(&self) -> (r: i64) {
        ARC_RADIUS + max_of(self.repeat.width(), self.inner.width()) + ARC_RADIUS
    }

    fn draw(&self, x: i64, y: i64, h_dir: HDir) -> (e: Element) {
        let ghost tag = "g"@;
        let ghost attrs = attrs_extend(Seq::empty(), self.attrs());
        let ghost b = Bounds::at(x as int, y as int, self.spec_width(), self.spec_height());
        let iw = self.inner.width();
        let rw = self.repeat.width();
        let between = self.height_between_entries();
        let p = PathData::new(h_dir).move_to(x, y + self.entry_height()).horizontal(
            ARC_RADIUS,
        ).move_rel(iw, 0).horizontal(max_of(ARC_RADIUS, rw - iw + ARC_RADIUS)).move_rel(
            -ARC_RADIUS,
            0,
        ).arc(ARC_RADIUS, Arc::WestToSouth).vertical(between - ARC_RADIUS * 2).arc(
            ARC_RADIUS,
            Arc::NorthToWest,
        ).move_rel(-rw, 0).horizontal(min_of(0, rw - iw)).arc(ARC_RADIUS, Arc::EastToNorth).vertical(
            -between + ARC_RADIUS * 2,
        ).arc(ARC_RADIUS, Arc::SouthToEast);
        let rx = x + self.width() - rw - ARC_RADIUS;
        let ry = y + self.height() - self.repeat.height_below_entry() - self.repeat.entry_height();
        let r = self.repeat.draw(rx, ry, h_dir.invert());
        let i = self.inner.draw(x + ARC_RADIUS, y, h_dir);
        proof {
            let ps = Shape::Path { cmds: self.tracks(x, y), dir: h_dir };
            let rs = self.repeat_shape(x, y, h_dir);
            let is = self.inner_shape(x, y, h_dir);
            assert(p@ =~= self.tracks(x, y));
            lemma_within_larger(
                rs,
                Bounds::at(
                    rx as int,
                    ry as int,
                    self.repeat().spec_width(),
                    self.repeat().spec_height(),
                ),
                b,
            );
            lemma_within_larger(
                is,
                Bounds::at(
                    x + ARC_RADIUS,
                    y as int,
                    self.inner().spec_width(),
                    self.inner().spec_height(),
                ),
                b,
            );
            lemma_group_empty(tag, attrs, b);
            lemma_group_push(tag, attrs, Seq::empty(), ps, b);
            lemma_group_push(tag, attrs, seq![ps], rs, b);
            lemma_group_push(tag, attrs, seq![ps, rs], is, b);
            assert(Seq::<Shape>::empty().push(ps) =~= seq![ps]);
            assert(seq![ps].push(rs) =~= seq![ps, rs]);
            assert(seq![ps, rs].push(is) =~= seq![ps, rs, is]);
        }
        let mut g = Element::new("g").set_all(&self.attributes);
        g.push(p.into_path());
        g.push(r);
        g.push(i);
        g
    }
}

} // verus!
