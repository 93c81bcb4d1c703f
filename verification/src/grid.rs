//! Groups of unconnected elements.
use crate::collection::{
    all_well_formed, are_valid, checked_gaps, checked_total_height, checked_total_width, gaps,
    lemma_gaps, lemma_maxima, lemma_totals, lemma_totals_step, max_height, max_width, total_height,
    total_width, NodeCollection,
};
use crate::node::{in_bounds, max_of, placeable, well_formed, Node, ARC_RADIUS, MAX_EXTENT};
use crate::notactuallysvg::attributes::{attrs_extend, attrs_insert, Attributes, AttrSeq};
use crate::notactuallysvg::element::Element;
use crate::notactuallysvg::path::{Bounds, HDir};
use crate::shape::{lemma_group_empty, lemma_group_push, lemma_within_larger, markup, within, Shape};
use vstd::prelude::*;

verus! {

/// A vertical group of unconnected elements.
#[derive(Debug, Clone)]
pub struct VerticalGrid<N> {
    children: Vec<N>,
    spacing: i64,
    attributes: Attributes,
}

impl<N> VerticalGrid<N> {
    /// The children, from top to bottom.
    pub closed spec fn children(&self) -> Seq<N> {
        self.children@
    }

    /// The distance between two neighbours.
    pub closed spec fn spacing(&self) -> int {
        self.spacing as int
    }

    /// The attributes of the group that is drawn.
    pub closed spec fn attrs(&self) -> AttrSeq {
        self.attributes@
    }

    #[must_use]
    pub fn new(children: Vec<N>) -> (v: Self)
        ensures
            v.children() == children@,
            v.spacing() == ARC_RADIUS,
            v.attrs() == attrs_insert(Seq::empty(), "class"@, "verticalgrid"@),
    {
        let mut attributes = Attributes::new();
        attributes.insert("class".to_owned(), "verticalgrid".to_owned());
        Self { children, spacing: ARC_RADIUS, attributes }
    }

    pub fn push(&mut self, child: N) -> (r: &mut Self)
        ensures
            r.children() == old(self).children().push(child),
            r.spacing() == old(self).spacing(),
            r.attrs() == old(self).attrs(),
            *final(self) == *final(r),
    {
        self.children.push(child);
        self
    }

    #[must_use]
    pub fn into_inner(self) -> (v: Vec<N>)
        ensures
            v@ == self.children(),
    {
        self.children
    }

    /// Set an attribute on the main SVG-element that will be drawn.
    pub fn attr(&mut self, key: String, value: String)
        ensures
            final(self).attrs() == attrs_insert(old(self).attrs(), key@, value@),
            final(self).children() == old(self).children(),
            final(self).spacing() == old(self).spacing(),
    {
        self.attributes.insert(key, value);
    }
}

impl<N> Default for VerticalGrid<N> {
    fn default() -> (v: Self)
        ensures
            v.children() == Seq::<N>::empty(),
            v.spacing() == ARC_RADIUS,
            v.attrs() == Seq::<(Seq<char>, Seq<char>)>::empty(),
    {
        Self { children: Vec::new(), spacing: ARC_RADIUS, attributes: Attributes::new() }
    }
}

impl<N: Node> VerticalGrid<N> {
    /// How far the child at position `i` stands from the top edge.
    pub open spec fn offset(&self, i: int) -> int
        decreases i,
    {
        if i <= 0 {
            0
        } else {
            self.offset(i - 1) + self.children()[i - 1].spec_height() + self.spacing()
        }
    }

    /// What the child at position `i` draws.
    pub open spec fn child_shape(&self, i: int, x: i64, y: i64, h_dir: HDir) -> Shape {
        self.children()[i].shape(x, (y + self.offset(i)) as i64, h_dir)
    }

    /// What the first `n` children draw.
    pub open spec fn child_shapes(&self, n: int, x: i64, y: i64, h_dir: HDir) -> Seq<Shape> {
        Seq::new(n as nat, |i: int| self.child_shape(i, x, y, h_dir))
    }

    /// The offsets are the heights of the children so far and one gap for
    /// each.
    pub proof fn lemma_offset(&self, i: int)
        requires
            0 <= i <= self.children().len(),
        ensures
            self.offset(i) == total_height(self.children().take(i)) + i * self.spacing(),
        decreases i,
    {
        if i > 0 {
            self.lemma_offset(i - 1);
            lemma_totals_step(self.children(), i - 1);
            assert(i * self.spacing() == (i - 1) * self.spacing() + self.spacing())
                by (nonlinear_arith);
        } else {
            assert(self.children().take(0) =~= Seq::empty());
        }
    }

    /// Every child stands inside the height of the grid.
    pub proof fn lemma_offset_bound(&self, i: int)
        requires
            self.valid(),
            0 <= i < self.children().len(),
        ensures
            0 <= self.offset(i),
            self.offset(i) + self.children()[i].spec_height() <= self.spec_height(),
    {
        self.lemma_offset(i);
        lemma_totals(self.children(), i);
        lemma_totals(self.children(), i + 1);
        lemma_totals_step(self.children(), i);
        lemma_gaps(i, self.children().len() as int, self.spacing());
    }

    /// The entry height of a valid node lies between zero and its height,
    /// and its width and height between zero and `MAX_EXTENT`.
    pub proof fn lemma_bounded(&self)
        requires
            self.valid(),
        ensures
            in_bounds(self.spec_entry_height(), self.spec_height(), self.spec_width()),
    {
        let n = self.children().len() as int;
        lemma_maxima(self.children());
        lemma_totals(self.children(), n);
        if n > 0 {
            lemma_gaps(0, n, self.spacing());
        }
    }
}

impl<N: Node> Node for VerticalGrid<N> {
    open spec fn spec_entry_height(&self) -> int {
        0
    }

    /// The heights of the children and a gap between each two.
    open spec fn spec_height(&self) -> int {
        total_height(self.children()) + gaps(self.children().len() as int, self.spacing())
    }

    open spec fn spec_width(&self) -> int {
        max_width(self.children())
    }

    /// The children are well formed, the spacing is not negative, and it,
    /// the number of children and the height are at most `MAX_EXTENT`.
    open spec fn valid(&self) -> bool {
        &&& all_well_formed(self.children())
        &&& 0 <= self.spacing() <= MAX_EXTENT
        &&& self.children().len() <= MAX_EXTENT
        &&& self.spec_height() <= MAX_EXTENT
    }

    open spec fn shape(&self, x: i64, y: i64, h_dir: HDir) -> Shape {
        Shape::Group {
            tag: "g"@,
            attrs: attrs_extend(Seq::empty(), self.attrs()),
            children: self.child_shapes(self.children().len() as int, x, y, h_dir),
        }
    }

    fn is_valid(&self) -> (ok: bool) {
        if self.spacing < 0 || self.spacing > MAX_EXTENT {
            return false;
        }
        if self.children.len() as u64 > MAX_EXTENT as u64 {
            return false;
        }
        if !are_valid(&self.children) {
            return false;
        }
        let ok = match (
            checked_total_height(&self.children),
            checked_gaps(self.children.len(), self.spacing),
        ) {
            (Some(total), Some(gap)) => total + gap <= MAX_EXTENT,
            _ => false,
        };
        proof {
            if ok {
                self.lemma_bounded();
            }
        }
        ok
    }

    fn entry_height(&self) -> (r: i64) {
        proof {
            self.lemma_bounded();
        }
        0
    }

    fn height(&self) -> (r: i64) {
        proof {
            self.lemma_bounded();
            let n = self.children().len() as int;
            if n > 0 {
                lemma_gaps(n - 1, n, self.spacing());
            }
        }
        self.children.total_height() + ((max_of(1, self.children.len() as i64) - 1)
            * self.spacing)
    }

    fn width(&self) -> (r: i64) {
        self.children.max_width()
    }

    fn draw(&self, x: i64, y: i64, h_dir: HDir) -> (e: Element) {
        proof {
            self.lemma_bounded();
        }
        let n = self.children.len();
        let ghost tag = "g"@;
        let ghost attrs = attrs_extend(Seq::empty(), self.attrs());
        let ghost b = Bounds::at(x as int, y as int, self.spec_width(), self.spec_height());
        let mut g = Element::new("g").set_all(&self.attributes);
        proof {
            lemma_group_empty(tag, attrs, b);
            lemma_maxima(self.children());
            assert(self.child_shapes(0, x, y, h_dir) =~= Seq::empty());
        }
        let mut running_y: i64 = 0;
        let mut i: usize = 0;
        while i < n
            invariant
                i <= n,
                n == self.children().len(),
                self.valid(),
                in_bounds(self.spec_entry_height(), self.spec_height(), self.spec_width()),
                placeable(x as int, self.spec_width()),
                placeable(y as int, self.spec_height()),
                tag == "g"@,
                attrs == attrs_extend(Seq::empty(), self.attrs()),
                b == Bounds::at(x as int, y as int, self.spec_width(), self.spec_height()),
                running_y == self.offset(i as int),
                0 <= running_y <= 2 * MAX_EXTENT,
                g@ == markup(
                    Shape::Group { tag, attrs, children: self.child_shapes(i as int, x, y, h_dir) },
                ),
                within(
                    Shape::Group { tag, attrs, children: self.child_shapes(i as int, x, y, h_dir) },
                    b,
                ),
                forall|j: int|
                    0 <= j < n ==> (#[trigger] self.children()[j]).spec_width() <= self.spec_width(),
            decreases n - i,
        {
            let child = &self.children[i];
            proof {
                assert(well_formed(&self.children()[i as int]));
                self.lemma_offset_bound(i as int);
            }
            let cy = y + running_y;
            let e = child.draw(x, cy, h_dir);
            proof {
                let done = self.child_shapes(i as int, x, y, h_dir);
                let s = self.child_shape(i as int, x, y, h_dir);
                lemma_within_larger(
                    s,
                    Bounds::at(x as int, cy as int, child.spec_width(), child.spec_height()),
                    b,
                );
                lemma_group_push(tag, attrs, done, s, b);
                assert(done.push(s) =~= self.child_shapes(i + 1, x, y, h_dir));
            }
            g.push(e);
            running_y = running_y + child.height() + self.spacing;
            i += 1;
        }
        g
    }
}

/// A horizontal group of unconnected elements.
#[derive(Debug, Clone)]
pub struct HorizontalGrid<N> {
    children: Vec<N>,
    spacing: i64,
    attributes: Attributes,
}

impl<N> HorizontalGrid<N> {
    /// The children, from left to right.
    pub closed spec fn children(&self) -> Seq<N> {
        self.children@
    }

    /// The distance between two neighbours.
    pub closed spec fn spacing(&self) -> int {
        self.spacing as int
    }

    /// The attributes of the group that is drawn.
    pub closed spec fn attrs(&self) -> AttrSeq {
        self.attributes@
    }

    #[must_use]
    pub fn new(children: Vec<N>) -> (h: Self)
        ensures
            h.children() == children@,
            h.spacing() == ARC_RADIUS,
            h.attrs() == attrs_insert(Seq::empty(), "class"@, "horizontalgrid"@),
    {
        let mut attributes = Attributes::new();
        attributes.insert("class".to_owned(), "horizontalgrid".to_owned());
        Self { children, spacing: ARC_RADIUS, attributes }
    }

    pub fn push(&mut self, child: N) -> (r: &mut Self)
        ensures
            r.children() == old(self).children().push(child),
            r.spacing() == old(self).spacing(),
            r.attrs() == old(self).attrs(),
            *final(self) == *final(r),
    {
        self.children.push(child);
        self
    }

    #[must_use]
    pub fn into_inner(self) -> (v: Vec<N>)
        ensures
            v@ == self.children(),
    {
        self.children
    }

    /// Set an attribute on the main SVG-element that will be drawn.
    pub fn attr(&mut self, key: String, value: String)
        ensures
            final(self).attrs() == attrs_insert(old(self).attrs(), key@, value@),
            final(self).children() == old(self).children(),
            final(self).spacing() == old(self).spacing(),
    {
        self.attributes.insert(key, value);
    }
}

impl<N> Default for HorizontalGrid<N> {
    fn default() -> (h: Self)
        ensures
            h.children() == Seq::<N>::empty(),
            h.spacing() == ARC_RADIUS,
            h.attrs() == Seq::<(Seq<char>, Seq<char>)>::empty(),
    {
        Self { children: Vec::new(), spacing: ARC_RADIUS, attributes: Attributes::new() }
    }
}

impl<N: Node> HorizontalGrid<N> {
    /// How far the child at position `i` stands from the left edge.
    pub open spec fn offset(&self, i: int) -> int
        decreases i,
    {
        if i <= 0 {
            0
        } else {
            self.offset(i - 1) + self.children()[i - 1].spec_width() + self.spacing()
        }
    }

    /// What the child at position `i` draws.
    pub open spec fn child_shape(&self, i: int, x: i64, y: i64, h_dir: HDir) -> Shape {
        self.children()[i].shape((x + self.offset(i)) as i64, y, h_dir)
    }

    /// What the first `n` children draw.
    pub open spec fn child_shapes(&self, n: int, x: i64, y: i64, h_dir: HDir) -> Seq<Shape> {
        Seq::new(n as nat, |i: int| self.child_shape(i, x, y, h_dir))
    }

    /// The offsets are the widths of the children so far and one gap for
    /// each.
    pub proof fn lemma_offset(&self, i: int)
        requires
            0 <= i <= self.children().len(),
        ensures
            self.offset(i) == total_width(self.children().take(i)) + i * self.spacing(),
        decreases i,
    {
        if i > 0 {
            self.lemma_offset(i - 1);
            lemma_totals_step(self.children(), i - 1);
            assert(i * self.spacing() == (i - 1) * self.spacing() + self.spacing())
                by (nonlinear_arith);
        } else {
            assert(self.children().take(0) =~= Seq::empty());
        }
    }

    /// Every child stands inside the width of the grid.
    pub proof fn lemma_offset_bound(&self, i: int)
        requires
            self.valid(),
            0 <= i < self.children().len(),
        ensures
            0 <= self.offset(i),
            self.offset(i) + self.children()[i].spec_width() <= self.spec_width(),
    {
        self.lemma_offset(i);
        lemma_totals(self.children(), i);
        lemma_totals(self.children(), i + 1);
        lemma_totals_step(self.children(), i);
        lemma_gaps(i, self.children().len() as int, self.spacing());
    }

    /// The entry height of a valid node lies between zero and its height,
    /// and its width and height between zero and `MAX_EXTENT`.
    pub proof fn lemma_bounded(&self)
        requires
            self.valid(),
        ensures
            in_bounds(self.spec_entry_height(), self.spec_height(), self.spec_width()),
    {
        let n = self.children().len() as int;
        lemma_maxima(self.children());
        lemma_totals(self.children(), n);
        if n > 0 {
            lemma_gaps(0, n, self.spacing());
        }
    }
}

impl<N: Node> Node for HorizontalGrid<N> {
    open spec fn spec_entry_height(&self) -> int {
        0
    }

    open spec fn spec_height(&self) -> int {
        max_height(self.children())
    }

    /// The widths of the children and a gap between each two.
    open spec fn spec_width(&self) -> int {
        total_width(self.children()) + gaps(self.children().len() as int, self.spacing())
    }

    /// The children are well formed, the spacing is not negative, and it,
    /// the number of children and the width are at most `MAX_EXTENT`.
    open spec fn valid(&self) -> bool {
        &&& all_well_formed(self.children())
        &&& 0 <= self.spacing() <= MAX_EXTENT
        &&& self.children().len() <= MAX_EXTENT
        &&& self.spec_width() <= MAX_EXTENT
    }

    open spec fn shape(&self, x: i64, y: i64, h_dir: HDir) -> Shape {
        Shape::Group {
            tag: "g"@,
            attrs: attrs_extend(Seq::empty(), self.attrs()),
            children: self.child_shapes(self.children().len() as int, x, y, h_dir),
        }
    }

    fn is_valid(&self) -> (ok: bool) {
        if self.spacing < 0 || self.spacing > MAX_EXTENT {
            return false;
        }
        if self.children.len() as u64 > MAX_EXTENT as u64 {
            return false;
        }
        if !are_valid(&self.children) {
            return false;
        }
        let ok = match (
            checked_total_width(&self.children),
            checked_gaps(self.children.len(), self.spacing),
        ) {
            (Some(total), Some(gap)) => total + gap <= MAX_EXTENT,
            _ => false,
        };
        proof {
            if ok {
                self.lemma_bounded();
            }
        }
        ok
    }

    fn entry_height(&self) -> (r: i64) {
        proof {
            self.lemma_bounded();
        }
        0
    }

    fn height(&self) -> (r: i64) {
        self.children.max_height()
    }

    fn width(&self) -> (r: i64) {
        proof {
            self.lemma_bounded();
            let n = self.children().len() as int;
            if n > 0 {
                lemma_gaps(n - 1, n, self.spacing());
            }
        }
        self.children.total_width() + ((max_of(1, self.children.len() as i64) - 1)
            * self.spacing)
    }

    fn draw(&self, x: i64, y: i64, h_dir: HDir) -> (e: Element) {
        proof {
            self.lemma_bounded();
        }
        let n = self.children.len();
        let ghost tag = "g"@;
        let ghost attrs = attrs_extend(Seq::empty(), self.attrs());
        let ghost b = Bounds::at(x as int, y as int, self.spec_width(), self.spec_height());
        let mut g = Element::new("g").set_all(&self.attributes);
        proof {
            lemma_group_empty(tag, attrs, b);
            lemma_maxima(self.children());
            assert(self.child_shapes(0, x, y, h_dir) =~= Seq::empty());
        }
        let mut running_x: i64 = 0;
        let mut i: usize = 0;
        while i < n
            invariant
                i <= n,
                n == self.children().len(),
                self.valid(),
                in_bounds(self.spec_entry_height(), self.spec_height(), self.spec_width()),
                placeable(x as int, self.spec_width()),
                placeable(y as int, self.spec_height()),
                tag == "g"@,
                attrs == attrs_extend(Seq::empty(), self.attrs()),
                b == Bounds::at(x as int, y as int, self.spec_width(), self.spec_height()),
                running_x == self.offset(i as int),
                0 <= running_x <= 2 * MAX_EXTENT,
                g@ == markup(
                    Shape::Group { tag, attrs, children: self.child_shapes(i as int, x, y, h_dir) },
                ),
                within(
                    Shape::Group { tag, attrs, children: self.child_shapes(i as int, x, y, h_dir) },
                    b,
                ),
                forall|j: int|
                    0 <= j < n ==> (#[trigger] self.children()[j]).spec_height()
                        <= self.spec_height(),
            decreases n - i,
        {
            let child = &self.children[i];
            proof {
                assert(well_formed(&self.children()[i as int]));
                self.lemma_offset_bound(i as int);
            }
            let cx = x + running_x;
            let e = child.draw(cx, y, h_dir);
            proof {
                let done = self.child_shapes(i as int, x, y, h_dir);
                let s = self.child_shape(i as int, x, y, h_dir);
                lemma_within_larger(
                    s,
                    Bounds::at(cx as int, y as int, child.spec_width(), child.spec_height()),
                    b,
                );
                lemma_group_push(tag, attrs, done, s, b);
                assert(done.push(s) =~= self.child_shapes(i + 1, x, y, h_dir));
            }
            g.push(e);
            running_x = running_x + child.width() + self.spacing;
            i += 1;
        }
        g
    }
}

} // verus!
