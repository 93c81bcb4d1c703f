//! A vertical group of elements, connected from top to bottom.
use crate::collection::{all_well_formed, are_valid, lemma_maxima, max_width, NodeCollection};
use crate::node::{in_bounds, max, max_of, placeable, well_formed, Node, ARC_RADIUS, MAX_EXTENT};
use crate::notactuallysvg::attributes::{attrs_extend, attrs_insert, Attributes, AttrSeq};
use crate::notactuallysvg::element::Element;
use crate::notactuallysvg::path::{half, Arc, Bounds, HDir, PathCmd, PathData};
use crate::shape::{lemma_group_empty, lemma_group_push, lemma_within_larger, markup, within, Shape};
use vstd::prelude::*;

verus! {

/// A vertical group of elements, drawn from top to bottom.
///
/// Also see `Sequence` for a horizontal group of elements.
#[derive(Debug, Clone)]
pub struct Stack<N> {
    children: Vec<N>,
    left_padding: i64,
    right_padding: i64,
    spacing: i64,
    attributes: Attributes,
}

impl<N> Stack<N> {
    /// The children, from top to bottom.
    pub closed spec fn children(&self) -> Seq<N> {
        self.children@
    }

    /// The least padding on the left.
    pub closed spec fn raw_left_padding(&self) -> int {
        self.left_padding as int
    }

    /// The least padding on the right.
    pub closed spec fn raw_right_padding(&self) -> int {
        self.right_padding as int
    }

    /// The least distance between two neighbours.
    pub closed spec fn spacing(&self) -> int {
        self.spacing as int
    }

    /// The attributes of the group that is drawn.
    pub closed spec fn attrs(&self) -> AttrSeq {
        self.attributes@
    }

    #[must_use]
    pub fn new(children: Vec<N>) -> (s: Self)
        ensures
            s.children() == children@,
            s.raw_left_padding() == 10,
            s.raw_right_padding() == 10,
            s.spacing() == ARC_RADIUS,
            s.attrs() == attrs_insert(Seq::empty(), "class"@, "stack"@),
    {
        let mut attributes = Attributes::new();
        attributes.insert("class".to_owned(), "stack".to_owned());
        Self { children, left_padding: 10, right_padding: 10, spacing: ARC_RADIUS, attributes }
    }

    pub fn push(&mut self, child: N)
        ensures
            final(self).children() == old(self).children().push(child),
            final(self).raw_left_padding() == old(self).raw_left_padding(),
            final(self).raw_right_padding() == old(self).raw_right_padding(),
            final(self).spacing() == old(self).spacing(),
            final(self).attrs() == old(self).attrs(),
    {
        self.children.push(child);
    }

    #[must_use]
    pub fn into_inner(self) -> (v: Vec<N>)
        ensures
            v@ == self.children(),
    {
        self.children
    }

    /// Set an attribute on the main SVG-element that will be drawn.
    pub fn attr(&mut self, key: String, value: String)
        ensures
            final(self).attrs() == attrs_insert(old(self).attrs(), key@, value@),
            final(self).children() == old(self).children(),
            final(self).raw_left_padding() == old(self).raw_left_padding(),
            final(self).raw_right_padding() == old(self).raw_right_padding(),
            final(self).spacing() == old(self).spacing(),
    {
        self.attributes.insert(key, value);
    }
}

impl<N> Default for Stack<N> {
    fn default() -> (s: Self)
        ensures
            s.children() == Seq::<N>::empty(),
            s.raw_left_padding() == 10,
            s.raw_right_padding() == 10,
            s.spacing() == ARC_RADIUS,
            s.attrs() == AttrSeq::empty(),
    {
        Self {
            children: Vec::new(),
            left_padding: 10,
            right_padding: 10,
            spacing: ARC_RADIUS,
            attributes: Attributes::new(),
        }
    }
}

/// What is left of the spacing, halved and rounded up, when the two arcs
/// between two children are taken off.
pub open spec fn slack(spacing: int) -> int {
    let d = spacing - ARC_RADIUS * 2;
    max(0, half(d) + (d - 2 * half(d)))
}

impl<N: Node> Stack<N> {
    /// The height that a child takes that is followed by another: its
    /// entry height; below its entry line what it has there and the
    /// spacing, or two arcs where that is less; one more arc; and what the
    /// entry height of the next child lacks of an arc.
    pub open spec fn spec_padded_height(&self, child: &N, next_child: &N) -> int {
        child.spec_entry_height() + max(
            child.spec_height() - child.spec_entry_height() + self.spacing(),
            ARC_RADIUS * 2,
        ) + ARC_RADIUS + max(0, ARC_RADIUS - next_child.spec_entry_height())
    }

    /// The height that a child takes that is followed by another.
    pub fn padded_height(&self, child: &N, next_child: &N) -> (r: i64)
        requires
            well_formed(child),
            well_formed(next_child),
            0 <= self.spacing() <= MAX_EXTENT,
        ensures
            r == self.spec_padded_height(child, next_child),
            child.spec_height() <= r,
            ARC_RADIUS * 3 <= r,
    {
        child.entry_height() + max_of(child.height_below_entry() + self.spacing, ARC_RADIUS * 2)
            + ARC_RADIUS + max_of(0, ARC_RADIUS - next_child.entry_height())
    }

    /// The padding on the left: none for fewer than two children, else at
    /// least one arc.
    pub open spec fn spec_left_padding(&self) -> int {
        if self.children().len() > 1 {
            max(self.raw_left_padding(), ARC_RADIUS as int)
        } else {
            0
        }
    }

    /// The padding on the right: none for fewer than two children, else
    /// at least two arcs.
    pub open spec fn spec_right_padding(&self) -> int {
        if self.children().len() > 1 {
            max(self.raw_right_padding(), ARC_RADIUS * 2)
        } else {
            0
        }
    }

    /// The padding on the left.
    pub fn left_padding(&self) -> (r: i64)
        ensures
            r == self.spec_left_padding(),
    {
        if self.children.len() > 1 {
            max_of(self.left_padding, ARC_RADIUS)
        } else {
            0
        }
    }

    /// The padding on the right.
    pub fn right_padding(&self) -> (r: i64)
        ensures
            r == self.spec_right_padding(),
    {
        if self.children.len() > 1 {
            max_of(self.right_padding, ARC_RADIUS * 2)
        } else {
            0
        }
    }

    /// How far the child at position `i` stands from the top edge: below
    /// the padded heights of the children before it.
    pub open spec fn top(&self, i: int) -> int
        decreases i,
    {
        if i <= 0 {
            0
        } else {
            self.top(i - 1) + self.spec_padded_height(
                &self.children()[i - 1],
                &self.children()[i],
            )
        }
    }

    /// Some child but the last is at least as wide as the last, so that
    /// the connector that returns from the last child needs room of its own.
    pub open spec fn crowded(&self) -> bool {
        exists|i: int|
            0 <= i < self.children().len() - 1 && (#[trigger] self.children()[i]).spec_width()
                >= self.children().last().spec_width()
    }

    /// The line from the left edge to the first child.
    pub open spec fn lead_in(&self, x: i64, y: i64) -> Seq<PathCmd> {
        seq![
            PathCmd::MoveTo { x, y: (y + self.spec_entry_height()) as i64 },
            PathCmd::Horizontal { len: self.spec_left_padding() as i64 },
        ]
    }

    /// The connector from the right end of the child at position `i`
    /// down, back to the left and down to the left end of the next child.
    pub open spec fn connector(&self, i: int, x: i64, y: i64) -> Seq<PathCmd> {
        let r = ARC_RADIUS;
        let child = self.children()[i];
        let next = self.children()[i + 1];
        seq![
            PathCmd::MoveTo {
                x: (x + self.spec_left_padding() + child.spec_width()) as i64,
                y: (y + self.top(i) + child.spec_entry_height()) as i64,
            },
            PathCmd::Arc { radius: r, kind: Arc::WestToSouth },
            PathCmd::Vertical {
                len: max(
                    0,
                    child.spec_height() - child.spec_entry_height() + self.spacing() - r * 2,
                ) as i64,
            },
            PathCmd::Arc { radius: r, kind: Arc::NorthToWest },
            PathCmd::Horizontal { len: (-child.spec_width()) as i64 },
            PathCmd::Arc { radius: r, kind: Arc::EastToSouth },
            PathCmd::Vertical { len: max(0, next.spec_entry_height() - r) as i64 },
            PathCmd::Vertical { len: slack(self.spacing()) as i64 },
            PathCmd::Arc { radius: r, kind: Arc::NorthToEast },
            PathCmd::Horizontal { len: (self.spec_left_padding() - r) as i64 },
        ]
    }

    /// The connector from the right end of the last child up to the entry
    /// line on the right edge.
    pub open spec fn way_back(&self, x: i64, y: i64) -> Seq<PathCmd> {
        let r = ARC_RADIUS;
        let i = self.children().len() - 1;
        let child = self.children()[i];
        seq![
            PathCmd::MoveTo {
                x: (x + self.spec_left_padding() + child.spec_width()) as i64,
                y: (y + self.top(i) + child.spec_entry_height()) as i64,
            },
            PathCmd::Horizontal {
                len: (self.spec_width() - child.spec_width() - self.spec_left_padding() - r * 2) as i64,
            },
            PathCmd::Arc { radius: r, kind: Arc::WestToNorth },
            PathCmd::Vertical {
                len: (-self.spec_height() + child.spec_height() - child.spec_entry_height() + r * 2
                    + self.spec_entry_height()) as i64,
            },
            PathCmd::Arc { radius: r, kind: Arc::SouthToEast },
        ]
    }

    /// What the child at position `i` draws: it stands behind the padding
    /// on the left, below the children before it.
    pub open spec fn child_shape(&self, i: int, x: i64, y: i64, h_dir: HDir) -> Shape {
        self.children()[i].shape(
            (x + self.spec_left_padding()) as i64,
            (y + self.top(i)) as i64,
            h_dir,
        )
    }

    /// The lead-in and, for each of the first `k` children, its connector
    /// to the next child and then what the child draws.
    pub open spec fn drawn(&self, k: int, x: i64, y: i64, h_dir: HDir) -> Seq<Shape>
        decreases k,
    {
        if k <= 0 {
            seq![Shape::Path { cmds: self.lead_in(x, y), dir: h_dir }]
        } else {
            self.drawn(k - 1, x, y, h_dir).push(
                Shape::Path { cmds: self.connector(k - 1, x, y), dir: h_dir },
            ).push(self.child_shape(k - 1, x, y, h_dir))
        }
    }

    /// Everything that is drawn: after the children that have a next
    /// child, the last child, with its way back where it is not the only
    /// one.
    pub open spec fn all_drawn(&self, x: i64, y: i64, h_dir: HDir) -> Seq<Shape> {
        let n = self.children().len() as int;
        if n == 0 {
            self.drawn(0, x, y, h_dir)
        } else if n == 1 {
            self.drawn(0, x, y, h_dir).push(self.child_shape(0, x, y, h_dir))
        } else {
            self.drawn(n - 1, x, y, h_dir).push(
                Shape::Path { cmds: self.way_back(x, y), dir: h_dir },
            ).push(self.child_shape(n - 1, x, y, h_dir))
        }
    }

    /// Each child stands below the one before it and above the bottom.
    pub proof fn lemma_top(&self, i: int)
        requires
            all_well_formed(self.children()),
            0 <= self.spacing(),
            0 <= i < self.children().len(),
        ensures
            0 <= self.top(i),
            i > 0 ==> ARC_RADIUS * 3 + self.spec_entry_height() <= self.top(i),
            self.top(i) + self.children()[i].spec_height() <= self.spec_height(),
            i + 1 < self.children().len() ==> self.top(i + 1) == self.top(i)
                + self.spec_padded_height(&self.children()[i], &self.children()[i + 1])
                && self.top(i) + self.children()[i].spec_height() <= self.top(i + 1),
        decreases self.children().len() - i,
    {
        let n = self.children().len() as int;
        assert(well_formed(&self.children()[i]));
        self.lemma_top_rises(i);
        if i + 1 < n {
            assert(well_formed(&self.children()[i + 1]));
            self.lemma_top(i + 1);
        }
    }

    /// The children stand ever lower.
    proof fn lemma_top_rises(&self, i: int)
        requires
            all_well_formed(self.children()),
            0 <= self.spacing(),
            0 <= i < self.children().len(),
        ensures
            0 <= self.top(i),
            i > 0 ==> ARC_RADIUS * 3 + self.spec_entry_height() <= self.top(i),
        decreases i,
    {
        if i > 0 {
            self.lemma_top_rises(i - 1);
            assert(well_formed(&self.children()[i - 1]));
            assert(well_formed(&self.children()[i]));
            assert(well_formed(&self.children()[0]));
        }
    }

    /// The entry height of a valid node lies between zero and its height,
    /// and its width and height between zero and `MAX_EXTENT`.
    pub proof fn lemma_bounded(&self)
        requires
            self.valid(),
        ensures
            in_bounds(self.spec_entry_height(), self.spec_height(), self.spec_width()),
    {
        let n = self.children().len() as int;
        lemma_maxima(self.children());
        if n > 0 {
            assert(well_formed(&self.children()[0]));
            self.lemma_top(0);
            self.lemma_top(n - 1);
        }
    }

    /// A stack without children has no size.
    pub proof fn lemma_no_children(&self)
        requires
            self.children().len() == 0,
        ensures
            self.spec_entry_height() == 0,
            self.spec_height() == 0,
            self.spec_width() == 0,
    {
    }

    /// A stack of one child has the geometry of that child.
    pub proof fn lemma_single_child(&self)
        requires
            self.children().len() == 1,
        ensures
            self.spec_entry_height() == self.children()[0].spec_entry_height(),
            self.spec_height() == self.children()[0].spec_height(),
            self.spec_width() == self.children()[0].spec_width(),
    {
    }

    /// The height, where it is at most `MAX_EXTENT`.
    fn checked_height(&self) -> (r: Option<i64>)
        requires
            all_well_formed(self.children()),
            0 <= self.spacing() <= MAX_EXTENT,
        ensures
            r == (if self.spec_height() <= MAX_EXTENT {
                Some(self.spec_height() as i64)
            } else {
                None
            }),
    {
        let n = self.children.len();
        if n == 0 {
            return Some(0);
        }
        let mut sum: i64 = 0;
        let mut i: usize = 0;
        while i + 1 < n
            invariant
                0 < n == self.children().len(),
                i + 1 <= n,
                all_well_formed(self.children()),
                0 <= self.spacing() <= MAX_EXTENT,
                sum == self.top(i as int),
                0 <= sum <= MAX_EXTENT,
            decreases n - i,
        {
            proof {
                assert(well_formed(&self.children()[i as int]));
                assert(well_formed(&self.children()[i + 1]));
                self.lemma_top(i as int);
                self.lemma_top(i + 1);
            }
            sum = sum + self.padded_height(&self.children[i], &self.children[i + 1]);
            if sum > MAX_EXTENT {
                return None;
            }
            i += 1;
        }
        proof {
            assert(well_formed(&self.children()[n - 1]));
            self.lemma_top(n - 1);
        }
        let height = sum + self.children[n - 1].height();
        if height <= MAX_EXTENT {
            Some(height)
        } else {
            None
        }
    }

    /// Whether some child but the last is at least as wide as the last.
    fn is_crowded(&self) -> (r: bool)
        requires
            all_well_formed(self.children()),
        ensures
            r == self.crowded(),
    {
        let n = self.children.len();
        if n == 0 {
            return false;
        }
        assert(well_formed(&self.children()[n - 1]));
        let last_width = self.children[n - 1].width();
        let mut i: usize = 0;
        while i + 1 < n
            invariant
                0 < n == self.children().len(),
                i + 1 <= n,
                all_well_formed(self.children()),
                last_width == self.children().last().spec_width(),
                forall|j: int|
                    0 <= j < i ==> (#[trigger] self.children()[j]).spec_width() < last_width,
            decreases n - i,
        {
            assert(well_formed(&self.children()[i as int]));
            if self.children[i].width() >= last_width {
                return true;
            }
            i += 1;
        }
        false
    }
}

impl<N: Node> Node for Stack<N> {
    /// The entry height of the first child.
    open spec fn spec_entry_height(&self) -> int {
        if self.children().len() == 0 {
            0
        } else {
            self.children()[0].spec_entry_height()
        }
    }

    /// The padded heights of the children that have a next child, and the
    /// height of the last child.
    open spec fn spec_height(&self) -> int {
        let n = self.children().len() as int;
        if n == 0 {
            0
        } else {
            self.top(n - 1) + self.children()[n - 1].spec_height()
        }
    }

    /// The paddings and the largest width of the children, and one arc
    /// more for the way back where it would touch the connectors.
    open spec fn spec_width(&self) -> int {
        self.spec_left_padding() + max_width(self.children()) + self.spec_right_padding() + (
        if self.crowded() {
            ARC_RADIUS as int
        } else {
            0
        })
    }

    /// The children are well formed, the spacing lies between nothing and
    /// two arcs, the padding on the left is at most one arc, and the
    /// padding on the right, the width and the height are at most
    /// `MAX_EXTENT`.
    open spec fn valid(&self) -> bool {
        &&& all_well_formed(self.children())
        &&& 0 <= self.spacing() <= ARC_RADIUS * 2
        &&& -MAX_EXTENT <= self.raw_left_padding() <= ARC_RADIUS
        &&& -MAX_EXTENT <= self.raw_right_padding() <= MAX_EXTENT
        &&& self.spec_width() <= MAX_EXTENT
        &&& self.spec_height() <= MAX_EXTENT
    }

    open spec fn shape(&self, x: i64, y: i64, h_dir: HDir) -> Shape {
        Shape::Group {
            tag: "g"@,
            attrs: attrs_extend(Seq::empty(), self.attrs()),
            children: self.all_drawn(x, y, h_dir),
        }
    }

    fn is_valid(&self) -> (ok: bool) {
        if self.spacing < 0 || self.spacing > ARC_RADIUS * 2 {
            return false;
        }
        if self.left_padding < -MAX_EXTENT || self.left_padding > ARC_RADIUS
            || self.right_padding < -MAX_EXTENT || self.right_padding > MAX_EXTENT {
            return false;
        }
        if !are_valid(&self.children) {
            return false;
        }
        let l = self.left_padding() + self.children.max_width() + self.right_padding();
        let width = if self.is_crowded() {
            l + ARC_RADIUS
        } else {
            l
        };
        let ok = width <= MAX_EXTENT && self.checked_height().is_some();
        proof {
            if ok {
                self.lemma_bounded();
            }
        }
        ok
    }

    fn entry_height(&self) -> (r: i64) {
        proof {
            self.lemma_bounded();
        }
        if self.children.len() == 0 {
            0
        } else {
            assert(well_formed(&self.children()[0]));
            self.children[0].entry_height()
        }
    }

    fn height(&self) -> (r: i64) {
        proof {
            self.lemma_bounded();
        }
        let n = self.children.len();
        if n == 0 {
            return 0;
        }
        let mut sum: i64 = 0;
        let mut i: usize = 0;
        while i + 1 < n
            invariant
                0 < n == self.children().len(),
                i + 1 <= n,
                self.valid(),
                sum == self.top(i as int),
                0 <= sum <= MAX_EXTENT,
            decreases n - i,
        {
            proof {
                assert(well_formed(&self.children()[i as int]));
                assert(well_formed(&self.children()[i + 1]));
                self.lemma_top(i as int);
                self.lemma_top(i + 1);
            }
            sum = sum + self.padded_height(&self.children[i], &self.children[i + 1]);
            i += 1;
        }
        proof {
            assert(well_formed(&self.children()[n - 1]));
            self.lemma_top(n - 1);
        }
        sum + self.children[n - 1].height()
    }

    fn width(&self) -> (r: i64) {
        proof {
            self.lemma_bounded();
            lemma_maxima(self.children());
        }
        let l = self.left_padding() + self.children.max_width() + self.right_padding();
        // If the final upwards connector touches the downward ones, add some space
        if self.is_crowded() {
            l + ARC_RADIUS
        } else {
            l
        }
    }

    fn draw(&self, x: i64, y: i64, h_dir: HDir) -> (e: Element) {
        proof {
            self.lemma_bounded();
            lemma_maxima(self.children());
        }
        let n = self.children.len();
        let entry = self.entry_height();
        let width = self.width();
        let height = self.height();
        let lp = self.left_padding();
        let ghost tag = "g"@;
        let ghost attrs = attrs_extend(Seq::empty(), self.attrs());
        let ghost b = Bounds::at(x as int, y as int, self.spec_width(), self.spec_height());
        let lead = PathData::new(h_dir).move_to(x, y + entry).horizontal(lp);
        proof {
            let ls = Shape::Path { cmds: self.lead_in(x, y), dir: h_dir };
            assert(lead@ =~= self.lead_in(x, y));
            lemma_group_empty(tag, attrs, b);
            lemma_group_push(tag, attrs, Seq::empty(), ls, b);
            assert(Seq::<Shape>::empty().push(ls) =~= self.drawn(0, x, y, h_dir));
        }
        let mut g = Element::new("g").set_all(&self.attributes).add(lead.into_path());
        // Draw all the children but the last
        let mut running_y: i64 = 0;
        let mut i: usize = 0;
        while i + 1 < n
            invariant
                i == 0 || i + 1 <= n,
                n == self.children().len(),
                self.valid(),
                in_bounds(self.spec_entry_height(), self.spec_height(), self.spec_width()),
                placeable(x as int, self.spec_width()),
                placeable(y as int, self.spec_height()),
                lp == self.spec_left_padding(),
                tag == "g"@,
                attrs == attrs_extend(Seq::empty(), self.attrs()),
                b == Bounds::at(x as int, y as int, self.spec_width(), self.spec_height()),
                running_y == self.top(i as int),
                0 <= running_y <= MAX_EXTENT,
                g@ == markup(Shape::Group { tag, attrs, children: self.drawn(i as int, x, y, h_dir) }),
                within(Shape::Group { tag, attrs, children: self.drawn(i as int, x, y, h_dir) }, b),
                forall|j: int|
                    0 <= j < n ==> (#[trigger] self.children()[j]).spec_width() <= max_width(
                        self.children(),
                    ),
            decreases n - i,
        {
            let child = &self.children[i];
            let next_child = &self.children[i + 1];
            proof {
                assert(well_formed(&self.children()[i as int]));
                assert(well_formed(&self.children()[i + 1]));
                self.lemma_top(i as int);
                self.lemma_top(i + 1);
            }
            let d = self.spacing - ARC_RADIUS * 2;
            let h = d / 2;
            let p = PathData::new(h_dir).move_to(
                x + lp + child.width(),
                y + running_y + child.entry_height(),
            ).arc(ARC_RADIUS, Arc::WestToSouth).vertical(
                max_of(0, child.height_below_entry() + self.spacing - ARC_RADIUS * 2),
            ).arc(ARC_RADIUS, Arc::NorthToWest).horizontal(-child.width()).arc(
                ARC_RADIUS,
                Arc::EastToSouth,
            ).vertical(max_of(0, next_child.entry_height() - ARC_RADIUS)).vertical(
                max_of(0, h + (d - 2 * h)),
            ).arc(ARC_RADIUS, Arc::NorthToEast).horizontal(lp - ARC_RADIUS);
            let cy = y + running_y;
            let e = child.draw(x + lp, cy, h_dir);
            proof {
                let done = self.drawn(i as int, x, y, h_dir);
                let ps = Shape::Path { cmds: self.connector(i as int, x, y), dir: h_dir };
                let cs = self.child_shape(i as int, x, y, h_dir);
                assert(p@ =~= self.connector(i as int, x, y));
                lemma_within_larger(
                    cs,
                    Bounds::at(x + lp, cy as int, child.spec_width(), child.spec_height()),
                    b,
                );
                lemma_group_push(tag, attrs, done, ps, b);
                lemma_group_push(tag, attrs, done.push(ps), cs, b);
            }
            g.push(p.into_path());
            g.push(e);
            running_y = running_y + self.padded_height(child, next_child);
            i += 1;
        }
        // Draw the last (possibly only) child and its connectors
        if n > 0 {
            let child = &self.children[n - 1];
            proof {
                assert(well_formed(&self.children()[n - 1]));
                self.lemma_top(n - 1);
            }
            let ghost done = self.drawn(i as int, x, y, h_dir);
            let ghost ps = Shape::Path { cmds: self.way_back(x, y), dir: h_dir };
            let ghost cs = self.child_shape(n - 1, x, y, h_dir);
            if n > 1 {
                let p = PathData::new(h_dir).move_to(
                    x + lp + child.width(),
                    y + running_y + child.entry_height(),
                ).horizontal(width - child.width() - lp - ARC_RADIUS * 2).arc(
                    ARC_RADIUS,
                    Arc::WestToNorth,
                ).vertical(-height + child.height_below_entry() + ARC_RADIUS * 2 + entry).arc(
                    ARC_RADIUS,
                    Arc::SouthToEast,
                );
                proof {
                    assert(p@ =~= self.way_back(x, y));
                    lemma_group_push(tag, attrs, done, ps, b);
                }
                g.push(p.into_path());
            }
            let cy = y + running_y;
            let e = child.draw(x + lp, cy, h_dir);
            proof {
                lemma_within_larger(
                    cs,
                    Bounds::at(x + lp, cy as int, child.spec_width(), child.spec_height()),
                    b,
                );
                if n > 1 {
                    lemma_group_push(tag, attrs, done.push(ps), cs, b);
                } else {
                    lemma_group_push(tag, attrs, done, cs, b);
                }
            }
            g.push(e);
        }
        g
    }
}

} // verus!
