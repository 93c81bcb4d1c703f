//! A vertical group of elements of which one is taken.
use crate::collection::{all_well_formed, are_valid, lemma_maxima, max_width, NodeCollection};
use crate::node::{in_bounds, max, max_of, placeable, well_formed, Node, ARC_RADIUS, MAX_EXTENT};
use crate::notactuallysvg::attributes::{attrs_extend, attrs_insert, Attributes, AttrSeq};
use crate::notactuallysvg::element::Element;
use crate::notactuallysvg::path::{Arc, Bounds, HDir, PathCmd, PathData};
use crate::shape::{lemma_group_empty, lemma_group_push, lemma_within_larger, markup, within, Shape};
use vstd::prelude::*;

verus! {

/// A container of elements, drawn vertically, where exactly one element has to be picked
///
/// Use `Empty` as one of the elements to make the entire `Choice` optional (a shorthand for
/// `Optional(Choice(..))`.
#[derive(Debug, Clone)]
pub struct Choice<N> {
    children: Vec<N>,
    spacing: i64,
    attributes: Attributes,
}

impl<N> Choice<N> {
    /// The alternatives, from top to bottom.
    pub closed spec fn children(&self) -> Seq<N> {
        self.children@
    }

    /// The distance between two alternatives.
    pub closed spec fn spacing(&self) -> int {
        self.spacing as int
    }

    /// The attributes of the group that is drawn.
    pub closed spec fn attrs(&self) -> AttrSeq {
        self.attributes@
    }

    #[must_use]
    pub fn new(children: Vec<N>) -> (c: Self)
        ensures
            c.children() == children@,
            c.spacing() == 10,
            c.attrs() == attrs_insert(Seq::empty(), "class"@, "choice"@),
    {
        let mut attributes = Attributes::new();
        attributes.insert("class".to_owned(), "choice".to_owned());
        Self { children, spacing: 10, attributes }
    }

    pub fn push(&mut self, child: N)
        ensures
            final(self).children() == old(self).children().push(child),
            final(self).spacing() == old(self).spacing(),
            final(self).attrs() == old(self).attrs(),
    {
        self.children.push(child);
    }

    /// Set an attribute on the main SVG-element that will be drawn.
    pub fn attr(&mut self, key: String, value: String)
        ensures
            final(self).attrs() == attrs_insert(old(self).attrs(), key@, value@),
            final(self).children() == old(self).children(),
            final(self).spacing() == old(self).spacing(),
    {
        self.attributes.insert(key, value);
    }

    #[must_use]
    pub fn into_inner(self) -> (v: Vec<N>)
        ensures
            v@ == self.children(),
    {
        self.children
    }

    /// The room between the edges and the alternatives: none for fewer
    /// than two alternatives, else two arcs.
    pub open spec fn spec_inner_padding(&self) -> int {
        if self.children().len() > 1 {
            ARC_RADIUS * 2
        } else {
            0
        }
    }

    /// The room between the edges and the alternatives.
    pub fn inner_padding(&self) -> (r: i64)
        ensures
            r == self.spec_inner_padding(),
    {
        if self.children.len() > 1 {
            ARC_RADIUS * 2
        } else {
            0
        }
    }
}

impl<N> Default for Choice<N> {
    fn default() -> (c: Self)
        ensures
            c.children() == Seq::<N>::empty(),
            c.spacing() == 10,
            c.attrs() == AttrSeq::empty(),
    {
        Self { children: Vec::new(), spacing: 10, attributes: Attributes::new() }
    }
}

impl<N: Node> Choice<N> {
    /// The height that an alternative below the first takes: its entry
    /// height or one arc where that is less, what it has below its entry
    /// line, and the spacing.
    pub open spec fn spec_padded_height(&self, child: &N) -> int {
        max(ARC_RADIUS as int, child.spec_entry_height()) + child.spec_height()
            - child.spec_entry_height() + self.spacing()
    }

    /// The height that an alternative below the first takes.
    pub fn padded_height(&self, child: &N) -> (r: i64)
        requires
            well_formed(child),
            0 <= self.spacing() <= MAX_EXTENT,
        ensures
            r == self.spec_padded_height(child),
            ARC_RADIUS + self.spacing() <= r,
            child.spec_height() + self.spacing() <= r,
    {
        max_of(ARC_RADIUS, child.entry_height()) + child.height_below_entry() + self.spacing
    }

    /// The width of the first alternative, nothing where there is none.
    pub open spec fn first_width(&self) -> int {
        if self.children().len() == 0 {
            0
        } else {
            self.children()[0].spec_width()
        }
    }

    /// The distance from the entry line to the top of the second
    /// alternative: one arc at least, and room for what the first
    /// alternative has below its entry line and the spacing.
    pub open spec fn first_drop(&self) -> int {
        max(
            ARC_RADIUS as int,
            self.spacing() + self.children()[0].spec_height()
                - self.children()[0].spec_entry_height(),
        )
    }

    /// The padded heights of the alternatives below the first and above
    /// the one at position `k`.
    pub open spec fn padded_sum(&self, k: int) -> int
        decreases k,
    {
        if k <= 1 {
            0
        } else {
            self.padded_sum(k - 1) + self.spec_padded_height(&self.children()[k - 1])
        }
    }

    /// How far the room of the alternative at position `i`, which is not
    /// the first, begins below the top edge.
    pub open spec fn slot_top(&self, i: int) -> int {
        self.spec_entry_height() + self.first_drop() + self.padded_sum(i)
    }

    /// What the entry height of the alternative at position `i` has more
    /// than one arc.
    pub open spec fn rise(&self, i: int) -> int {
        max(0, self.children()[i].spec_entry_height() - ARC_RADIUS)
    }

    /// The line along the entry line, from edge to edge but for the first
    /// alternative.
    pub open spec fn top_bar(&self, x: i64, y: i64) -> Seq<PathCmd> {
        seq![
            PathCmd::MoveTo { x, y: (y + self.spec_entry_height()) as i64 },
            PathCmd::Horizontal { len: self.spec_inner_padding() as i64 },
            PathCmd::MoveRel { dx: self.first_width() as i64, dy: 0 },
            PathCmd::Horizontal {
                len: (self.spec_width() - self.spec_inner_padding() - self.first_width()) as i64,
            },
        ]
    }

    /// The arcs that lead from the entry line down to the rails on both
    /// sides.
    pub open spec fn drops(&self, x: i64, y: i64) -> Seq<PathCmd> {
        let r = ARC_RADIUS;
        let down = max(
            0,
            self.children()[0].spec_height() - self.children()[0].spec_entry_height()
                + self.spacing() - r,
        );
        seq![
            PathCmd::MoveTo { x, y: (y + self.spec_entry_height()) as i64 },
            PathCmd::Arc { radius: r, kind: Arc::WestToSouth },
            PathCmd::Vertical { len: down as i64 },
            PathCmd::MoveRel { dx: (self.spec_width() - r * 2) as i64, dy: 0 },
            PathCmd::Vertical { len: (-down) as i64 },
            PathCmd::Arc { radius: r, kind: Arc::SouthToEast },
        ]
    }

    /// The rails on both sides past the alternative at position `i`.
    pub open spec fn rail(&self, i: int, x: i64, y: i64) -> Seq<PathCmd> {
        let z = self.spec_padded_height(&self.children()[i]) - self.rise(i);
        seq![
            PathCmd::MoveTo {
                x: (x + ARC_RADIUS) as i64,
                y: (y + self.slot_top(i) + self.rise(i)) as i64,
            },
            PathCmd::Vertical { len: z as i64 },
            PathCmd::MoveRel { dx: (self.spec_width() - ARC_RADIUS * 2) as i64, dy: 0 },
            PathCmd::Vertical { len: (-z) as i64 },
        ]
    }

    /// The arcs that lead from the rails to the alternative at position
    /// `i` and away from it.
    pub open spec fn branch(&self, i: int, x: i64, y: i64) -> Seq<PathCmd> {
        let r = ARC_RADIUS;
        let child = self.children()[i];
        seq![
            PathCmd::MoveTo { x: (x + r) as i64, y: (y + self.slot_top(i)) as i64 },
            PathCmd::Vertical { len: self.rise(i) as i64 },
            PathCmd::Arc { radius: r, kind: Arc::NorthToEast },
            PathCmd::MoveRel { dx: child.spec_width() as i64, dy: 0 },
            PathCmd::Horizontal { len: (max_width(self.children()) - child.spec_width()) as i64 },
            PathCmd::Arc { radius: r, kind: Arc::WestToNorth },
            PathCmd::Vertical { len: (-self.rise(i)) as i64 },
        ]
    }

    /// What the first alternative draws: it stands on the entry line.
    pub open spec fn first_shape(&self, x: i64, y: i64, h_dir: HDir) -> Shape {
        self.children()[0].shape((x + self.spec_inner_padding()) as i64, y, h_dir)
    }

    /// What the alternative at position `i` draws, which is not the first:
    /// it stands two arcs from the left edge, and its entry line at least
    /// one arc below the top of its room.
    pub open spec fn child_shape(&self, i: int, x: i64, y: i64, h_dir: HDir) -> Shape {
        self.children()[i].shape(
            (x + ARC_RADIUS * 2) as i64,
            (y + self.slot_top(i) + max(0, ARC_RADIUS - self.children()[i].spec_entry_height())) as i64,
            h_dir,
        )
    }

    /// The top bar and the first alternative.
    pub open spec fn head(&self, x: i64, y: i64, h_dir: HDir) -> Seq<Shape> {
        let bar = Shape::Path { cmds: self.top_bar(x, y), dir: h_dir };
        if self.children().len() == 0 {
            seq![bar]
        } else {
            seq![bar, self.first_shape(x, y, h_dir)]
        }
    }

    /// The head, the drops and the rails past the alternatives before
    /// position `k`.
    pub open spec fn with_rails(&self, k: int, x: i64, y: i64, h_dir: HDir) -> Seq<Shape>
        decreases k,
    {
        if k <= 1 {
            self.head(x, y, h_dir).push(Shape::Path { cmds: self.drops(x, y), dir: h_dir })
        } else {
            self.with_rails(k - 1, x, y, h_dir).push(
                Shape::Path { cmds: self.rail(k - 1, x, y), dir: h_dir },
            )
        }
    }

    /// All the rails and, for each alternative before position `k` but
    /// the first, its branch and what it draws.
    pub open spec fn with_branches(&self, k: int, x: i64, y: i64, h_dir: HDir) -> Seq<Shape>
        decreases k,
    {
        if k <= 1 {
            self.with_rails(self.children().len() - 1, x, y, h_dir)
        } else {
            self.with_branches(k - 1, x, y, h_dir).push(
                Shape::Path { cmds: self.branch(k - 1, x, y), dir: h_dir },
            ).push(self.child_shape(k - 1, x, y, h_dir))
        }
    }

    /// Everything that is drawn.
    pub open spec fn all_drawn(&self, x: i64, y: i64, h_dir: HDir) -> Seq<Shape> {
        if self.children().len() <= 1 {
            self.head(x, y, h_dir)
        } else {
            self.with_branches(self.children().len() as int, x, y, h_dir)
        }
    }

    /// The padded heights add up.
    proof fn lemma_padded_sum(&self, i: int, j: int)
        requires
            all_well_formed(self.children()),
            0 <= self.spacing(),
            1 <= i <= j <= self.children().len(),
        ensures
            0 <= self.padded_sum(i) <= self.padded_sum(j),
            i < j ==> self.padded_sum(i) + self.spec_padded_height(&self.children()[i])
                <= self.padded_sum(j),
        decreases j,
    {
        if i < j {
            self.lemma_padded_sum(i, j - 1);
            assert(well_formed(&self.children()[j - 1]));
        } else if i > 1 {
            self.lemma_padded_sum(i - 1, i - 1);
            assert(well_formed(&self.children()[i - 1]));
        }
    }

    /// The room of each alternative below the first lies below the entry
    /// line and above the bottom.
    pub proof fn lemma_slot(&self, i: int)
        requires
            self.valid(),
            1 <= i < self.children().len(),
        ensures
            self.spec_entry_height() + ARC_RADIUS <= self.slot_top(i),
            self.spec_entry_height() + self.first_drop() <= self.slot_top(i),
            self.children()[0].spec_height() + self.spacing() <= self.slot_top(i),
            0 <= self.rise(i) <= self.spec_padded_height(&self.children()[i]) - self.spacing()
                - ARC_RADIUS,
            self.slot_top(i) + self.spec_padded_height(&self.children()[i]) - self.spacing()
                <= self.spec_height(),
            ARC_RADIUS * 4 <= self.spec_width(),
            self.slot_top(i + 1) == self.slot_top(i) + self.spec_padded_height(
                &self.children()[i],
            ),
            i + 1 < self.children().len() ==> self.slot_top(i + 1) <= self.spec_height(),
    {
        let n = self.children().len() as int;
        lemma_maxima(self.children());
        self.lemma_padded_sum(i, n);
        if i + 1 < n {
            self.lemma_padded_sum(i + 1, n);
            assert(well_formed(&self.children()[i + 1]));
        }
        assert(well_formed(&self.children()[i]));
        assert(well_formed(&self.children()[0]));
    }

    /// The entry height of a valid node lies between zero and its height,
    /// and its width and height between zero and `MAX_EXTENT`.
    pub proof fn lemma_bounded(&self)
        requires
            self.valid(),
        ensures
            in_bounds(self.spec_entry_height(), self.spec_height(), self.spec_width()),
    {
        let n = self.children().len() as int;
        lemma_maxima(self.children());
        if n > 0 {
            assert(well_formed(&self.children()[0]));
        }
        if n > 1 {
            self.lemma_slot(1);
        }
    }

    /// Draws the bar along the entry line, the first alternative and,
    /// where there are more alternatives, the drops to the rails.
    fn draw_head(&self, x: i64, y: i64, h_dir: HDir) -> (g: Element)
        requires
            self.valid(),
            placeable(x as int, self.spec_width()),
            placeable(y as int, self.spec_height()),
        ensures
            g@ == markup(
                Shape::Group {
                    tag: "g"@,
                    attrs: attrs_extend(Seq::empty(), self.attrs()),
                    children: if self.children().len() > 1 {
                        self.with_rails(1, x, y, h_dir)
                    } else {
                        self.head(x, y, h_dir)
                    },
                },
            ),
            within(
                Shape::Group {
                    tag: "g"@,
                    attrs: attrs_extend(Seq::empty(), self.attrs()),
                    children: if self.children().len() > 1 {
                        self.with_rails(1, x, y, h_dir)
                    } else {
                        self.head(x, y, h_dir)
                    },
                },
                Bounds::at(x as int, y as int, self.spec_width(), self.spec_height()),
            ),
    {
        proof {
            self.lemma_bounded();
            lemma_maxima(self.children());
        }
        let n = self.children.len();
        let entry = self.entry_height();
        let width = self.width();
        let ip = self.inner_padding();
        let ghost tag = "g"@;
        let ghost attrs = attrs_extend(Seq::empty(), self.attrs());
        let ghost b = Bounds::at(x as int, y as int, self.spec_width(), self.spec_height());
        let mut g = Element::new("g").set_all(&self.attributes);
        let first_width = if n > 0 {
            assert(well_formed(&self.children()[0]));
            self.children[0].width()
        } else {
            0
        };
        // The top, horizontal connectors
        let bar = PathData::new(h_dir).move_to(x, y + entry).horizontal(ip).move_rel(
            first_width,
            0,
        ).horizontal(width - ip - first_width);
        let ghost bs = Shape::Path { cmds: self.top_bar(x, y), dir: h_dir };
        proof {
            assert(bar@ =~= self.top_bar(x, y));
            lemma_group_empty(tag, attrs, b);
            lemma_group_push(tag, attrs, Seq::empty(), bs, b);
            assert(Seq::<Shape>::empty().push(bs) =~= seq![bs]);
        }
        g.push(bar.into_path());
        if n == 0 {
            return g;
        }
        // The first child is simply drawn in-line
        proof {
            if n > 1 {
                self.lemma_slot(1);
            }
        }
        let first = self.children[0].draw(x + ip, y, h_dir);
        proof {
            let fs = self.first_shape(x, y, h_dir);
            lemma_within_larger(
                fs,
                Bounds::at(
                    x + ip,
                    y as int,
                    self.children()[0].spec_width(),
                    self.children()[0].spec_height(),
                ),
                b,
            );
            lemma_group_push(tag, attrs, seq![bs], fs, b);
            assert(seq![bs].push(fs) =~= self.head(x, y, h_dir));
        }
        g.push(first);
        if n == 1 {
            return g;
        }
        self.draw_drops(g, x, y, h_dir)
    }

    /// Adds the arcs that lead from the entry line down to the rails.
    fn draw_drops(&self, head: Element, x: i64, y: i64, h_dir: HDir) -> (g: Element)
        requires
            self.valid(),
            self.children().len() > 1,
            placeable(x as int, self.spec_width()),
            placeable(y as int, self.spec_height()),
            head@ == markup(
                Shape::Group {
                    tag: "g"@,
                    attrs: attrs_extend(Seq::empty(), self.attrs()),
                    children: self.head(x, y, h_dir),
                },
            ),
            within(
                Shape::Group {
                    tag: "g"@,
                    attrs: attrs_extend(Seq::empty(), self.attrs()),
                    children: self.head(x, y, h_dir),
                },
                Bounds::at(x as int, y as int, self.spec_width(), self.spec_height()),
            ),
        ensures
            g@ == markup(
                Shape::Group {
                    tag: "g"@,
                    attrs: attrs_extend(Seq::empty(), self.attrs()),
                    children: self.with_rails(1, x, y, h_dir),
                },
            ),
            within(
                Shape::Group {
                    tag: "g"@,
                    attrs: attrs_extend(Seq::empty(), self.attrs()),
                    children: self.with_rails(1, x, y, h_dir),
                },
                Bounds::at(x as int, y as int, self.spec_width(), self.spec_height()),
            ),
    {
        proof {
            self.lemma_bounded();
            self.lemma_slot(1);
            assert(well_formed(&self.children()[0]));
        }
        let ghost tag = "g"@;
        let ghost attrs = attrs_extend(Seq::empty(), self.attrs());
        let ghost b = Bounds::at(x as int, y as int, self.spec_width(), self.spec_height());
        let entry = self.entry_height();
        let width = self.width();
        let below = self.children[0].height_below_entry();
        let down = max_of(0, below + self.spacing - ARC_RADIUS);
        // The downward arcs
        let arcs = PathData::new(h_dir).move_to(x, y + entry).arc(ARC_RADIUS, Arc::WestToSouth).vertical(
            down,
        ).move_rel(width - ARC_RADIUS * 2, 0).vertical(-down).arc(ARC_RADIUS, Arc::SouthToEast);
        proof {
            let ds = Shape::Path { cmds: self.drops(x, y), dir: h_dir };
            assert(arcs@ =~= self.drops(x, y));
            lemma_group_push(tag, attrs, self.head(x, y, h_dir), ds, b);
        }
        let mut g = head;
        g.push(arcs.into_path());
        g
    }

    /// The height, where it is at most `MAX_EXTENT`.
    fn checked_height(&self) -> (r: Option<i64>)
        requires
            all_well_formed(self.children()),
            0 <= self.spacing() <= MAX_EXTENT,
        ensures
            r == (if self.spec_height() <= MAX_EXTENT {
                Some(self.spec_height() as i64)
            } else {
                None
            }),
    {
        let n = self.children.len();
        if n == 0 {
            return Some(0);
        }
        assert(well_formed(&self.children()[0]));
        if n == 1 {
            return Some(self.children[0].height());
        }
        proof {
            self.lemma_padded_sum(1, n as int);
        }
        let base = self.children[0].entry_height() + max_of(
            ARC_RADIUS,
            self.spacing + self.children[0].height_below_entry(),
        );
        let mut sum: i64 = 0;
        let mut i: usize = 1;
        while i < n
            invariant
                1 <= i <= n,
                1 < n == self.children().len(),
                all_well_formed(self.children()),
                0 <= self.spacing() <= MAX_EXTENT,
                base == self.spec_entry_height() + self.first_drop(),
                0 <= base <= 3 * MAX_EXTENT,
                sum == self.padded_sum(i as int),
                0 <= sum <= 2 * MAX_EXTENT,
                i > 1 ==> base + sum - self.spacing() <= MAX_EXTENT,
            decreases n - i,
        {
            proof {
                assert(well_formed(&self.children()[i as int]));
                self.lemma_padded_sum(i + 1, n as int);
                self.lemma_padded_sum(i as int, i + 1);
            }
            sum = sum + self.padded_height(&self.children[i]);
            if base + sum - self.spacing > MAX_EXTENT {
                return None;
            }
            i += 1;
        }
        Some(base + sum - self.spacing)
    }

    /// A choice without alternatives has no size.
    pub proof fn lemma_no_children(&self)
        requires
            self.children().len() == 0,
        ensures
            self.spec_entry_height() == 0,
            self.spec_height() == 0,
            self.spec_width() == 0,
    {
    }

    /// A choice of one alternative has the geometry of that alternative.
    pub proof fn lemma_single_child(&self)
        requires
            self.children().len() == 1,
        ensures
            self.spec_entry_height() == self.children()[0].spec_entry_height(),
            self.spec_height() == self.children()[0].spec_height(),
            self.spec_width() == self.children()[0].spec_width(),
    {
    }
}

impl<N: Node> Node for Choice<N> {
    /// The entry height of the first alternative.
    open spec fn spec_entry_height(&self) -> int {
        if self.children().len() == 0 {
            0
        } else {
            self.children()[0].spec_entry_height()
        }
    }

    /// Nothing without alternatives, the height of a single alternative,
    /// and else the entry height of the first, the drop to the second and
    /// the padded heights of the others, less the spacing below the last.
    open spec fn spec_height(&self) -> int {
        let n = self.children().len() as int;
        if n == 0 {
            0
        } else if n == 1 {
            self.children()[0].spec_height()
        } else {
            self.spec_entry_height() + self.first_drop() + self.padded_sum(n) - self.spacing()
        }
    }

    /// The largest width of the alternatives, and the inner padding on
    /// both sides.
    open spec fn spec_width(&self) -> int {
        if self.children().len() > 1 {
            self.spec_inner_padding() + max_width(self.children()) + self.spec_inner_padding()
        } else {
            max_width(self.children())
        }
    }

    /// The alternatives are well formed, the spacing is not negative, and
    /// it, the width and the height are at most `MAX_EXTENT`.
    open spec fn valid(&self) -> bool {
        &&& all_well_formed(self.children())
        &&& 0 <= self.spacing() <= MAX_EXTENT
        &&& self.spec_width() <= MAX_EXTENT
        &&& self.spec_height() <= MAX_EXTENT
    }

    open spec fn shape(&self, x: i64, y: i64, h_dir: HDir) -> Shape {
        Shape::Group {
            tag: "g"@,
            attrs: attrs_extend(Seq::empty(), self.attrs()),
            children: self.all_drawn(x, y, h_dir),
        }
    }

    fn is_valid(&self) -> (ok: bool) {
        if self.spacing < 0 || self.spacing > MAX_EXTENT {
            return false;
        }
        if !are_valid(&self.children) {
            return false;
        }
        let width = if self.children.len() > 1 {
            self.inner_padding() + self.children.max_width() + self.inner_padding()
        } else {
            self.children.max_width()
        };
        let ok = width <= MAX_EXTENT && self.checked_height().is_some();
        proof {
            if ok {
                self.lemma_bounded();
            }
        }
        ok
    }

    fn entry_height(&self) -> (r: i64) {
        proof {
            self.lemma_bounded();
        }
        if self.children.len() == 0 {
            0
        } else {
            assert(well_formed(&self.children()[0]));
            self.children[0].entry_height()
        }
    }

    fn height(&self) -> (r: i64) {
        proof {
            self.lemma_bounded();
        }
        let n = self.children.len();
        if n == 0 {
            0
        } else if n == 1 {
            assert(well_formed(&self.children()[0]));
            self.children[0].height()
        } else {
            assert(well_formed(&self.children()[0]));
            proof {
                self.lemma_padded_sum(1, n as int);
            }
            let base = self.entry_height() + max_of(
                ARC_RADIUS,
                self.spacing + self.children[0].height_below_entry(),
            );
            let mut sum: i64 = 0;
            let mut i: usize = 1;
            while i < n
                invariant
                    1 <= i <= n,
                    n == self.children().len(),
                    self.valid(),
                    base == self.spec_entry_height() + self.first_drop(),
                    sum == self.padded_sum(i as int),
                    0 <= sum <= 2 * MAX_EXTENT,
                decreases n - i,
            {
                proof {
                    assert(well_formed(&self.children()[i as int]));
                    assert(well_formed(&self.children()[0]));
                    self.lemma_padded_sum(i + 1, n as int);
                    self.lemma_padded_sum(i as int, i + 1);
                }
                sum = sum + self.padded_height(&self.children[i]);
                i += 1;
            }
            base + sum - self.spacing
        }
    }

    fn width(&self) -> (r: i64) {
        proof {
            self.lemma_bounded();
        }
        if self.children.len() > 1 {
            self.inner_padding() + self.children.max_width() + self.inner_padding()
        } else {
            self.children.max_width()
        }
    }

    fn draw(&self, x: i64, y: i64, h_dir: HDir) -> (e: Element) {
        proof {
            self.lemma_bounded();
            lemma_maxima(self.children());
        }
        let n = self.children.len();
        let mut g = self.draw_head(x, y, h_dir);
        if n <= 1 {
            return g;
        }
        let ghost tag = "g"@;
        let ghost attrs = attrs_extend(Seq::empty(), self.attrs());
        let ghost b = Bounds::at(x as int, y as int, self.spec_width(), self.spec_height());
        let entry = self.entry_height();
        let width = self.width();
        let widest = self.children.max_width();
        assert(well_formed(&self.children()[0]));
        let below = self.children[0].height_below_entry();
        proof {
            self.lemma_slot(1);
        }
        let start = entry + max_of(ARC_RADIUS, self.spacing + below);
        // The downward connectors, drawn individually
        let mut running_y: i64 = start;
        let mut i: usize = 1;
        while i + 1 < n
            invariant
                1 <= i,
                i + 1 <= n,
                1 < n == self.children().len(),
                self.valid(),
                in_bounds(self.spec_entry_height(), self.spec_height(), self.spec_width()),
                placeable(x as int, self.spec_width()),
                placeable(y as int, self.spec_height()),
                width == self.spec_width(),
                ARC_RADIUS * 4 <= width,
                tag == "g"@,
                attrs == attrs_extend(Seq::empty(), self.attrs()),
                b == Bounds::at(x as int, y as int, self.spec_width(), self.spec_height()),
                running_y == self.slot_top(i as int),
                0 <= running_y <= MAX_EXTENT,
                g@ == markup(
                    Shape::Group { tag, attrs, children: self.with_rails(i as int, x, y, h_dir) },
                ),
                within(
                    Shape::Group { tag, attrs, children: self.with_rails(i as int, x, y, h_dir) },
                    b,
                ),
            decreases n - i,
        {
            let child = &self.children[i];
            proof {
                assert(well_formed(&self.children()[i as int]));
                self.lemma_slot(i as int);
            }
            let z = self.padded_height(child);
            let zz = max_of(0, child.entry_height() - ARC_RADIUS);
            let z = z - zz;
            let p = PathData::new(h_dir).move_to(x + ARC_RADIUS, y + running_y + zz).vertical(
                z,
            ).move_rel(width - ARC_RADIUS * 2, 0).vertical(-z);
            proof {
                let done = self.with_rails(i as int, x, y, h_dir);
                let ps = Shape::Path { cmds: self.rail(i as int, x, y), dir: h_dir };
                assert(p@ =~= self.rail(i as int, x, y));
                lemma_group_push(tag, attrs, done, ps, b);
            }
            g.push(p.into_path());
            running_y = running_y + z + zz;
            i += 1;
        }
        // The children and arcs around them
        let mut running_y: i64 = start;
        let mut i: usize = 1;
        while i < n
            invariant
                1 <= i <= n,
                1 < n == self.children().len(),
                self.valid(),
                in_bounds(self.spec_entry_height(), self.spec_height(), self.spec_width()),
                placeable(x as int, self.spec_width()),
                placeable(y as int, self.spec_height()),
                width == self.spec_width(),
                widest == max_width(self.children()),
                tag == "g"@,
                attrs == attrs_extend(Seq::empty(), self.attrs()),
                b == Bounds::at(x as int, y as int, self.spec_width(), self.spec_height()),
                running_y == self.slot_top(i as int),
                0 <= running_y <= 2 * MAX_EXTENT,
                g@ == markup(
                    Shape::Group { tag, attrs, children: self.with_branches(i as int, x, y, h_dir) },
                ),
                within(
                    Shape::Group { tag, attrs, children: self.with_branches(i as int, x, y, h_dir) },
                    b,
                ),
                forall|j: int|
                    0 <= j < n ==> (#[trigger] self.children()[j]).spec_width() <= max_width(
                        self.children(),
                    ),
            decreases n - i,
        {
            let child = &self.children[i];
            proof {
                assert(well_formed(&self.children()[i as int]));
                self.lemma_slot(i as int);
            }
            let zz = max_of(0, child.entry_height() - ARC_RADIUS);
            let p = PathData::new(h_dir).move_to(x + ARC_RADIUS, y + running_y).vertical(zz).arc(
                ARC_RADIUS,
                Arc::NorthToEast,
            ).move_rel(child.width(), 0).horizontal(widest - child.width()).arc(
                ARC_RADIUS,
                Arc::WestToNorth,
            ).vertical(-zz);
            let cx = x + ARC_RADIUS * 2;
            let cy = y + running_y + max_of(0, ARC_RADIUS - child.entry_height());
            let e = child.draw(cx, cy, h_dir);
            proof {
                let done = self.with_branches(i as int, x, y, h_dir);
                let ps = Shape::Path { cmds: self.branch(i as int, x, y), dir: h_dir };
                let cs = self.child_shape(i as int, x, y, h_dir);
                assert(p@ =~= self.branch(i as int, x, y));
                lemma_within_larger(
                    cs,
                    Bounds::at(cx as int, cy as int, child.spec_width(), child.spec_height()),
                    b,
                );
                lemma_group_push(tag, attrs, done, ps, b);
                lemma_group_push(tag, attrs, done.push(ps), cs, b);
            }
            g.push(p.into_path());
            g.push(e);
            running_y = running_y + self.padded_height(child);
            i += 1;
        }
        g
    }
}

} // verus!
