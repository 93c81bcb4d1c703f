//! A horizontal group of elements, connected from left to right.
use crate::collection::{
    all_well_formed, are_valid, checked_gaps, checked_total_width, lemma_maxima, lemma_totals,
    lemma_totals_step, max_entry_height, max_height_below_entry, total_width, NodeCollection,
};
use crate::node::{
    geometry_text, in_bounds, placeable, push_geometry, well_formed, Node, MAX_EXTENT,
};
use crate::notactuallysvg::attributes::attrs_insert;
use crate::notactuallysvg::element::Element;
use crate::notactuallysvg::path::{Bounds, HDir, PathCmd, PathData};
use crate::shape::{lemma_group_empty, lemma_group_push, lemma_within_larger, markup, within, Shape};
use crate::strings::{decimal, push_decimal};
use vstd::prelude::*;
use vstd::string::StringExecFns;

verus! {

/// A horizontal group of elements, connected from left to right.
///
/// Also see `Stack` for a vertical group of elements.
#[derive(Debug, Clone)]
pub struct Sequence<N> {
    children: Vec<N>,
    spacing: i64,
}

impl<N> Sequence<N> {
    /// The children, from left to right.
    pub closed spec fn children(&self) -> Seq<N> {
        self.children@
    }

    /// The length of the connector between two neighbours.
    pub closed spec fn spacing(&self) -> int {
        self.spacing as int
    }

    #[must_use]
    pub fn new(children: Vec<N>) -> (s: Self)
        ensures
            s.children() == children@,
            s.spacing() == 10,
    {
        Self { children, spacing: 10 }
    }

    pub fn push(&mut self, child: N) -> (r: &mut Self)
        ensures
            r.children() == old(self).children().push(child),
            r.spacing() == old(self).spacing(),
            *final(self) == *final(r),
    {
        self.children.push(child);
        self
    }

    #[must_use]
    pub fn into_inner(self) -> (v: Vec<N>)
        ensures
            v@ == self.children(),
    {
        self.children
    }
}

impl<N> Default for Sequence<N> {
    fn default() -> (s: Self)
        ensures
            s.children() == Seq::<N>::empty(),
            s.spacing() == 10,
    {
        Self { children: Vec::new(), spacing: 10 }
    }
}

impl<N: Node> Sequence<N> {
    /// The connectors that stand between `n` children take this much room.
    pub open spec fn gaps(&self, n: int) -> int {
        if n > 1 {
            (n - 1) * self.spacing()
        } else {
            0
        }
    }

    /// How far the child at position `i` stands from the left edge: behind
    /// the children before it and a connector after each of them.
    pub open spec fn offset(&self, i: int) -> int
        decreases i,
    {
        if i <= 0 {
            0
        } else {
            self.offset(i - 1) + self.children()[i - 1].spec_width() + self.spacing()
        }
    }

    /// What the child at position `i` draws: it stands at its offset, with
    /// its entry line on the entry line of the sequence.
    pub open spec fn child_shape(&self, i: int, x: i64, y: i64, h_dir: HDir) -> Shape {
        self.children()[i].shape(
            (x + self.offset(i)) as i64,
            (y + self.spec_entry_height() - self.children()[i].spec_entry_height()) as i64,
            h_dir,
        )
    }

    /// The connector from the child at position `i` to the next.
    pub open spec fn connector(&self, i: int, x: i64, y: i64, h_dir: HDir) -> Shape {
        Shape::Path {
            cmds: seq![
                PathCmd::MoveTo {
                    x: (x + self.offset(i) + self.children()[i].spec_width()) as i64,
                    y: (y + self.spec_entry_height()) as i64,
                },
                PathCmd::Horizontal { len: self.spacing() as i64 },
            ],
            dir: h_dir,
        }
    }

    /// What the first `n` children draw.
    pub open spec fn child_shapes(&self, n: int, x: i64, y: i64, h_dir: HDir) -> Seq<Shape> {
        Seq::new(n as nat, |i: int| self.child_shape(i, x, y, h_dir))
    }

    /// The first `n` connectors.
    pub open spec fn connectors(&self, n: int, x: i64, y: i64, h_dir: HDir) -> Seq<Shape> {
        Seq::new(n as nat, |i: int| self.connector(i, x, y, h_dir))
    }

    /// The geometries of the first `n` children as a text, separated by
    /// commas.
    pub open spec fn children_text(&self, n: int) -> Seq<char>
        decreases n,
    {
        if n <= 0 {
            Seq::empty()
        } else {
            let child = self.children()[n - 1];
            self.children_text(n - 1) + (if n > 1 {
                ", "@
            } else {
                Seq::empty()
            }) + geometry_text(
                child.spec_entry_height(),
                child.spec_height(),
                child.spec_width(),
            )
        }
    }

    /// The sequence as a text: the geometries of its children and its
    /// spacing.
    pub open spec fn debug_text(&self) -> Seq<char> {
        "Sequence { children: ["@ + self.children_text(self.children().len() as int)
            + "], spacing: "@ + decimal(self.spacing()) + " }"@
    }

    /// The sequence as a text, for debugging.
    pub fn debug_string(&self) -> (s: String)
        requires
            all_well_formed(self.children()),
        ensures
            s@ == self.debug_text(),
    {
        let mut s = String::new();
        s.append("Sequence { children: [");
        let n = self.children.len();
        let mut i: usize = 0;
        while i < n
            invariant
                i <= n,
                n == self.children().len(),
                all_well_formed(self.children()),
                s@ == "Sequence { children: ["@ + self.children_text(i as int),
            decreases n - i,
        {
            assert(well_formed(&self.children()[i as int]));
            if i > 0 {
                s.append(", ");
            }
            push_geometry(&mut s, &self.children[i]);
            assert(s@ =~= "Sequence { children: ["@ + self.children_text(i + 1));
            i += 1;
        }
        s.append("], spacing: ");
        push_decimal(&mut s, self.spacing);
        s.append(" }");
        assert(s@ =~= self.debug_text());
        s
    }

    /// The offsets are the widths of the children so far and one connector
    /// for each.
    pub proof fn lemma_offset(&self, i: int)
        requires
            0 <= i <= self.children().len(),
        ensures
            self.offset(i) == total_width(self.children().take(i)) + i * self.spacing(),
        decreases i,
    {
        if i > 0 {
            self.lemma_offset(i - 1);
            lemma_totals_step(self.children(), i - 1);
            assert(i * self.spacing() == (i - 1) * self.spacing() + self.spacing())
                by (nonlinear_arith);
        } else {
            assert(self.children().take(0) =~= Seq::empty());
        }
    }

    /// Every child stands inside the width of the sequence, and every
    /// child but the last leaves room for its connector.
    pub proof fn lemma_offset_bound(&self, i: int)
        requires
            self.valid(),
            0 <= i < self.children().len(),
        ensures
            0 <= self.offset(i),
            self.offset(i) + self.children()[i].spec_width() <= self.spec_width(),
            i + 1 < self.children().len() ==> self.offset(i + 1) <= self.spec_width(),
    {
        let n = self.children().len() as int;
        let s = self.spacing();
        self.lemma_offset(i);
        self.lemma_offset(i + 1);
        lemma_totals(self.children(), i);
        lemma_totals(self.children(), i + 1);
        lemma_totals_step(self.children(), i);
        assert(0 <= i * s && i * s <= (n - 1) * s) by (nonlinear_arith)
            requires
                0 <= i <= n - 1,
                0 <= s,
        ;
        if i + 1 < n {
            assert(well_formed(&self.children()[i + 1]));
            lemma_totals(self.children(), i + 2);
            lemma_totals_step(self.children(), i + 1);
            assert((i + 1) * s <= (n - 1) * s) by (nonlinear_arith)
                requires
                    0 <= i + 1 <= n - 1,
                    0 <= s,
            ;
        }
    }

    /// The entry height of a valid sequence lies between zero and its
    /// height, and its width and height between zero and `MAX_EXTENT`.
    pub proof fn lemma_bounded(&self)
        requires
            self.valid(),
        ensures
            in_bounds(self.spec_entry_height(), self.spec_height(), self.spec_width()),
    {
        let n = self.children().len() as int;
        let s = self.spacing();
        lemma_maxima(self.children());
        lemma_totals(self.children(), n);
        if n > 1 {
            assert(0 <= (n - 1) * s) by (nonlinear_arith)
                requires
                    0 <= n - 1,
                    0 <= s,
            ;
        }
    }
}

impl<N: Node> Node for Sequence<N> {
    /// The largest entry height of the children: their entry lines are
    /// put on one line.
    open spec fn spec_entry_height(&self) -> int {
        max_entry_height(self.children())
    }

    /// The largest entry height of the children and, below the entry
    /// line, the largest height below entry.
    open spec fn spec_height(&self) -> int {
        max_entry_height(self.children()) + max_height_below_entry(self.children())
    }

    /// The widths of the children and a connector between each two.
    open spec fn spec_width(&self) -> int {
        total_width(self.children()) + self.gaps(self.children().len() as int)
    }

    /// The children are well formed, the spacing is not negative, and the
    /// number of children, the width and the height are at most
    /// `MAX_EXTENT`.
    open spec fn valid(&self) -> bool {
        &&& all_well_formed(self.children())
        &&& 0 <= self.spacing() <= MAX_EXTENT
        &&& self.children().len() <= MAX_EXTENT
        &&& self.spec_width() <= MAX_EXTENT
        &&& self.spec_height() <= MAX_EXTENT
    }

    /// The children from left to right, then the connectors between them.
    open spec fn shape(&self, x: i64, y: i64, h_dir: HDir) -> Shape {
        let n = self.children().len() as int;
        Shape::Group {
            tag: "g"@,
            attrs: attrs_insert(Seq::empty(), "class"@, "sequence"@),
            children: self.child_shapes(n, x, y, h_dir) + self.connectors(
                if n > 0 {
                    n - 1
                } else {
                    0
                },
                x,
                y,
                h_dir,
            ),
        }
    }

    fn is_valid(&self) -> (ok: bool) {
        if self.spacing < 0 || self.spacing > MAX_EXTENT {
            return false;
        }
        if self.children.len() as u64 > MAX_EXTENT as u64 {
            return false;
        }
        if !are_valid(&self.children) {
            return false;
        }
        let height = self.children.max_entry_height() + self.children.max_height_below_entry();
        proof {
            let n = self.children().len() as int;
            assert(self.gaps(n) == crate::collection::gaps(n, self.spacing())) by (nonlinear_arith)
                requires
                    self.gaps(n) == (if n > 1 {
                        (n - 1) * self.spacing()
                    } else {
                        0
                    }),
                    crate::collection::gaps(n, self.spacing()) == (if n >= 1 {
                        n
                    } else {
                        1
                    } - 1) * self.spacing(),
            ;
        }
        let ok = match (
            checked_total_width(&self.children),
            checked_gaps(self.children.len(), self.spacing),
        ) {
            (Some(total), Some(gap)) => total + gap <= MAX_EXTENT && height <= MAX_EXTENT,
            _ => false,
        };
        proof {
            if ok {
                self.lemma_bounded();
            }
        }
        ok
    }

    fn entry_height(&self) -> (r: i64) {
        proof {
            self.lemma_bounded();
        }
        self.children.max_entry_height()
    }

    fn height(&self) -> (r: i64) {
        proof {
            self.lemma_bounded();
        }
        self.children.max_entry_height() + self.children.max_height_below_entry()
    }

    fn width(&self) -> (r: i64) {
        proof {
            self.lemma_bounded();
        }
        let l = self.children.len();
        if l > 1 {
            assert(0 <= (l - 1) * self.spacing()) by (nonlinear_arith)
                requires
                    0 <= l - 1,
                    0 <= self.spacing(),
            ;
            self.children.total_width() + (l - 1) as i64 * self.spacing
        } else {
            self.children.total_width()
        }
    }

    fn draw(&self, x: i64, y: i64, h_dir: HDir) -> (e: Element) {
        proof {
            self.lemma_bounded();
        }
        let n = self.children.len();
        let entry = self.entry_height();
        let ghost tag = "g"@;
        let ghost attrs = attrs_insert(Seq::empty(), "class"@, "sequence"@);
        let ghost b = Bounds::at(x as int, y as int, self.spec_width(), self.spec_height());
        let mut g = Element::new("g").set("class", "sequence");
        proof {
            lemma_group_empty(tag, attrs, b);
            lemma_maxima(self.children());
            assert(self.child_shapes(0, x, y, h_dir) =~= Seq::empty());
        }
        let mut running_x: i64 = 0;
        let mut i: usize = 0;
        while i < n
            invariant
                i <= n,
                n == self.children().len(),
                self.valid(),
                in_bounds(self.spec_entry_height(), self.spec_height(), self.spec_width()),
                placeable(x as int, self.spec_width()),
                placeable(y as int, self.spec_height()),
                entry == self.spec_entry_height(),
                tag == "g"@,
                attrs == attrs_insert(Seq::empty(), "class"@, "sequence"@),
                b == Bounds::at(x as int, y as int, self.spec_width(), self.spec_height()),
                running_x == self.offset(i as int),
                0 <= running_x <= 2 * MAX_EXTENT,
                g@ == markup(
                    Shape::Group { tag, attrs, children: self.child_shapes(i as int, x, y, h_dir) },
                ),
                within(
                    Shape::Group { tag, attrs, children: self.child_shapes(i as int, x, y, h_dir) },
                    b,
                ),
                forall|j: int|
                    0 <= j < n ==> (#[trigger] self.children()[j]).spec_entry_height()
                        <= self.spec_entry_height() && self.children()[j].spec_height()
                        - self.children()[j].spec_entry_height() <= max_height_below_entry(
                        self.children(),
                    ),
            decreases n - i,
        {
            let child = &self.children[i];
            proof {
                assert(well_formed(&self.children()[i as int]));
                self.lemma_offset_bound(i as int);
            }
            let cx = x + running_x;
            let cy = y + entry - child.entry_height();
            let e = child.draw(cx, cy, h_dir);
            proof {
                let done = self.child_shapes(i as int, x, y, h_dir);
                let s = self.child_shape(i as int, x, y, h_dir);
                lemma_within_larger(
                    s,
                    Bounds::at(cx as int, cy as int, child.spec_width(), child.spec_height()),
                    b,
                );
                lemma_group_push(tag, attrs, done, s, b);
                assert(done.push(s) =~= self.child_shapes(i + 1, x, y, h_dir));
            }
            g.push(e);
            running_x = running_x + child.width() + self.spacing;
            i += 1;
        }
        let ghost drawn = self.child_shapes(n as int, x, y, h_dir);
        proof {
            assert(drawn + self.connectors(0, x, y, h_dir) =~= drawn);
        }
        let mut running_x: i64 = 0;
        let mut i: usize = 0;
        while i + 1 < n
            invariant
                i == 0 || i + 1 <= n,
                n == self.children().len(),
                self.valid(),
                in_bounds(self.spec_entry_height(), self.spec_height(), self.spec_width()),
                placeable(x as int, self.spec_width()),
                placeable(y as int, self.spec_height()),
                entry == self.spec_entry_height(),
                tag == "g"@,
                attrs == attrs_insert(Seq::empty(), "class"@, "sequence"@),
                b == Bounds::at(x as int, y as int, self.spec_width(), self.spec_height()),
                drawn == self.child_shapes(n as int, x, y, h_dir),
                running_x == self.offset(i as int),
                0 <= running_x <= 2 * MAX_EXTENT,
                g@ == markup(
                    Shape::Group {
                        tag,
                        attrs,
                        children: drawn + self.connectors(i as int, x, y, h_dir),
                    },
                ),
                within(
                    Shape::Group {
                        tag,
                        attrs,
                        children: drawn + self.connectors(i as int, x, y, h_dir),
                    },
                    b,
                ),
            decreases n - i,
        {
            let child = &self.children[i];
            proof {
                assert(well_formed(&self.children()[i as int]));
                self.lemma_offset_bound(i as int);
            }
            let p = PathData::new(h_dir).move_to(x + running_x + child.width(), y + entry).horizontal(
                self.spacing,
            );
            proof {
                let done = drawn + self.connectors(i as int, x, y, h_dir);
                let s = self.connector(i as int, x, y, h_dir);
                assert(p@ =~= s->cmds);
                lemma_group_push(tag, attrs, done, s, b);
                assert(done.push(s) =~= drawn + self.connectors(i + 1, x, y, h_dir));
            }
            g.push(p.into_path());
            running_x = running_x + child.width() + self.spacing;
            i += 1;
        }
        g
    }
}

} // verus!
