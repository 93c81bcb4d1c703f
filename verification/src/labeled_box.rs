//! A box with a label around an element.
use crate::leaves::Empty;
use crate::node::{in_bounds, max, max_of, well_formed, Node, MAX_EXTENT};
use crate::notactuallysvg::attributes::{attrs_extend, attrs_insert, Attributes, AttrSeq};
use crate::notactuallysvg::element::Element;
use crate::notactuallysvg::path::{Bounds, HDir, PathCmd, PathData};
use crate::shape::{lemma_group_empty, lemma_group_push, lemma_within_larger, rect_element, Shape};
use vstd::prelude::*;

verus! {

/// A box drawn around the given element and a label placed inside the box, above the element.
///
/// You may want to use `Comment` or `Empty` for the label.
#[derive(Debug, Clone)]
pub struct LabeledBox<T, U> {
    inner: T,
    label: U,
    spacing: i64,
    padding: i64,
    attributes: Attributes,
}

impl<T> LabeledBox<T, Empty> {
    /// Construct a box with a label set to `Empty`
    pub fn without_label(inner: T) -> (l: Self)
        ensures
            l.inner() == inner,
            l.label() == Empty,
            l.raw_spacing() == 8,
            l.raw_padding() == 8,
            l.attrs() == attrs_insert(Seq::empty(), "class"@, "labeledbox"@),
    {
        Self::new(inner, Empty)
    }
}

impl<T, U> LabeledBox<T, U> {
    /// The element in the box.
    pub closed spec fn inner(&self) -> T {
        self.inner
    }

    /// The label above the element.
    pub closed spec fn label(&self) -> U {
        self.label
    }

    /// The distance between a label and the element.
    pub closed spec fn raw_spacing(&self) -> int {
        self.spacing as int
    }

    /// The distance between the box and what it holds.
    pub closed spec fn raw_padding(&self) -> int {
        self.padding as int
    }

    /// The attributes of the group that is drawn.
    pub closed spec fn attrs(&self) -> AttrSeq {
        self.attributes@
    }

    pub fn new(inner: T, label: U) -> (l: Self)
        ensures
            l.inner() == inner,
            l.label() == label,
            l.raw_spacing() == 8,
            l.raw_padding() == 8,
            l.attrs() == attrs_insert(Seq::empty(), "class"@, "labeledbox"@),
    {
        let mut attributes = Attributes::new();
        attributes.insert("class".to_owned(), "labeledbox".to_owned());
        Self { inner, label, spacing: 8, padding: 8, attributes }
    }

    /// Set an attribute on the main SVG-element that will be drawn.
    pub fn attr(&mut self, key: String, value: String)
        ensures
            final(self).attrs() == attrs_insert(old(self).attrs(), key@, value@),
            final(self).inner() == old(self).inner(),
            final(self).label() == old(self).label(),
            final(self).raw_spacing() == old(self).raw_spacing(),
            final(self).raw_padding() == old(self).raw_padding(),
    {
        self.attributes.insert(key, value);
    }
}

impl<T: Default, U: Default> Default for LabeledBox<T, U> {
    fn default() -> (l: Self)
        ensures
            l.raw_spacing() == 8,
            l.raw_padding() == 8,
            l.attrs() == AttrSeq::empty(),
    {
        Self {
            inner: Default::default(),
            label: Default::default(),
            spacing: 8,
            padding: 8,
            attributes: Attributes::new(),
        }
    }
}

impl<T: Node, U: Node> LabeledBox<T, U> {
    /// The distance between the label and the element: none where the
    /// label has no height.
    pub open spec fn spec_spacing(&self) -> int {
        if self.label().spec_height() > 0 {
            self.raw_spacing()
        } else {
            0
        }
    }

    /// The distance between the box and what it holds: none where the
    /// label and the element are both empty.
    pub open spec fn spec_padding(&self) -> int {
        if self.label().spec_height() + self.inner().spec_height() + self.label().spec_width()
            + self.inner().spec_width() > 0 {
            self.raw_padding()
        } else {
            0
        }
    }

    /// The distance between the label and the element.
    pub fn spacing(&self) -> (r: i64)
        requires
            self.valid(),
        ensures
            r == self.spec_spacing(),
            0 <= r <= MAX_EXTENT,
    {
        if self.label.height() > 0 {
            self.spacing
        } else {
            0
        }
    }

    /// The distance between the box and what it holds.
    pub fn padding(&self) -> (r: i64)
        requires
            self.valid(),
        ensures
            r == self.spec_padding(),
            0 <= r <= MAX_EXTENT,
    {
        if self.label.height() + self.inner.height() + self.label.width() + self.inner.width() > 0 {
            self.padding
        } else {
            0
        }
    }

    /// The line that leads to the element and away from it.
    pub open spec fn rails(&self, x: i64, y: i64) -> Seq<PathCmd> {
        seq![
            PathCmd::MoveTo { x, y: (y + self.spec_entry_height()) as i64 },
            PathCmd::Horizontal { len: self.spec_padding() as i64 },
            PathCmd::MoveRel { dx: self.inner().spec_width() as i64, dy: 0 },
            PathCmd::Horizontal {
                len: (self.spec_width() - self.inner().spec_width() - self.spec_padding()) as i64,
            },
        ]
    }

    /// What the label draws, in the upper left corner inside the padding.
    pub open spec fn label_shape(&self, x: i64, y: i64, h_dir: HDir) -> Shape {
        self.label().shape(
            (x + self.spec_padding()) as i64,
            (y + self.spec_padding()) as i64,
            h_dir,
        )
    }

    /// What the element draws, below the label.
    pub open spec fn inner_shape(&self, x: i64, y: i64, h_dir: HDir) -> Shape {
        self.inner().shape(
            (x + self.spec_padding()) as i64,
            (y + self.spec_padding() + self.label().spec_height() + self.spec_spacing()) as i64,
            h_dir,
        )
    }

    /// The entry height of a valid node lies between zero and its height,
    /// and its width and height between zero and `MAX_EXTENT`.
    pub proof fn lemma_bounded(&self)
        requires
            self.valid(),
        ensures
            in_bounds(self.spec_entry_height(), self.spec_height(), self.spec_width()),
    {
    }
}

impl<T: Node, U: Node> Node for LabeledBox<T, U> {
    open spec fn spec_entry_height(&self) -> int {
        self.spec_padding() + self.label().spec_height() + self.spec_spacing()
            + self.inner().spec_entry_height()
    }

    open spec fn spec_height(&self) -> int {
        self.spec_padding() + self.label().spec_height() + self.spec_spacing()
            + self.inner().spec_height() + self.spec_padding()
    }

    open spec fn spec_width(&self) -> int {
        self.spec_padding() + max(self.inner().spec_width(), self.label().spec_width())
            + self.spec_padding()
    }

    /// The element and the label are well formed, spacing and padding are
    /// not negative, and they, the width and the height are at most
    /// `MAX_EXTENT`.
    open spec fn valid(&self) -> bool {
        &&& well_formed(&self.inner())
        &&& well_formed(&self.label())
        &&& 0 <= self.raw_spacing() <= MAX_EXTENT
        &&& 0 <= self.raw_padding() <= MAX_EXTENT
        &&& self.spec_width() <= MAX_EXTENT
        &&& self.spec_height() <= MAX_EXTENT
    }

    open spec fn shape(&self, x: i64, y: i64, h_dir: HDir) -> Shape {
        Shape::Group {
            tag: "g"@,
            attrs: attrs_extend(Seq::empty(), self.attrs()),
            children: seq![
                Shape::Rect {
                    x: x as int,
                    y: y as int,
                    width: self.spec_width(),
                    height: self.spec_height(),
                    round: false,
                    attrs: Seq::empty(),
                },
                Shape::Path { cmds: self.rails(x, y), dir: h_dir },
                self.label_shape(x, y, h_dir),
                self.inner_shape(x, y, h_dir),
            ],
        }
    }

    fn is_valid(&self) -> (ok: bool) {
        if !self.inner.is_valid() || !self.label.is_valid() {
            return false;
        }
        if self.spacing < 0 || self.spacing > MAX_EXTENT || self.padding < 0 || self.padding
            > MAX_EXTENT {
            return false;
        }
        let label_height = self.label.height();
        let spacing = if label_height > 0 {
            self.spacing
        } else {
            0
        };
        let padding = if label_height + self.inner.height() + self.label.width()
            + self.inner.width() > 0 {
            self.padding
        } else {
            0
        };
        let height = padding + label_height + spacing + self.inner.height() + padding;
        let width = padding + max_of(self.inner.width(), self.label.width()) + padding;
        width <= MAX_EXTENT && height <= MAX_EXTENT
    }

    fn entry_height(&self) -> (r: i64) {
        self.padding() + self.label.height() + self.spacing() + self.inner.entry_height()
    }

    fn height(&self) -> (r: i64) {
        self.padding() + self.label.height() + self.spacing() + self.inner.height()
            + self.padding()
    }

    fn width(&self) -> (r: i64) {
        self.padding() + max_of(self.inner.width(), self.label.width()) + self.padding()
    }

    fn draw(&self, x: i64, y: i64, h_dir: HDir) -> (e: Element) {
        let ghost tag = "g"@;
        let ghost attrs = attrs_extend(Seq::empty(), self.attrs());
        let ghost b = Bounds::at(x as int, y as int, self.spec_width(), self.spec_height());
        let none = Attributes::new();
        let pad = self.padding();
        let r = rect_element(x, y, self.width(), self.height(), false, &none);
        let p = PathData::new(h_dir).move_to(x, y + self.entry_height()).horizontal(pad).move_rel(
            self.inner.width(),
            0,
        ).horizontal(self.width() - self.inner.width() - pad);
        let lx = x + pad;
        let ly = y + pad;
        let l = self.label.draw(lx, ly, h_dir);
        let iy = y + pad + self.label.height() + self.spacing();
        let i = self.inner.draw(lx, iy, h_dir);
        proof {
            let rs = self.shape(x, y, h_dir)->children[0];
            let ps = Shape::Path { cmds: self.rails(x, y), dir: h_dir };
            let ls = self.label_shape(x, y, h_dir);
            let is = self.inner_shape(x, y, h_dir);
            assert(p@ =~= self.rails(x, y));
            lemma_within_larger(
                ls,
                Bounds::at(
                    lx as int,
                    ly as int,
                    self.label().spec_width(),
                    self.label().spec_height(),
                ),
                b,
            );
            lemma_within_larger(
                is,
                Bounds::at(
                    lx as int,
                    iy as int,
                    self.inner().spec_width(),
                    self.inner().spec_height(),
                ),
                b,
            );
            lemma_group_empty(tag, attrs, b);
            lemma_group_push(tag, attrs, Seq::empty(), rs, b);
            lemma_group_push(tag, attrs, seq![rs], ps, b);
            lemma_group_push(tag, attrs, seq![rs, ps], ls, b);
            lemma_group_push(tag, attrs, seq![rs, ps, ls], is, b);
            assert(Seq::<Shape>::empty().push(rs) =~= seq![rs]);
            assert(seq![rs].push(ps) =~= seq![rs, ps]);
            assert(seq![rs, ps].push(ls) =~= seq![rs, ps, ls]);
            assert(seq![rs, ps, ls].push(is) =~= seq![rs, ps, ls, is]);
        }
        Element::new("g").add(r).add(p.into_path()).add(l).add(i).set_all(&self.attributes)
    }
}

} // verus!
