//! The primitives without children.
use crate::node::{Node, MAX_EXTENT};
use crate::notactuallysvg::attributes::{attrs_extend, attrs_insert, Attributes, AttrSeq};
use crate::notactuallysvg::element::Element;
use crate::notactuallysvg::path::{Arc, Bounds, HDir, PathCmd, PathData};
use crate::shape::{lemma_group_empty, lemma_group_push, rect_element, text_element, Shape};
use crate::strings::{checked_text_width, spec_text_width, text_width};
use vstd::prelude::*;

verus! {

/// A symbol indicating the logical end of a syntax-diagram via two vertical bars.
#[derive(Debug, Clone, Default)]
pub struct End;

impl Node for End {
    open spec fn spec_entry_height(&self) -> int {
        10
    }

    open spec fn spec_height(&self) -> int {
        20
    }

    open spec fn spec_width(&self) -> int {
        20
    }

    open spec fn valid(&self) -> bool {
        true
    }

    open spec fn shape(&self, x: i64, y: i64, h_dir: HDir) -> Shape {
        Shape::Path {
            cmds: seq![
                PathCmd::MoveTo { x, y: (y + 10) as i64 },
                PathCmd::Horizontal { len: 20 },
                PathCmd::MoveRel { dx: -10i64, dy: -10i64 },
                PathCmd::Vertical { len: 20 },
                PathCmd::MoveRel { dx: 10, dy: -20i64 },
                PathCmd::Vertical { len: 20 },
            ],
            dir: h_dir,
        }
    }

    fn is_valid(&self) -> (ok: bool) {
        true
    }

    fn entry_height(&self) -> (r: i64) {
        10
    }

    fn height(&self) -> (r: i64) {
        20
    }

    fn width(&self) -> (r: i64) {
        20
    }

    fn draw(&self, x: i64, y: i64, h_dir: HDir) -> (e: Element) {
        let p = PathData::new(h_dir).move_to(x, y + 10).horizontal(20).move_rel(-10, -10).vertical(
            20,
        ).move_rel(10, -20).vertical(20);
        assert(p@ =~= self.shape(x, y, h_dir)->cmds);
        p.into_path()
    }
}

/// A symbol indicating the logical start of a syntax-diagram via a circle
#[derive(Debug, Clone, Default)]
pub struct SimpleStart;

impl Node for SimpleStart {
    open spec fn spec_entry_height(&self) -> int {
        5
    }

    open spec fn spec_height(&self) -> int {
        10
    }

    open spec fn spec_width(&self) -> int {
        15
    }

    open spec fn valid(&self) -> bool {
        true
    }

    open spec fn shape(&self, x: i64, y: i64, h_dir: HDir) -> Shape {
        Shape::Path {
            cmds: seq![
                PathCmd::MoveTo { x, y: (y + 5) as i64 },
                PathCmd::Arc { radius: 5, kind: Arc::SouthToEast },
                PathCmd::Arc { radius: 5, kind: Arc::WestToSouth },
                PathCmd::Arc { radius: 5, kind: Arc::NorthToWest },
                PathCmd::Arc { radius: 5, kind: Arc::EastToNorth },
                PathCmd::MoveRel { dx: 10, dy: 0 },
                PathCmd::Horizontal { len: 5 },
            ],
            dir: h_dir,
        }
    }

    fn is_valid(&self) -> (ok: bool) {
        true
    }

    fn entry_height(&self) -> (r: i64) {
        5
    }

    fn height(&self) -> (r: i64) {
        10
    }

    fn width(&self) -> (r: i64) {
        15
    }

    fn draw(&self, x: i64, y: i64, h_dir: HDir) -> (e: Element) {
        let p = PathData::new(h_dir).move_to(x, y + 5).arc(5, Arc::SouthToEast).arc(5, Arc::WestToSouth).arc(
            5,
            Arc::NorthToWest,
        ).arc(5, Arc::EastToNorth).move_rel(10, 0).horizontal(5);
        assert(p@ =~= self.shape(x, y, h_dir)->cmds);
        p.into_path()
    }
}

/// A symbol indicating the logical end of a syntax-diagram via a circle
#[derive(Debug, Clone, Default)]
pub struct SimpleEnd;

impl Node for SimpleEnd {
    open spec fn spec_entry_height(&self) -> int {
        5
    }

    open spec fn spec_height(&self) -> int {
        10
    }

    open spec fn spec_width(&self) -> int {
        15
    }

    open spec fn valid(&self) -> bool {
        true
    }

    open spec fn shape(&self, x: i64, y: i64, h_dir: HDir) -> Shape {
        Shape::Path {
            cmds: seq![
                PathCmd::MoveTo { x, y: (y + 5) as i64 },
                PathCmd::Horizontal { len: 5 },
                PathCmd::Arc { radius: 5, kind: Arc::SouthToEast },
                PathCmd::Arc { radius: 5, kind: Arc::WestToSouth },
                PathCmd::Arc { radius: 5, kind: Arc::NorthToWest },
                PathCmd::Arc { radius: 5, kind: Arc::EastToNorth },
            ],
            dir: h_dir,
        }
    }

    fn is_valid(&self) -> (ok: bool) {
        true
    }

    fn entry_height(&self) -> (r: i64) {
        5
    }

    fn height(&self) -> (r: i64) {
        10
    }

    fn width(&self) -> (r: i64) {
        15
    }

    fn draw(&self, x: i64, y: i64, h_dir: HDir) -> (e: Element) {
        let p = PathData::new(h_dir).move_to(x, y + 5).horizontal(5).arc(5, Arc::SouthToEast).arc(
            5,
            Arc::WestToSouth,
        ).arc(5, Arc::NorthToWest).arc(5, Arc::EastToNorth);
        assert(p@ =~= self.shape(x, y, h_dir)->cmds);
        p.into_path()
    }
}

/// A symbol indicating the logical start of a syntax-diagram via two vertical bars.
#[derive(Debug, Clone, Default)]
pub struct Start;

impl Node for Start {
    open spec fn spec_entry_height(&self) -> int {
        10
    }

    open spec fn spec_height(&self) -> int {
        20
    }

    open spec fn spec_width(&self) -> int {
        20
    }

    open spec fn valid(&self) -> bool {
        true
    }

    open spec fn shape(&self, x: i64, y: i64, h_dir: HDir) -> Shape {
        Shape::Path {
            cmds: seq![
                PathCmd::MoveTo { x, y },
                PathCmd::Vertical { len: 20 },
                PathCmd::MoveRel { dx: 10, dy: -20i64 },
                PathCmd::Vertical { len: 20 },
                PathCmd::MoveRel { dx: -10i64, dy: -10i64 },
                PathCmd::Horizontal { len: 20 },
            ],
            dir: h_dir,
        }
    }

    fn is_valid(&self) -> (ok: bool) {
        true
    }

    fn entry_height(&self) -> (r: i64) {
        10
    }

    fn height(&self) -> (r: i64) {
        20
    }

    fn width(&self) -> (r: i64) {
        20
    }

    fn draw(&self, x: i64, y: i64, h_dir: HDir) -> (e: Element) {
        let p = PathData::new(h_dir).move_to(x, y).vertical(20).move_rel(10, -20).vertical(20).move_rel(
            -10,
            -10,
        ).horizontal(20);
        assert(p@ =~= self.shape(x, y, h_dir)->cmds);
        p.into_path()
    }
}

/// A dummy-element which has no size and draws nothing.
///
/// This can be used in conjunction with `Choice` (to indicate that one of the options
/// is blank, a shorthand for an `Optional(Choice)`), `Repeat` (if there are
/// zero-or-more repetitions or if there is no joining element), or `LabeledBox`
/// (if the label should be empty).
#[derive(Debug, Clone, Default)]
pub struct Empty;

impl Node for Empty {
    open spec fn spec_entry_height(&self) -> int {
        0
    }

    open spec fn spec_height(&self) -> int {
        0
    }

    open spec fn spec_width(&self) -> int {
        0
    }

    open spec fn valid(&self) -> bool {
        true
    }

    open spec fn shape(&self, x: i64, y: i64, h_dir: HDir) -> Shape {
        Shape::Group { tag: "g"@, attrs: Seq::empty(), children: Seq::empty() }
    }

    fn is_valid(&self) -> (ok: bool) {
        true
    }

    fn entry_height(&self) -> (r: i64) {
        0
    }

    fn height(&self) -> (r: i64) {
        0
    }

    fn width(&self) -> (r: i64) {
        0
    }

    fn draw(&self, x: i64, y: i64, h_dir: HDir) -> (e: Element) {
        proof {
            lemma_group_empty("g"@, Seq::empty(), Bounds::at(x as int, y as int, 0, 0));
        }
        Element::new("g")
    }
}

/// An element that may be absent. What is absent has no size and draws
/// nothing, as `Empty` does.
impl<N: Node> Node for Option<N> {
    open spec fn spec_entry_height(&self) -> int {
        match self {
            Some(n) => n.spec_entry_height(),
            None => 0,
        }
    }

    open spec fn spec_height(&self) -> int {
        match self {
            Some(n) => n.spec_height(),
            None => 0,
        }
    }

    open spec fn spec_width(&self) -> int {
        match self {
            Some(n) => n.spec_width(),
            None => 0,
        }
    }

    open spec fn valid(&self) -> bool {
        match self {
            Some(n) => n.valid(),
            None => true,
        }
    }

    open spec fn shape(&self, x: i64, y: i64, h_dir: HDir) -> Shape {
        match self {
            Some(n) => n.shape(x, y, h_dir),
            None => Shape::Group { tag: "g"@, attrs: Seq::empty(), children: Seq::empty() },
        }
    }

    fn is_valid(&self) -> (ok: bool) {
        match self {
            Some(n) => n.is_valid(),
            None => true,
        }
    }

    fn entry_height(&self) -> (r: i64) {
        match self {
            Some(n) => n.entry_height(),
            None => 0,
        }
    }

    fn height(&self) -> (r: i64) {
        match self {
            Some(n) => n.height(),
            None => 0,
        }
    }

    fn width(&self) -> (r: i64) {
        match self {
            Some(n) => n.width(),
            None => 0,
        }
    }

    fn draw(&self, x: i64, y: i64, h_dir: HDir) -> (e: Element) {
        match self {
            Some(n) => n.draw(x, y, h_dir),
            None => {
                proof {
                    lemma_group_empty("g"@, Seq::empty(), Bounds::at(x as int, y as int, 0, 0));
                }
                Element::new("g")
            },
        }
    }
}

/// The width of a box around a label: eight units for each character of
/// the label's rendered width, and twenty for the margins.
pub open spec fn label_box_width(label: Seq<char>) -> int {
    spec_text_width(label) as int * 8 + 20
}

/// A `Terminal`-symbol, drawn as a rectangle with rounded corners.
#[derive(Debug, Clone)]
pub struct Terminal {
    label: String,
    attributes: Attributes,
}

impl Terminal {
    /// The label.
    pub closed spec fn label(&self) -> Seq<char> {
        self.label@
    }

    /// The attributes of the group that is drawn.
    pub closed spec fn attrs(&self) -> AttrSeq {
        self.attributes@
    }

    #[must_use]
    pub fn new(label: String) -> (t: Self)
        ensures
            t.label() == label@,
            t.attrs() == attrs_insert(Seq::empty(), "class"@, "terminal"@),
    {
        let mut attributes = Attributes::new();
        attributes.insert("class".to_owned(), "terminal".to_owned());
        Self { label, attributes }
    }

    /// Set an attribute on the main SVG-element that will be drawn.
    pub fn attr(&mut self, key: String, value: String)
        ensures
            final(self).attrs() == attrs_insert(old(self).attrs(), key@, value@),
            final(self).label() == old(self).label(),
    {
        self.attributes.insert(key, value);
    }
}

impl Node for Terminal {
    open spec fn spec_entry_height(&self) -> int {
        11
    }

    open spec fn spec_height(&self) -> int {
        22
    }

    open spec fn spec_width(&self) -> int {
        label_box_width(self.label())
    }

    /// The width can be computed and is at most `MAX_EXTENT`.
    open spec fn valid(&self) -> bool {
        spec_text_width(self.label()) <= usize::MAX && self.spec_width() <= MAX_EXTENT
    }

    open spec fn shape(&self, x: i64, y: i64, h_dir: HDir) -> Shape {
        Shape::Group {
            tag: "g"@,
            attrs: attrs_extend(Seq::empty(), self.attrs()),
            children: seq![
                Shape::Rect {
                    x: x as int,
                    y: y as int,
                    width: self.spec_width(),
                    height: 22,
                    round: true,
                    attrs: Seq::empty(),
                },
                Shape::Text {
                    x: x + self.spec_width() / 2,
                    y: y + 16,
                    content: self.label(),
                    attrs: Seq::empty(),
                },
            ],
        }
    }

    fn is_valid(&self) -> (ok: bool) {
        match checked_text_width(self.label.as_str()) {
            Some(w) => w as u64 <= ((MAX_EXTENT - 20) / 8) as u64,
            None => false,
        }
    }

    fn entry_height(&self) -> (r: i64) {
        11
    }

    fn height(&self) -> (r: i64) {
        self.entry_height() * 2
    }

    fn width(&self) -> (r: i64) {
        text_width(self.label.as_str()) as i64 * 8 + 20
    }

    fn draw(&self, x: i64, y: i64, h_dir: HDir) -> (e: Element) {
        let none = Attributes::new();
        let r = rect_element(x, y, self.width(), self.height(), true, &none);
        let t = text_element(
            x + self.width() / 2,
            y + self.entry_height() + 5,
            self.label.as_str(),
            &none,
        );
        let g = Element::new("g").set_all(&self.attributes);
        let ghost attrs = attrs_extend(Seq::empty(), self.attrs());
        let ghost rs = self.shape(x, y, h_dir)->children[0];
        let ghost ts = self.shape(x, y, h_dir)->children[1];
        let ghost b = Bounds::at(x as int, y as int, self.spec_width(), self.spec_height());
        proof {
            lemma_group_empty("g"@, attrs, b);
            lemma_group_push("g"@, attrs, Seq::empty(), rs, b);
            lemma_group_push("g"@, attrs, seq![rs], ts, b);
            assert(Seq::<Shape>::empty().push(rs) =~= seq![rs]);
            assert(seq![rs].push(ts) =~= self.shape(x, y, h_dir)->children);
        }
        g.add(r).add(t)
    }
}

/// A `NonTerminal`, drawn as a rectangle.
#[derive(Debug, Clone)]
pub struct NonTerminal {
    label: String,
    attributes: Attributes,
}

impl NonTerminal {
    /// The label.
    pub closed spec fn label(&self) -> Seq<char> {
        self.label@
    }

    /// The attributes of the group that is drawn.
    pub closed spec fn attrs(&self) -> AttrSeq {
        self.attributes@
    }

    #[must_use]
    pub fn new(label: String) -> (t: Self)
        ensures
            t.label() == label@,
            t.attrs() == attrs_insert(Seq::empty(), "class"@, "nonterminal"@),
    {
        let mut attributes = Attributes::new();
        attributes.insert("class".to_owned(), "nonterminal".to_owned());
        Self { label, attributes }
    }

    /// Set an attribute on the main SVG-element that will be drawn.
    pub fn attr(&mut self, key: String, value: String)
        ensures
            final(self).attrs() == attrs_insert(old(self).attrs(), key@, value@),
            final(self).label() == old(self).label(),
    {
        self.attributes.insert(key, value);
    }
}

impl Node for NonTerminal {
    open spec fn spec_entry_height(&self) -> int {
        11
    }

    open spec fn spec_height(&self) -> int {
        22
    }

    open spec fn spec_width(&self) -> int {
        label_box_width(self.label())
    }

    /// The width can be computed and is at most `MAX_EXTENT`.
    open spec fn valid(&self) -> bool {
        spec_text_width(self.label()) <= usize::MAX && self.spec_width() <= MAX_EXTENT
    }

    open spec fn shape(&self, x: i64, y: i64, h_dir: HDir) -> Shape {
        Shape::Group {
            tag: "g"@,
            attrs: attrs_extend(Seq::empty(), self.attrs()),
            children: seq![
                Shape::Rect {
                    x: x as int,
                    y: y as int,
                    width: self.spec_width(),
                    height: 22,
                    round: false,
                    attrs: Seq::empty(),
                },
                Shape::Text {
                    x: x + self.spec_width() / 2,
                    y: y + 16,
                    content: self.label(),
                    attrs: Seq::empty(),
                },
            ],
        }
    }

    fn is_valid(&self) -> (ok: bool) {
        match checked_text_width(self.label.as_str()) {
            Some(w) => w as u64 <= ((MAX_EXTENT - 20) / 8) as u64,
            None => false,
        }
    }

    fn entry_height(&self) -> (r: i64) {
        11
    }

    fn height(&self) -> (r: i64) {
        self.entry_height() * 2
    }

    fn width(&self) -> (r: i64) {
        text_width(self.label.as_str()) as i64 * 8 + 20
    }

    fn draw(&self, x: i64, y: i64, h_dir: HDir) -> (e: Element) {
        let none = Attributes::new();
        let r = rect_element(x, y, self.width(), self.height(), false, &none);
        let t = text_element(
            x + self.width() / 2,
            y + self.entry_height() + 5,
            self.label.as_str(),
            &none,
        );
        let g = Element::new("g").set_all(&self.attributes);
        let ghost attrs = attrs_extend(Seq::empty(), self.attrs());
        let ghost rs = self.shape(x, y, h_dir)->children[0];
        let ghost ts = self.shape(x, y, h_dir)->children[1];
        let ghost b = Bounds::at(x as int, y as int, self.spec_width(), self.spec_height());
        proof {
            lemma_group_empty("g"@, attrs, b);
            lemma_group_push("g"@, attrs, Seq::empty(), rs, b);
            lemma_group_push("g"@, attrs, seq![rs], ts, b);
            assert(Seq::<Shape>::empty().push(rs) =~= seq![rs]);
            assert(seq![rs].push(ts) =~= self.shape(x, y, h_dir)->children);
        }
        g.add(r).add(t)
    }
}

/// A label / verbatim text, drawn in-line
#[derive(Debug, Clone)]
pub struct Comment {
    text: String,
    attributes: Attributes,
}

impl Comment {
    /// The text.
    pub closed spec fn text(&self) -> Seq<char> {
        self.text@
    }

    /// The attributes of the text that is drawn.
    pub closed spec fn attrs(&self) -> AttrSeq {
        self.attributes@
    }

    #[must_use]
    pub fn new(text: String) -> (c: Self)
        ensures
            c.text() == text@,
            c.attrs() == attrs_insert(Seq::empty(), "class"@, "comment"@),
    {
        let mut attributes = Attributes::new();
        attributes.insert("class".to_owned(), "comment".to_owned());
        Self { text, attributes }
    }

    /// Set an attribute on the main SVG-element that will be drawn.
    pub fn attr(&mut self, key: String, value: String)
        ensures
            final(self).attrs() == attrs_insert(old(self).attrs(), key@, value@),
            final(self).text() == old(self).text(),
    {
        self.attributes.insert(key, value);
    }
}

impl Node for Comment {
    open spec fn spec_entry_height(&self) -> int {
        10
    }

    open spec fn spec_height(&self) -> int {
        20
    }

    /// Seven units for each character of the text's rendered width, and
    /// ten for the margins.
    open spec fn spec_width(&self) -> int {
        spec_text_width(self.text()) as int * 7 + 10
    }

    /// The width can be computed and is at most `MAX_EXTENT`.
    open spec fn valid(&self) -> bool {
        spec_text_width(self.text()) <= usize::MAX && self.spec_width() <= MAX_EXTENT
    }

    open spec fn shape(&self, x: i64, y: i64, h_dir: HDir) -> Shape {
        Shape::Text {
            x: x + self.spec_width() / 2,
            y: y + 15,
            content: self.text(),
            attrs: self.attrs(),
        }
    }

    fn is_valid(&self) -> (ok: bool) {
        match checked_text_width(self.text.as_str()) {
            Some(w) => w as u64 <= ((MAX_EXTENT - 10) / 7) as u64,
            None => false,
        }
    }

    fn entry_height(&self) -> (r: i64) {
        10
    }

    fn height(&self) -> (r: i64) {
        20
    }

    fn width(&self) -> (r: i64) {
        text_width(self.text.as_str()) as i64 * 7 + 10
    }

    fn draw(&self, x: i64, y: i64, h_dir: HDir) -> (e: Element) {
        text_element(x + self.width() / 2, y + 15, self.text.as_str(), &self.attributes)
    }
}

} // verus!
