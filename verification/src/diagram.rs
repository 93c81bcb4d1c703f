//! The root of a diagram: a complete SVG document.
use crate::node::{in_bounds, well_formed, Node, MAX_EXTENT};
use crate::notactuallysvg::attributes::{attrs_extend, attrs_insert, Attributes, AttrSeq};
use crate::notactuallysvg::element::{
    lemma_views, lemma_views_push, render, views, Element, ElementView,
};
use crate::notactuallysvg::path::{Bounds, HDir};
use crate::shape::{
    lemma_group_empty, lemma_group_push, lemma_markup_raw, lemma_within_larger, markup, within,
    Shape,
};
use crate::strings::{decimal, push_decimal};
use vstd::prelude::*;
use vstd::string::StringExecFns;

verus! {

/// Default Cascading Style Sheets for the resuling SVG.
pub const DEFAULT_CSS: &'static str = r#"
    svg.railroad {
        background-color: hsl(30, 20%, 95%);
        background-size: 15px 15px;
        background-image: linear-gradient(to right, rgba(30, 30, 30, .05) 1px, transparent 1px),
                          linear-gradient(to bottom, rgba(30, 30, 30, .05) 1px, transparent 1px);
    }

    svg.railroad path {
        stroke-width: 3px;
        stroke: black;
        fill: transparent;
    }

    svg.railroad .debug {
        stroke-width: 1px;
        stroke: red;
    }

    svg.railroad text {
        font: 14px monospace;
        text-anchor: middle;
    }

    svg.railroad .nonterminal text {
        font-weight: bold;
    }

    svg.railroad text.comment {
        font: italic 12px monospace;
    }

    svg.railroad rect {
        stroke-width: 3px;
        stroke: black;
        fill:hsl(-290, 70%, 90%);
    }

    svg.railroad g.labeledbox > rect {
        stroke-width: 1px;
        stroke: grey;
        stroke-dasharray: 5px;
        fill:rgba(90, 90, 150, .1);
    }"#;

/// The element that carries the default style sheet.
pub open spec fn default_css_element() -> ElementView {
    ElementView::blank("style"@).with_attr("type"@, "text/css"@).with_text(DEFAULT_CSS@)
}

/// The value of the attribute `viewBox` of a document of the given size.
pub open spec fn view_box(width: int, height: int) -> Seq<char> {
    "0 0 "@ + decimal(width) + " "@ + decimal(height)
}

/// The attributes that every document has.
pub open spec fn document_attrs(width: int, height: int) -> AttrSeq {
    attrs_insert(
        attrs_insert(
            attrs_insert(
                attrs_insert(Seq::empty(), "xmlns"@, "http://www.w3.org/2000/svg"@),
                "xmlns:xlink"@,
                "http://www.w3.org/1999/xlink"@,
            ),
            "class"@,
            "railroad"@,
        ),
        "viewBox"@,
        view_box(width, height),
    )
}

/// An error of the standard library's input and output.
#[verifier::external_type_specification]
#[verifier::external_body]
pub struct ExIoError(std::io::Error);

/// Writes a text to a writer.
///
/// Trusted: this is `write!` of the standard library with the text as its
/// only argument. Whether it succeeds is up to the writer.
#[verifier::external_body]
fn write_text<W: std::io::Write>(writer: &mut W, text: &str) -> (r: Result<(), std::io::Error>) {
    write!(writer, "{}", text)
}

/// A complete diagram: the root element with padding around it, as an
/// SVG document.
#[derive(Debug, Clone)]
pub struct Diagram<N> {
    root: N,
    extra_attributes: Attributes,
    extra_elements: Vec<Element>,
    left_padding: i64,
    right_padding: i64,
    top_padding: i64,
    bottom_padding: i64,
}

impl<N> Diagram<N> {
    /// The root element.
    pub closed spec fn root(&self) -> N {
        self.root
    }

    /// The attributes that were set on the document.
    pub closed spec fn extra_attrs(&self) -> AttrSeq {
        self.extra_attributes@
    }

    /// The elements that are written before the root element.
    pub closed spec fn extras(&self) -> Seq<ElementView> {
        views(self.extra_elements@)
    }

    /// The padding on the left, on the right, at the top and at the bottom.
    pub closed spec fn paddings(&self) -> (int, int, int, int) {
        (
            self.left_padding as int,
            self.right_padding as int,
            self.top_padding as int,
            self.bottom_padding as int,
        )
    }
}

impl<N: Default> Default for Diagram<N> {
    fn default() -> (d: Self)
        ensures
            d.extra_attrs() == AttrSeq::empty(),
            d.extras() == Seq::<ElementView>::empty(),
            d.paddings() == (10int, 10int, 10int, 10int),
    {
        let d = Self {
            root: Default::default(),
            extra_attributes: Attributes::new(),
            extra_elements: Vec::new(),
            left_padding: 10,
            right_padding: 10,
            top_padding: 10,
            bottom_padding: 10,
        };
        proof {
            lemma_views(d.extra_elements@);
            assert(d.extras() =~= Seq::empty());
        }
        d
    }
}

impl<N: Node> Diagram<N> {
    /// Create a diagram using the given root-element.
    pub fn new(root: N) -> (d: Self)
        ensures
            d.root() == root,
            d.extra_attrs() == AttrSeq::empty(),
            d.extras() == Seq::<ElementView>::empty(),
            d.paddings() == (10int, 10int, 10int, 10int),
    {
        let d = Self {
            root,
            extra_attributes: Attributes::new(),
            extra_elements: Vec::new(),
            left_padding: 10,
            right_padding: 10,
            top_padding: 10,
            bottom_padding: 10,
        };
        proof {
            lemma_views(d.extra_elements@);
            assert(d.extras() =~= Seq::empty());
        }
        d
    }

    /// Create a diagram which has this library's default CSS style included.
    pub fn with_default_css(root: N) -> (d: Self)
        ensures
            d.root() == root,
            d.extra_attrs() == AttrSeq::empty(),
            d.extras() == seq![default_css_element()],
            d.paddings() == (10int, 10int, 10int, 10int),
    {
        let mut dia = Self::new(root);
        dia.add_default_css();
        assert(Seq::<ElementView>::empty().push(default_css_element()) =~= seq![
            default_css_element(),
        ]);
        dia
    }

    /// Add the default CSS as an additional `<style>` element.
    pub fn add_default_css(&mut self)
        ensures
            final(self).extras() == old(self).extras().push(default_css_element()),
            final(self).root() == old(self).root(),
            final(self).extra_attrs() == old(self).extra_attrs(),
            final(self).paddings() == old(self).paddings(),
    {
        self.add_element(Element::new("style").set("type", "text/css").raw_text(DEFAULT_CSS));
    }

    /// Set an attribute on the <svg>-tag.
    pub fn attr(&mut self, key: String, value: String)
        ensures
            final(self).extra_attrs() == attrs_insert(old(self).extra_attrs(), key@, value@),
            final(self).root() == old(self).root(),
            final(self).extras() == old(self).extras(),
            final(self).paddings() == old(self).paddings(),
    {
        self.extra_attributes.insert(key, value);
    }

    /// Add an additional `svg::Element` which is written before the root-element
    pub fn add_element(&mut self, e: Element) -> (r: &mut Self)
        ensures
            r.extras() == old(self).extras().push(e@),
            r.root() == old(self).root(),
            r.extra_attrs() == old(self).extra_attrs(),
            r.paddings() == old(self).paddings(),
            *final(self) == *final(r),
    {
        proof {
            lemma_views_push(self.extra_elements@, e);
        }
        self.extra_elements.push(e);
        self
    }

    /// Write this diagram's SVG-code to the given writer.
    ///
    /// What is handed to the writer is the text that `to_string` gives.
    ///
    /// # Errors
    /// Returns errors in the underlying writer.
    pub fn write<W: std::io::Write>(&self, writer: &mut W) -> (r: Result<(), std::io::Error>)
        requires
            self.valid(),
    {
        let text = self.to_string();
        write_text(writer, text.as_str())
    }

    /// Return the root-element this diagram's root element
    pub fn into_inner(self) -> (n: N)
        ensures
            n == self.root(),
    {
        self.root
    }

    /// The first `n` of the elements that are written before the root
    /// element.
    pub open spec fn extra_shapes(&self, n: int) -> Seq<Shape> {
        Seq::new(n as nat, |i: int| Shape::Markup { element: self.extras()[i] })
    }

    /// What the root element draws: it stands inside the padding.
    pub open spec fn root_shape(&self, x: i64, y: i64, h_dir: HDir) -> Shape {
        self.root().shape(
            (x + self.paddings().0) as i64,
            (y + self.paddings().2) as i64,
            h_dir,
        )
    }

    /// The entry height of a valid node lies between zero and its height,
    /// and its width and height between zero and `MAX_EXTENT`.
    pub proof fn lemma_bounded(&self)
        requires
            self.valid(),
        ensures
            in_bounds(self.spec_entry_height(), self.spec_height(), self.spec_width()),
    {
    }

    /// The SVG document of this diagram, where the diagram is valid.
    pub fn render(&self) -> (r: Option<String>)
        ensures
            r is Some <==> self.valid(),
            r matches Some(s) ==> s@ == render(markup(self.shape(0, 0, HDir::LTR))),
    {
        if self.is_valid() {
            Some(self.to_string())
        } else {
            None
        }
    }

    /// The SVG document of this diagram.
    ///
    /// The text depends on nothing but what the diagram holds: the same
    /// diagram gives the same text.
    pub fn to_string(&self) -> (s: String)
        requires
            self.valid(),
        ensures
            s@ == render(markup(self.shape(0, 0, HDir::LTR))),
    {
        self.draw(0, 0, HDir::LTR).to_string()
    }
}

impl<N: Node> Node for Diagram<N> {
    open spec fn spec_entry_height(&self) -> int {
        0
    }

    open spec fn spec_height(&self) -> int {
        self.paddings().2 + self.root().spec_height() + self.paddings().3
    }

    open spec fn spec_width(&self) -> int {
        self.paddings().0 + self.root().spec_width() + self.paddings().1
    }

    /// The root element is well formed, the paddings are not negative,
    /// and the width and the height are at most `MAX_EXTENT`.
    open spec fn valid(&self) -> bool {
        &&& well_formed(&self.root())
        &&& 0 <= self.paddings().0
        &&& 0 <= self.paddings().1
        &&& 0 <= self.paddings().2
        &&& 0 <= self.paddings().3
        &&& self.spec_width() <= MAX_EXTENT
        &&& self.spec_height() <= MAX_EXTENT
    }

    /// An `svg` element that holds the additional elements and then the
    /// root element.
    open spec fn shape(&self, x: i64, y: i64, h_dir: HDir) -> Shape {
        Shape::Group {
            tag: "svg"@,
            attrs: attrs_extend(
                document_attrs(self.spec_width(), self.spec_height()),
                self.extra_attrs(),
            ),
            children: self.extra_shapes(self.extras().len() as int).push(
                self.root_shape(x, y, h_dir),
            ),
        }
    }

    fn is_valid(&self) -> (ok: bool) {
        if !self.root.is_valid() {
            return false;
        }
        if self.left_padding < 0 || self.left_padding > MAX_EXTENT || self.right_padding < 0
            || self.right_padding > MAX_EXTENT || self.top_padding < 0 || self.top_padding
            > MAX_EXTENT || self.bottom_padding < 0 || self.bottom_padding > MAX_EXTENT {
            return false;
        }
        let height = self.top_padding + self.root.height() + self.bottom_padding;
        let width = self.left_padding + self.root.width() + self.right_padding;
        width <= MAX_EXTENT && height <= MAX_EXTENT
    }

    fn entry_height(&self) -> (r: i64) {
        0
    }

    fn height(&self) -> (r: i64) {
        self.top_padding + self.root.height() + self.bottom_padding
    }

    fn width(&self) -> (r: i64) {
        self.left_padding + self.root.width() + self.right_padding
    }

    fn draw(&self, x: i64, y: i64, h_dir: HDir) -> (e: Element) {
        let ghost tag = "svg"@;
        let ghost attrs = attrs_extend(
            document_attrs(self.spec_width(), self.spec_height()),
            self.extra_attrs(),
        );
        let ghost b = Bounds::at(x as int, y as int, self.spec_width(), self.spec_height());
        let mut view_box = String::new();
        view_box.append("0 0 ");
        push_decimal(&mut view_box, self.width());
        view_box.append(" ");
        push_decimal(&mut view_box, self.height());
        assert(view_box@ =~= crate::diagram::view_box(self.spec_width(), self.spec_height()));
        let mut e = Element::new("svg").set("xmlns", "http://www.w3.org/2000/svg").set(
            "xmlns:xlink",
            "http://www.w3.org/1999/xlink",
        ).set("class", "railroad").set("viewBox", view_box.as_str()).set_all(
            &self.extra_attributes,
        );
        let n = self.extra_elements.len();
        proof {
            lemma_group_empty(tag, attrs, b);
            lemma_views(self.extra_elements@);
            assert(self.extra_shapes(0) =~= Seq::empty());
        }
        let mut i: usize = 0;
        while i < n
            invariant
                i <= n,
                n == self.extra_elements@.len(),
                n == self.extras().len(),
                forall|j: int| 0 <= j < n ==> (#[trigger] self.extras()[j]) == self.extra_elements@[j]@,
                e@ == markup(Shape::Group { tag, attrs, children: self.extra_shapes(i as int) }),
                within(Shape::Group { tag, attrs, children: self.extra_shapes(i as int) }, b),
            decreases n - i,
        {
            let extra = self.extra_elements[i].clone();
            proof {
                let done = self.extra_shapes(i as int);
                let s = Shape::Markup { element: self.extras()[i as int] };
                lemma_markup_raw(self.extras()[i as int]);
                lemma_group_push(tag, attrs, done, s, b);
                assert(done.push(s) =~= self.extra_shapes(i + 1));
            }
            e.push(extra);
            i += 1;
        }
        let rx = x + self.left_padding;
        let ry = y + self.top_padding;
        let r = self.root.draw(rx, ry, h_dir);
        proof {
            let rs = self.root_shape(x, y, h_dir);
            lemma_within_larger(
                rs,
                Bounds::at(
                    rx as int,
                    ry as int,
                    self.root().spec_width(),
                    self.root().spec_height(),
                ),
                b,
            );
            lemma_group_push(tag, attrs, self.extra_shapes(n as int), rs, b);
        }
        e.add(r)
    }
}

} // verus!
