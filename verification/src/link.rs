//! An element that is a link.
use crate::node::{well_formed, Node};
use crate::notactuallysvg::attributes::{attrs_extend, attrs_insert, Attributes, AttrSeq};
use crate::notactuallysvg::element::Element;
use crate::notactuallysvg::path::{Bounds, HDir};
use crate::shape::{lemma_group_empty, lemma_group_push, Shape};
use vstd::prelude::*;

verus! {

/// Possible targets for `Link`.
#[derive(Debug, Clone, Copy)]
pub enum LinkTarget {
    Blank,
    Parent,
    Top,
}

impl Default for LinkTarget {
    fn default() -> (t: Self)
        ensures
            t == LinkTarget::Blank,
    {
        LinkTarget::Blank
    }
}

/// The attributes with the attribute `target` that stands for the target,
/// if there is one.
pub open spec fn with_target(attrs: AttrSeq, target: Option<LinkTarget>) -> AttrSeq {
    match target {
        Some(LinkTarget::Blank) => attrs_insert(attrs, "target"@, "_blank"@),
        Some(LinkTarget::Parent) => attrs_insert(attrs, "target"@, "_parent"@),
        Some(LinkTarget::Top) => attrs_insert(attrs, "target"@, "_top"@),
        None => attrs,
    }
}

/// Wraps another primitive, making it a clickable link to some URI.
#[derive(Debug, Clone)]
pub struct Link<N> {
    inner: N,
    uri: String,
    target: Option<LinkTarget>,
    attributes: Attributes,
}

impl<N> Link<N> {
    /// The wrapped element.
    pub closed spec fn inner(&self) -> N {
        self.inner
    }

    /// Where the link leads.
    pub closed spec fn uri(&self) -> Seq<char> {
        self.uri@
    }

    /// Where the link opens.
    pub closed spec fn target(&self) -> Option<LinkTarget> {
        self.target
    }

    /// The attributes of the link that is drawn.
    pub closed spec fn attrs(&self) -> AttrSeq {
        self.attributes@
    }

    pub fn new(inner: N, uri: String) -> (l: Self)
        ensures
            l.inner() == inner,
            l.uri() == uri@,
            l.target() == None::<LinkTarget>,
            l.attrs() == attrs_insert(Seq::empty(), "class"@, "link"@),
    {
        let mut attributes = Attributes::new();
        attributes.insert("class".to_owned(), "link".to_owned());
        Self { inner, uri, target: None, attributes }
    }

    /// Set the target-attribute
    pub fn set_target(&mut self, target: Option<LinkTarget>)
        ensures
            final(self).target() == target,
            final(self).inner() == old(self).inner(),
            final(self).uri() == old(self).uri(),
            final(self).attrs() == old(self).attrs(),
    {
        self.target = target;
    }

    /// Set an attribute on the main SVG-element that will be drawn.
    pub fn attr(&mut self, key: String, value: String)
        ensures
            final(self).attrs() == attrs_insert(old(self).attrs(), key@, value@),
            final(self).inner() == old(self).inner(),
            final(self).uri() == old(self).uri(),
            final(self).target() == old(self).target(),
    {
        self.attributes.insert(key, value);
    }
}

impl<N: Node> Node for Link<N> {
    open spec fn spec_entry_height(&self) -> int {
        self.inner().spec_entry_height()
    }

    open spec fn spec_height(&self) -> int {
        self.inner().spec_height()
    }

    open spec fn spec_width(&self) -> int {
        self.inner().spec_width()
    }

    /// The wrapped element is well formed.
    open spec fn valid(&self) -> bool {
        well_formed(&self.inner())
    }

    /// The wrapped element inside an `a` that carries the address, the
    /// target and then the attributes of the link.
    open spec fn shape(&self, x: i64, y: i64, h_dir: HDir) -> Shape {
        Shape::Group {
            tag: "a"@,
            attrs: attrs_extend(
                with_target(
                    attrs_insert(Seq::empty(), "xlink:href"@, self.uri()),
                    self.target(),
                ),
                self.attrs(),
            ),
            children: seq![self.inner().shape(x, y, h_dir)],
        }
    }

    fn is_valid(&self) -> (ok: bool) {
        self.inner.is_valid()
    }

    fn entry_height(&self) -> (r: i64) {
        self.inner.entry_height()
    }

    fn height(&self) -> (r: i64) {
        self.inner.height()
    }

    fn width(&self) -> (r: i64) {
        self.inner.width()
    }

    fn draw(&self, x: i64, y: i64, h_dir: HDir) -> (e: Element) {
        let ghost tag = "a"@;
        let ghost attrs = attrs_extend(
            with_target(attrs_insert(Seq::empty(), "xlink:href"@, self.uri()), self.target()),
            self.attrs(),
        );
        let ghost b = Bounds::at(x as int, y as int, self.spec_width(), self.spec_height());
        let a = Element::new("a").set("xlink:href", self.uri.as_str());
        let a = match self.target {
            Some(LinkTarget::Blank) => a.set("target", "_blank"),
            Some(LinkTarget::Parent) => a.set("target", "_parent"),
            Some(LinkTarget::Top) => a.set("target", "_top"),
            None => a,
        };
        proof {
            let is = self.inner().shape(x, y, h_dir);
            lemma_group_empty(tag, attrs, b);
            lemma_group_push(tag, attrs, Seq::empty(), is, b);
            assert(Seq::<Shape>::empty().push(is) =~= seq![is]);
        }
        a.set_all(&self.attributes).add(self.inner.draw(x, y, h_dir))
    }
}

} // verus!
