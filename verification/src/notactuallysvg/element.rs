//! Elements: a tag with attributes, text, children and siblings.
use crate::notactuallysvg::attributes::{
    attrs_extend, attrs_insert, attrs_sorted, Attributes, AttrSeq,
};
use crate::notactuallysvg::escape::{escape_minimal, escaped_minimal};
use crate::strings::{decimal, decimal_string};
use vstd::prelude::*;
use vstd::string::StringExecFns;

verus! {

/// What an element holds.
pub struct ElementView {
    /// The name of the tag.
    pub name: Seq<char>,
    /// The attributes, sorted by key.
    pub attrs: AttrSeq,
    /// The text inside the tag, written before the children as it is.
    pub text: Option<Seq<char>>,
    /// The elements inside the tag.
    pub children: Seq<ElementView>,
    /// The elements written behind the tag.
    pub siblings: Seq<ElementView>,
}

impl ElementView {
    /// An element of the given name and nothing else.
    pub open spec fn blank(name: Seq<char>) -> ElementView {
        ElementView {
            name,
            attrs: Seq::empty(),
            text: None,
            children: Seq::empty(),
            siblings: Seq::empty(),
        }
    }

    /// The element with one attribute set.
    pub open spec fn with_attr(self, key: Seq<char>, value: Seq<char>) -> ElementView {
        ElementView { attrs: attrs_insert(self.attrs, key, value), ..self }
    }

    /// The element with one attribute set to a number.
    pub open spec fn with_int(self, key: Seq<char>, value: int) -> ElementView {
        self.with_attr(key, decimal(value))
    }

    /// The element with all the given attributes set.
    pub open spec fn with_attrs(self, attrs: AttrSeq) -> ElementView {
        ElementView { attrs: attrs_extend(self.attrs, attrs), ..self }
    }

    /// The element with its text replaced.
    pub open spec fn with_text(self, text: Seq<char>) -> ElementView {
        ElementView { text: Some(text), ..self }
    }

    /// The element with one more child.
    pub open spec fn with_child(self, child: ElementView) -> ElementView {
        ElementView { children: self.children.push(child), ..self }
    }

    /// The element with one more sibling.
    pub open spec fn with_sibling(self, sibling: ElementView) -> ElementView {
        ElementView { siblings: self.siblings.push(sibling), ..self }
    }

    /// The element has neither text nor children and is written as one tag.
    pub open spec fn is_empty(self) -> bool {
        self.text is None && self.children.len() == 0
    }
}

/// The text of a list of attributes: for each, a space, the key, `="`,
/// the value and `"`.
pub open spec fn attrs_text(attrs: AttrSeq) -> Seq<char>
    decreases attrs.len(),
{
    if attrs.len() == 0 {
        Seq::empty()
    } else {
        attrs_text(attrs.drop_last()) + " "@ + attrs.last().0 + "=\""@ + attrs.last().1 + "\""@
    }
}

/// The markup of an element: the opening tag with the attributes in the
/// order of their keys; the text and the children, if there are any, and
/// then the closing tag; at last the siblings. An element without text and
/// children is a single self-closing tag.
pub open spec fn render(e: ElementView) -> Seq<char>
    decreases e, 0nat,
{
    "<"@ + e.name + attrs_text(e.attrs) + (if e.is_empty() {
        "/>\n"@
    } else {
        ">\n"@ + (match e.text {
            Some(t) => t,
            None => Seq::empty(),
        }) + render_from(e.children, 0) + "</"@ + e.name + ">\n"@
    }) + render_from(e.siblings, 0)
}

/// The markup of the elements of `es` from position `from` on.
pub open spec fn render_from(es: Seq<ElementView>, from: int) -> Seq<char>
    decreases es, es.len() - from,
{
    if 0 <= from < es.len() {
        render(es[from]) + render_from(es, from + 1)
    } else {
        Seq::empty()
    }
}

/// The attributes of the element and of every element below and behind
/// it are sorted by key.
pub open spec fn sorted_throughout(e: ElementView) -> bool
    decreases e,
{
    attrs_sorted(e.attrs) && all_sorted(e.children) && all_sorted(e.siblings)
}

/// The attributes of all the elements, and of every element below and
/// behind them, are sorted by key.
pub open spec fn all_sorted(es: Seq<ElementView>) -> bool
    decreases es,
{
    es.len() == 0 || (all_sorted(es.drop_last()) && sorted_throughout(es.last()))
}

/// The markup of the first `n` elements of `es`.
pub open spec fn render_upto(es: Seq<ElementView>, n: int) -> Seq<char>
    decreases n,
{
    if 0 < n <= es.len() {
        render_upto(es, n - 1) + render(es[n - 1])
    } else {
        Seq::empty()
    }
}

proof fn lemma_render_split(es: Seq<ElementView>, from: int, n: int)
    requires
        0 <= from <= n <= es.len(),
    ensures
        render_from(es, from) == render_upto(es.skip(from), n - from) + render_from(es, n),
    decreases n - from,
{
    if from == n {
        assert(render_upto(es.skip(from), 0) + render_from(es, n) =~= render_from(es, n));
    } else {
        lemma_render_split(es, from, n - 1);
        assert(es.skip(from)[n - 1 - from] == es[n - 1]);
        assert(render_upto(es.skip(from), n - from) + render_from(es, n) =~= render_upto(
            es.skip(from),
            n - 1 - from,
        ) + (render(es[n - 1]) + render_from(es, n)));
    }
}

/// A pseudo-SVG Element
#[derive(Debug)]
pub struct Element {
    name: String,
    attributes: Attributes,
    text: Option<String>,
    children: Vec<Element>,
    siblings: Vec<Element>,
}

/// The views of a list of elements.
pub closed spec fn views(es: Seq<Element>) -> Seq<ElementView>
    decreases es,
{
    if es.len() == 0 {
        Seq::empty()
    } else {
        views(es.drop_last()).push(es.last().model())
    }
}

impl View for Element {
    type V = ElementView;

    closed spec fn view(&self) -> ElementView {
        self.model()
    }
}

impl Element {
    /// What the element holds.
    closed spec fn model(&self) -> ElementView
        decreases self,
    {
        ElementView {
            name: self.name@,
            attrs: self.attributes@,
            text: match self.text {
                Some(t) => Some(t@),
                None => None,
            },
            children: views(self.children@),
            siblings: views(self.siblings@),
        }
    }
}

/// The views of a list are the views of its elements.
pub proof fn lemma_views(es: Seq<Element>)
    ensures
        views(es).len() == es.len(),
        forall|i: int| 0 <= i < es.len() ==> (#[trigger] views(es)[i]) == es[i]@,
    decreases es.len(),
{
    reveal_with_fuel(views, 2);
    if es.len() > 0 {
        lemma_views(es.drop_last());
    }
}

/// The view of an element read off its fields.
proof fn lemma_view(e: Element)
    ensures
        e@.name == e.name@,
        e@.attrs == e.attributes@,
        e@.text == match e.text {
            Some(t) => Some(t@),
            None => None,
        },
        e@.children == views(e.children@),
        e@.siblings == views(e.siblings@),
{
    reveal_with_fuel(Element::model, 2);
}

/// The views of a list with one more element.
pub proof fn lemma_views_push(es: Seq<Element>, e: Element)
    ensures
        views(es.push(e)) == views(es).push(e@),
{
    reveal_with_fuel(views, 2);
    assert(es.push(e).drop_last() =~= es);
}

impl Clone for Element {
    fn clone(&self) -> (r: Self)
        ensures
            r@ == self@,
        decreases self,
    {
        let mut children: Vec<Element> = Vec::new();
        let mut i: usize = 0;
        while i < self.children.len()
            invariant
                i <= self.children.len(),
                children@.len() == i,
                forall|j: int| 0 <= j < i ==> (#[trigger] children@[j])@ == self.children@[j]@,
            decreases self.children.len() - i,
        {
            children.push(self.children[i].clone());
            i += 1;
        }
        let mut siblings: Vec<Element> = Vec::new();
        let mut i: usize = 0;
        while i < self.siblings.len()
            invariant
                i <= self.siblings.len(),
                siblings@.len() == i,
                forall|j: int| 0 <= j < i ==> (#[trigger] siblings@[j])@ == self.siblings@[j]@,
            decreases self.siblings.len() - i,
        {
            siblings.push(self.siblings[i].clone());
            i += 1;
        }
        let text = match &self.text {
            Some(t) => Some(t.clone()),
            None => None,
        };
        let r = Element {
            name: self.name.clone(),
            attributes: self.attributes.clone(),
            text,
            children,
            siblings,
        };
        proof {
            lemma_view(r);
            lemma_view(*self);
            lemma_views(r.children@);
            lemma_views(self.children@);
            lemma_views(r.siblings@);
            lemma_views(self.siblings@);
            assert(views(r.children@) =~= views(self.children@));
            assert(views(r.siblings@) =~= views(self.siblings@));
        }
        r
    }
}

impl Element {
    /// Construct a new `Element` of type `name`.
    pub fn new(name: &str) -> (e: Self)
        ensures
            e@ == ElementView::blank(name@),
    {
        let e = Element {
            name: String::from_str(name),
            attributes: Attributes::new(),
            text: None,
            children: Vec::new(),
            siblings: Vec::new(),
        };
e
    }

    /// Set this Element's attribute `key` to `value`
    #[must_use]
    pub fn set(self, key: &str, value: &str) -> (e: Self)
        ensures
            e@ == self@.with_attr(key@, value@),
    {
        let mut e = self;
        e.attributes.insert(String::from_str(key), String::from_str(value));
        e
    }

    /// Set this Element's attribute `key` to the decimal numeral of `value`
    #[must_use]
    pub fn set_int(self, key: &str, value: i64) -> (e: Self)
        ensures
            e@ == self@.with_int(key@, value as int),
    {
        let mut e = self;
        e.attributes.insert(String::from_str(key), decimal_string(value));
        e
    }

    /// Set all attributes via these `key`:`value`-pairs
    #[must_use]
    pub fn set_all(self, attrs: &Attributes) -> (e: Self)
        ensures
            e@ == self@.with_attrs(attrs@),
    {
        let mut e = self;
        e.attributes.extend(attrs);
        e
    }

    /// Set the text within the opening and closing tag of this Element.
    ///
    /// The text is automatically HTML-escaped. It is written before any children.
    #[must_use]
    pub fn text(self, text: &str) -> (e: Self)
        ensures
            e@ == self@.with_text(escape_minimal(text@)),
    {
        let mut e = self;
        let (escaped, _) = escaped_minimal(text);
        e.text = Some(escaped);
        e
    }

    /// Set the text within the opening and closing tag of this Element.
    ///
    /// The text is NOT automatically HTML-escaped.
    #[must_use]
    pub fn raw_text(self, text: &str) -> (e: Self)
        ensures
            e@ == self@.with_text(text@),
    {
        let mut e = self;
        e.text = Some(String::from_str(text));
        e
    }

    /// Add a child to this Element
    ///
    /// Children is written within the opening and closing tag of this Element.
    #[must_use]
    pub fn add(self, e: Self) -> (r: Self)
        ensures
            r@ == self@.with_child(e@),
    {
        let mut r = self;
        r.children.push(e);
        proof {
            lemma_view(r);
            lemma_view(self);
            lemma_views_push(self.children@, e);
        }
        r
    }

    /// Add a child to this Element
    ///
    /// Children is written within the opening and closing tag of this Element.
    pub fn push(&mut self, e: Self) -> (r: &mut Self)
        ensures
            r@ == old(self)@.with_child(e@),
            *final(self) == *final(r),
    {
        self.children.push(e);
        proof {
            lemma_view(*self);
            lemma_view(*old(self));
            lemma_views_push(old(self).children@, e);
        }
        self
    }

    /// Add a sibling to this Element
    ///
    /// Siblings is written after the closing tag of this Element.
    #[must_use]
    pub fn append(self, e: Self) -> (r: Self)
        ensures
            r@ == self@.with_sibling(e@),
    {
        let mut r = self;
        r.siblings.push(e);
        proof {
            lemma_view(r);
            lemma_view(self);
            lemma_views_push(self.siblings@, e);
        }
        r
    }

    fn render_attrs(&self, out: &mut String)
        ensures
            final(out)@ == old(out)@ + attrs_text(self@.attrs),
            attrs_sorted(self@.attrs),
    {
        let n = self.attributes.len();
        let mut i: usize = 0;
        assert(old(out)@ + attrs_text(self@.attrs.take(0)) =~= old(out)@);
        while i < n
            invariant
                i <= n,
                n == self.attributes@.len(),
                out@ == old(out)@ + attrs_text(self.attributes@.take(i as int)),
            decreases n - i,
        {
            let ghost before = out@;
            out.append(" ");
            out.append(self.attributes.key(i));
            out.append("=\"");
            out.append(self.attributes.value(i));
            out.append("\"");
            proof {
                let done = self.attributes@.take(i as int);
                let next = self.attributes@.take(i + 1);
                assert(next.drop_last() =~= done);
                assert(next.last() == self.attributes@[i as int]);
                assert(out@ =~= old(out)@ + attrs_text(next));
            }
            i += 1;
        }
        assert(self.attributes@.take(i as int) =~= self@.attrs);
    }

    fn render_list(list: &Vec<Element>, out: &mut String)
        ensures
            final(out)@ == old(out)@ + render_from(views(list@), 0),
            all_sorted(views(list@)),
        decreases list, 0nat,
    {
        let mut i: usize = 0;
        let ghost vs = views(list@);
        assert(old(out)@ + render_upto(vs, 0) =~= old(out)@);
        proof {
            reveal_with_fuel(all_sorted, 2);
            lemma_views(list@);
        }
        while i < list.len()
            invariant
                i <= list.len(),
                vs == views(list@),
                vs.len() == list@.len(),
                out@ == old(out)@ + render_upto(vs, i as int),
                all_sorted(vs.take(i as int)),
            decreases list.len() - i,
        {
            list[i].render_into(out);
            proof {
                reveal_with_fuel(all_sorted, 2);
                lemma_views(list@);
                assert(out@ =~= old(out)@ + render_upto(vs, i + 1));
                assert(vs.take(i + 1).drop_last() =~= vs.take(i as int));
            }
            i += 1;
        }
        proof {
            assert(vs.take(i as int) =~= vs);
            lemma_views(list@);
            lemma_render_split(vs, 0, i as int);
            assert(vs.skip(0) =~= vs);
            assert(render_upto(vs, i as int) + render_from(vs, i as int) =~= render_upto(
                vs,
                i as int,
            ));
        }
    }

    /// Appends the markup of this element to `out`.
    pub fn render_into(&self, out: &mut String)
        ensures
            final(out)@ == old(out)@ + render(self@),
            sorted_throughout(self@),
        decreases self, 1nat,
    {
        proof {
            reveal_with_fuel(sorted_throughout, 2);
            reveal_with_fuel(all_sorted, 2);
        }
        out.append("<");
        out.append(self.name.as_str());
        self.render_attrs(out);
        if self.text.is_none() && self.children.len() == 0 {
            out.append("/>\n");
        } else {
            out.append(">\n");
            match &self.text {
                Some(t) => {
                    out.append(t.as_str());
                },
                None => {
                    assert(out@ + Seq::<char>::empty() =~= out@);
                },
            }
            Self::render_list(&self.children, out);
            out.append("</");
            out.append(self.name.as_str());
            out.append(">\n");
        }
        Self::render_list(&self.siblings, out);
        assert(out@ =~= old(out)@ + render(self@));
    }

    /// The markup of this element. It depends on nothing but what the
    /// element holds, and lists the attributes of every element in the
    /// order of their keys.
    pub fn to_string(&self) -> (s: String)
        ensures
            s@ == render(self@),
            sorted_throughout(self@),
    {
        let mut s = String::new();
        self.render_into(&mut s);
        assert(Seq::<char>::empty() + render(self@) =~= render(self@));
        s
    }
}

} // verus!
