//! What a node draws, as geometry: the shapes, the markup that stands for
//! them, and the rectangle that holds them.
use crate::notactuallysvg::arrowheads::{anchored, expanded, lemma_expanded_inside, ARROW_REACH};
use crate::notactuallysvg::attributes::{Attributes, AttrSeq};
use crate::notactuallysvg::element::{Element, ElementView};
use crate::notactuallysvg::escape::escape_minimal;
use crate::notactuallysvg::path::{
    lemma_path_inside_larger, path_inside, path_text, Bounds, HDir, PathCmd, PathData,
};
use vstd::prelude::*;

verus! {

/// What a node draws.
pub enum Shape {
    /// A path.
    Path { cmds: Seq<PathCmd>, dir: HDir },
    /// A rectangle, with rounded corners or without, and attributes of its own.
    Rect { x: int, y: int, width: int, height: int, round: bool, attrs: AttrSeq },
    /// A text anchored at a point, and the attributes it had before it was placed.
    Text { x: int, y: int, content: Seq<char>, attrs: AttrSeq },
    /// A group of shapes under one tag.
    Group { tag: Seq<char>, attrs: AttrSeq, children: Seq<Shape> },
    /// Markup that occupies no place in the drawing.
    Markup { element: ElementView },
}

/// The shape lies inside `b`: a path begins with an absolute move and
/// lies there as `path_inside` says, a rectangle lies there with all four
/// corners, a text with its anchor, a group with all its members.
pub open spec fn within(s: Shape, b: Bounds) -> bool
    decreases s,
{
    match s {
        Shape::Path { cmds, dir } => anchored(cmds) && path_inside(cmds, b),
        Shape::Rect { x, y, width, height, round, attrs } => 0 <= width && 0 <= height
            && b.encloses(Bounds::at(x, y, width, height)),
        Shape::Text { x, y, content, attrs } => b.contains((x, y)),
        Shape::Group { tag, attrs, children } => all_within(children, b),
        Shape::Markup { element } => true,
    }
}

/// Every shape of the list lies inside `b`.
pub open spec fn all_within(ss: Seq<Shape>, b: Bounds) -> bool
    decreases ss,
{
    ss.len() == 0 || (all_within(ss.drop_last(), b) && within(ss.last(), b))
}

/// Everything that the shape draws lies inside `b`, the arrowheads on
/// the long runs of its paths among it.
pub open spec fn drawn_within(s: Shape, b: Bounds) -> bool
    decreases s,
{
    match s {
        Shape::Path { cmds, dir } => path_inside(expanded(cmds, dir), b),
        Shape::Group { tag, attrs, children } => all_drawn_within(children, b),
        _ => within(s, b),
    }
}

/// Everything that the shapes of the list draw lies inside `b`.
pub open spec fn all_drawn_within(ss: Seq<Shape>, b: Bounds) -> bool
    decreases ss,
{
    ss.len() == 0 || (all_drawn_within(ss.drop_last(), b) && drawn_within(ss.last(), b))
}

/// A shape that lies inside a rectangle lies there with all that it
/// draws but for the arrowheads, which reach at most `ARROW_REACH` beyond
/// the rectangle.
pub proof fn lemma_drawn_within(s: Shape, b: Bounds)
    requires
        within(s, b),
    ensures
        drawn_within(s, b.grown(ARROW_REACH as int)),
    decreases s, 1nat,
{
    reveal_with_fuel(within, 2);
    reveal_with_fuel(all_within, 2);
    reveal_with_fuel(drawn_within, 2);
    reveal_with_fuel(all_drawn_within, 2);
    match s {
        Shape::Path { cmds, dir } => {
            lemma_expanded_inside(cmds, dir, b);
        },
        Shape::Group { tag, attrs, children } => {
            lemma_all_drawn_within(children, b);
        },
        _ => {},
    }
}

/// Shapes that lie inside a rectangle lie there with all that they draw
/// but for the arrowheads.
pub proof fn lemma_all_drawn_within(ss: Seq<Shape>, b: Bounds)
    requires
        all_within(ss, b),
    ensures
        all_drawn_within(ss, b.grown(ARROW_REACH as int)),
    decreases ss, 0nat,
{
    reveal_with_fuel(within, 2);
    reveal_with_fuel(all_within, 2);
    reveal_with_fuel(drawn_within, 2);
    reveal_with_fuel(all_drawn_within, 2);
    if ss.len() > 0 {
        lemma_all_drawn_within(ss.drop_last(), b);
        lemma_drawn_within(ss.last(), b);
    }
}

/// A list of shapes lies inside `b` where each of them does.
pub proof fn lemma_all_within(ss: Seq<Shape>, b: Bounds)
    ensures
        all_within(ss, b) == (forall|i: int| 0 <= i < ss.len() ==> within(#[trigger] ss[i], b)),
    decreases ss.len(),
{
    reveal_with_fuel(all_within, 2);
    reveal_with_fuel(within, 2);
    if ss.len() > 0 {
        let front = ss.drop_last();
        lemma_all_within(front, b);
        if all_within(ss, b) {
            assert forall|i: int| 0 <= i < ss.len() implies within(#[trigger] ss[i], b) by {
                if i < front.len() {
                    assert(within(front[i], b));
                }
            }
        }
        if forall|i: int| 0 <= i < ss.len() ==> within(#[trigger] ss[i], b) {
            assert forall|i: int| 0 <= i < front.len() implies within(#[trigger] front[i], b) by {
                assert(within(ss[i], b));
            }
            assert(within(ss[ss.len() - 1], b));
        }
    }
}

/// The element that stands for a rectangle.
pub open spec fn rect_markup(
    x: int,
    y: int,
    width: int,
    height: int,
    round: bool,
    attrs: AttrSeq,
) -> ElementView {
    let e = ElementView::blank("rect"@).with_int("x"@, x).with_int("y"@, y).with_int(
        "height"@,
        height,
    ).with_int("width"@, width);
    let e = if round {
        e.with_int("rx"@, 10).with_int("ry"@, 10)
    } else {
        e
    };
    e.with_attrs(attrs)
}

/// The element that stands for a text: the content is escaped.
pub open spec fn text_markup(x: int, y: int, content: Seq<char>, attrs: AttrSeq) -> ElementView {
    ElementView::blank("text"@).with_attrs(attrs).with_int("x"@, x).with_int("y"@, y).with_text(
        escape_minimal(content),
    )
}

/// The element that stands for a path: its text is the attribute `d`.
pub open spec fn path_markup(cmds: Seq<PathCmd>, dir: HDir) -> ElementView {
    ElementView::blank("path"@).with_attr("d"@, path_text(cmds, dir))
}

/// The element that stands for a shape.
#[verifier::opaque]
pub open spec fn markup(s: Shape) -> ElementView
    decreases s,
{
    match s {
        Shape::Path { cmds, dir } => path_markup(cmds, dir),
        Shape::Rect { x, y, width, height, round, attrs } => rect_markup(
            x,
            y,
            width,
            height,
            round,
            attrs,
        ),
        Shape::Text { x, y, content, attrs } => text_markup(x, y, content, attrs),
        Shape::Group { tag, attrs, children } => ElementView {
            name: tag,
            attrs,
            text: None,
            children: markups(children),
            siblings: Seq::empty(),
        },
        Shape::Markup { element } => element,
    }
}

/// The elements that stand for a list of shapes.
#[verifier::opaque]
pub open spec fn markups(ss: Seq<Shape>) -> Seq<ElementView>
    decreases ss,
{
    if ss.len() == 0 {
        Seq::empty()
    } else {
        markups(ss.drop_last()).push(markup(ss.last()))
    }
}

/// The markup of a group is an element of the group's tag and attributes
/// that holds the markup of the members.
pub proof fn lemma_markup_group(tag: Seq<char>, attrs: AttrSeq, children: Seq<Shape>)
    ensures
        markup(Shape::Group { tag, attrs, children }) == (ElementView {
            name: tag,
            attrs,
            text: None,
            children: markups(children),
            siblings: Seq::empty(),
        }),
{
    reveal_with_fuel(markup, 2);
    reveal_with_fuel(markups, 2);
}

/// An element of a tag and attributes that holds nothing is the markup of
/// a group without members, which lies inside every rectangle.
pub proof fn lemma_group_empty(tag: Seq<char>, attrs: AttrSeq, b: Bounds)
    ensures
        markup(Shape::Group { tag, attrs, children: Seq::empty() }) == (ElementView {
            attrs,
            ..ElementView::blank(tag)
        }),
        within(Shape::Group { tag, attrs, children: Seq::empty() }, b),
{
    reveal(markups);
    reveal_with_fuel(all_within, 2);
    reveal_with_fuel(within, 2);
    lemma_markup_group(tag, attrs, Seq::empty());
}

/// The markup of a group with one more member, and what holds it.
pub proof fn lemma_group_push(
    tag: Seq<char>,
    attrs: AttrSeq,
    children: Seq<Shape>,
    s: Shape,
    b: Bounds,
)
    ensures
        markup(Shape::Group { tag, attrs, children: children.push(s) }) == markup(
            Shape::Group { tag, attrs, children },
        ).with_child(markup(s)),
        within(Shape::Group { tag, attrs, children: children.push(s) }, b) == (within(
            Shape::Group { tag, attrs, children },
            b,
        ) && within(s, b)),
{
    lemma_markup_group(tag, attrs, children);
    lemma_markup_group(tag, attrs, children.push(s));
    lemma_markups_push(children, s);
    lemma_within_push(tag, attrs, children, s, b);
}

/// A group with one more member lies inside `b` if the group did and the
/// new member does.
pub proof fn lemma_within_push(
    tag: Seq<char>,
    attrs: AttrSeq,
    children: Seq<Shape>,
    s: Shape,
    b: Bounds,
)
    ensures
        within(Shape::Group { tag, attrs, children: children.push(s) }, b) == (within(
            Shape::Group { tag, attrs, children },
            b,
        ) && within(s, b)),
{
    reveal_with_fuel(all_within, 2);
    reveal_with_fuel(within, 2);
    assert(children.push(s).drop_last() =~= children);
}

/// Markup stands for itself, and lies inside every rectangle.
pub proof fn lemma_markup_raw(element: ElementView)
    ensures
        markup(Shape::Markup { element }) == element,
        forall|b: Bounds| #[trigger] within(Shape::Markup { element }, b),
{
    reveal(markup);
}

/// The markup of a list with one more shape.
pub proof fn lemma_markups_push(ss: Seq<Shape>, s: Shape)
    ensures
        markups(ss.push(s)) == markups(ss).push(markup(s)),
{
    reveal_with_fuel(markup, 2);
    reveal_with_fuel(markups, 2);
    assert(ss.push(s).drop_last() =~= ss);
}

/// The markup of a list of shapes holds the markup of each shape.
pub proof fn lemma_markups(ss: Seq<Shape>)
    ensures
        markups(ss).len() == ss.len(),
        forall|i: int| 0 <= i < ss.len() ==> (#[trigger] markups(ss)[i]) == markup(ss[i]),
    decreases ss.len(),
{
    reveal_with_fuel(markup, 2);
    reveal_with_fuel(markups, 2);
    if ss.len() > 0 {
        lemma_markups(ss.drop_last());
    }
}

/// Shapes that lie inside a rectangle lie inside every larger one.
pub proof fn lemma_all_within_larger(ss: Seq<Shape>, a: Bounds, b: Bounds)
    requires
        all_within(ss, a),
        b.encloses(a),
    ensures
        all_within(ss, b),
    decreases ss, 0nat,
{
    reveal_with_fuel(all_within, 2);
    reveal_with_fuel(within, 2);
    if ss.len() > 0 {
        lemma_all_within_larger(ss.drop_last(), a, b);
        lemma_within_larger(ss.last(), a, b);
    }
}

/// A shape that lies inside a rectangle lies inside every larger one.
pub proof fn lemma_within_larger(s: Shape, a: Bounds, b: Bounds)
    requires
        within(s, a),
        b.encloses(a),
    ensures
        within(s, b),
    decreases s, 1nat,
{
    reveal_with_fuel(all_within, 2);
    reveal_with_fuel(within, 2);
    match s {
        Shape::Path { cmds, dir } => {
            lemma_path_inside_larger(cmds, a, b);
        },
        Shape::Group { tag, attrs, children } => {
            lemma_all_within_larger(children, a, b);
        },
        _ => {},
    }
}

impl PathData {
    /// Convert to a `Element` of type `path` and fill it's data-attribute
    #[must_use]
    pub fn into_path(self) -> (e: Element)
        ensures
            e@ == markup(Shape::Path { cmds: self@, dir: self.dir() }),
    {
        let text = self.to_string();
        proof {
            reveal(markup);
        }
        Element::new("path").set("d", text.as_str())
    }
}

/// The element of a rectangle.
pub fn rect_element(x: i64, y: i64, width: i64, height: i64, round: bool, attrs: &Attributes) -> (e:
    Element)
    ensures
        e@ == markup(
            Shape::Rect {
                x: x as int,
                y: y as int,
                width: width as int,
                height: height as int,
                round,
                attrs: attrs@,
            },
        ),
{
    proof {
        reveal(markup);
    }
    let e = Element::new("rect").set_int("x", x).set_int("y", y).set_int("height", height).set_int(
        "width",
        width,
    );
    let e = if round {
        e.set_int("rx", 10).set_int("ry", 10)
    } else {
        e
    };
    e.set_all(attrs)
}

/// The element of a text.
pub fn text_element(x: i64, y: i64, content: &str, attrs: &Attributes) -> (e: Element)
    ensures
        e@ == markup(Shape::Text { x: x as int, y: y as int, content: content@, attrs: attrs@ }),
{
    proof {
        reveal(markup);
    }
    Element::new("text").set_all(attrs).set_int("x", x).set_int("y", y).text(content)
}

} // verus!
