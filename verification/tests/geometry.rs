use railroad::collection::NodeCollection;
use railroad::node::debug_string;
use railroad::{
    Choice, Comment, Diagram, Empty, End, HorizontalGrid, LabeledBox, Link, Node, NonTerminal,
    Optional, Repeat, Sequence, SimpleEnd, SimpleStart, Stack, Start, Terminal, VerticalGrid,
};

fn geometry(n: &dyn Node) -> (i64, i64, i64) {
    (n.entry_height(), n.height(), n.width())
}

#[test]
fn debug_impl() {
    let s = Sequence::new(vec![
        Box::new(SimpleStart) as Box<dyn Node>,
        Box::new(SimpleEnd),
    ]);
    assert_eq!("Sequence { children: [Node { entry_height: 5, height: 10, width: 15 }, Node { entry_height: 5, height: 10, width: 15 }], spacing: 10 }", s.debug_string());
    assert_eq!(
        "Node { entry_height: 5, height: 10, width: 40 }",
        debug_string(&s as &dyn Node)
    );
}

#[test]
fn sequence_of_two_debug_leaves() {
    let s = Sequence::new(vec![
        railroad::Debug::new(20, 30, 10),
        railroad::Debug::new(30, 50, 70),
    ]);
    assert_eq!(s.width(), 90);
    assert_eq!(s.height(), 50);
    assert_eq!(s.entry_height(), 30);
    assert_eq!(s.height_below_entry(), 20);
}

#[test]
fn sequence_of_none_and_of_one() {
    let s: Sequence<Empty> = Sequence::default();
    assert_eq!(geometry(&s), (0, 0, 0));
    let s = Sequence::new(vec![railroad::Debug::new(20, 30, 10)]);
    assert_eq!(geometry(&s), (20, 30, 10));
}

#[test]
fn sequence_push_and_into_inner() {
    let mut s = Sequence::new(vec![railroad::Debug::new(1, 2, 3)]);
    s.push(railroad::Debug::new(4, 6, 5));
    assert_eq!(geometry(&s), (4, 6, 18));
    let v = s.into_inner();
    assert_eq!(v.len(), 2);
    assert_eq!(v[1].width(), 5);
}

#[test]
fn choice_and_stack_without_children_are_empty() {
    let c: Choice<Empty> = Choice::new(vec![]);
    assert_eq!(geometry(&c), (0, 0, 0));
    let s: Stack<Empty> = Stack::new(vec![]);
    assert_eq!(geometry(&s), (0, 0, 0));
    let c: Choice<Empty> = Choice::default();
    assert_eq!(geometry(&c), (0, 0, 0));
    let s: Stack<Empty> = Stack::default();
    assert_eq!(geometry(&s), (0, 0, 0));
}

#[test]
fn choice_and_stack_of_one_child_have_its_geometry() {
    let t = Terminal::new("Foobar".to_owned());
    let expected = geometry(&t);
    assert_eq!(expected, (11, 22, 68));
    assert_eq!(geometry(&Choice::new(vec![t.clone()])), expected);
    assert_eq!(geometry(&Stack::new(vec![t])), expected);
    let d = geometry(&railroad::Debug::new(7, 9, 200));
    assert_eq!(geometry(&Choice::new(vec![railroad::Debug::new(7, 9, 200)])), d);
    assert_eq!(geometry(&Stack::new(vec![railroad::Debug::new(7, 9, 200)])), d);
}

#[test]
fn fixed_leaves() {
    assert_eq!(geometry(&Start), (10, 20, 20));
    assert_eq!(geometry(&End), (10, 20, 20));
    assert_eq!(geometry(&SimpleStart), (5, 10, 15));
    assert_eq!(geometry(&SimpleEnd), (5, 10, 15));
    assert_eq!(geometry(&Empty), (0, 0, 0));
    assert_eq!(geometry(&railroad::Debug::new(3, 4, 5)), (3, 4, 5));
}

#[test]
fn text_leaves_measure_their_text() {
    assert_eq!(geometry(&Terminal::new("Foo".to_owned())), (11, 22, 44));
    assert_eq!(geometry(&NonTerminal::new("Foo".to_owned())), (11, 22, 44));
    assert_eq!(geometry(&Comment::new("Foo".to_owned())), (10, 20, 31));
    assert_eq!(geometry(&Terminal::new(String::new())), (11, 22, 20));
    assert_eq!(geometry(&Comment::new(String::new())), (10, 20, 10));
}

#[test]
fn text_width_adds_a_twentieth() {
    assert_eq!(railroad::strings::text_width("1234567890123456789"), 19);
    assert_eq!(railroad::strings::text_width("12345678901234567890"), 21);
    assert_eq!(
        railroad::strings::checked_text_width("12345678901234567890"),
        Some(21)
    );
    let t = Terminal::new("12345678901234567890".to_owned());
    assert_eq!(t.width(), 188);
}

#[test]
fn text_width_counts_wide_characters_twice() {
    assert_eq!(railroad::strings::text_width("奶油"), 4);
    assert_eq!(Terminal::new("奶油".to_owned()).width(), 52);
    assert_eq!(Comment::new("奶油".to_owned()).width(), 38);
}

#[test]
fn optional_geometry() {
    let o = Optional::new(railroad::Debug::new(20, 30, 10));
    assert_eq!(geometry(&o), (32, 42, 58));
    let o = Optional::new(railroad::Debug::new(5, 30, 10));
    assert_eq!(geometry(&o), (24, 49, 58));
    assert_eq!(geometry(&Optional::new(Empty)), (24, 24, 48));
    assert_eq!(o.into_inner().width(), 10);
}

#[test]
fn repeat_geometry() {
    let r = Repeat::new(
        railroad::Debug::new(20, 30, 10),
        railroad::Debug::new(5, 10, 40),
    );
    assert_eq!(r.height_between_entries(), 25);
    assert_eq!(geometry(&r), (20, 50, 64));
    let r = Repeat::new(railroad::Debug::new(20, 21, 100), Empty);
    assert_eq!(r.height_between_entries(), 24);
    assert_eq!(geometry(&r), (20, 44, 124));
}

#[test]
fn stack_geometry() {
    let s = Stack::new(vec![
        railroad::Debug::new(20, 30, 10),
        railroad::Debug::new(5, 10, 40),
    ]);
    assert_eq!(s.left_padding(), 12);
    assert_eq!(s.right_padding(), 24);
    assert_eq!(geometry(&s), (20, 73, 76));
    let s = Stack::new(vec![
        railroad::Debug::new(5, 10, 40),
        railroad::Debug::new(20, 30, 10),
    ]);
    assert_eq!(geometry(&s), (5, 71, 88));
}

#[test]
fn stack_padded_height_and_paddings() {
    let mut s = Stack::new(vec![railroad::Debug::new(1, 2, 3)]);
    assert_eq!(s.left_padding(), 0);
    assert_eq!(s.right_padding(), 0);
    let a = railroad::Debug::new(20, 30, 10);
    let b = railroad::Debug::new(5, 10, 40);
    assert_eq!(s.padded_height(&a, &b), 63);
    assert_eq!(s.padded_height(&b, &a), 41);
    s.push(railroad::Debug::new(1, 2, 3));
    assert_eq!(s.left_padding(), 12);
    assert_eq!(s.into_inner().len(), 2);
}

#[test]
fn choice_geometry() {
    let c = Choice::new(vec![
        railroad::Debug::new(20, 30, 10),
        railroad::Debug::new(5, 10, 40),
    ]);
    assert_eq!(c.inner_padding(), 24);
    assert_eq!(c.padded_height(&railroad::Debug::new(5, 10, 40)), 27);
    assert_eq!(geometry(&c), (20, 57, 88));
    let mut c = Choice::new(vec![
        railroad::Debug::new(20, 30, 10),
        railroad::Debug::new(5, 10, 40),
    ]);
    c.push(railroad::Debug::new(30, 31, 5));
    assert_eq!(geometry(&c), (20, 98, 88));
    assert_eq!(c.into_inner().len(), 3);
}

#[test]
fn choice_with_an_empty_alternative() {
    let c = Choice::new(vec![
        Box::new(Empty) as Box<dyn Node>,
        Box::new(Terminal::new("Foo".to_owned())),
    ]);
    assert_eq!(c.inner_padding(), 24);
    assert_eq!(geometry(&c), (0, 35, 92));
}

#[test]
fn labeled_box_geometry() {
    let l = LabeledBox::new(
        railroad::Debug::new(20, 30, 10),
        Comment::new("ab".to_owned()),
    );
    assert_eq!(l.spacing(), 8);
    assert_eq!(l.padding(), 8);
    assert_eq!(geometry(&l), (56, 74, 40));
    let l = LabeledBox::without_label(railroad::Debug::new(20, 30, 10));
    assert_eq!(l.spacing(), 0);
    assert_eq!(l.padding(), 8);
    assert_eq!(geometry(&l), (28, 46, 26));
}

#[test]
fn labeled_box_around_nothing_has_no_margins() {
    let l = LabeledBox::new(Empty, Empty);
    assert_eq!(l.spacing(), 0);
    assert_eq!(l.padding(), 0);
    assert_eq!(geometry(&l), (0, 0, 0));
}

#[test]
fn grid_geometry() {
    let v = VerticalGrid::new(vec![
        railroad::Debug::new(20, 30, 10),
        railroad::Debug::new(5, 10, 40),
    ]);
    assert_eq!(geometry(&v), (0, 52, 40));
    let h = HorizontalGrid::new(vec![
        railroad::Debug::new(20, 30, 10),
        railroad::Debug::new(5, 10, 40),
    ]);
    assert_eq!(geometry(&h), (0, 30, 62));
    let mut v: VerticalGrid<Empty> = VerticalGrid::default();
    assert_eq!(geometry(&v), (0, 0, 0));
    v.push(Empty);
    assert_eq!(geometry(&v), (0, 0, 0));
    v.push(Empty);
    assert_eq!(geometry(&v), (0, 12, 0));
    assert_eq!(v.into_inner().len(), 2);
    let mut h: HorizontalGrid<Empty> = HorizontalGrid::default();
    h.push(Empty);
    h.push(Empty);
    h.push(Empty);
    assert_eq!(geometry(&h), (0, 0, 24));
    assert_eq!(h.into_inner().len(), 3);
}

#[test]
fn link_and_diagram_geometry() {
    let l = Link::new(railroad::Debug::new(20, 30, 10), "u".to_owned());
    assert_eq!(geometry(&l), (20, 30, 10));
    let d = Diagram::new(railroad::Debug::new(20, 30, 10));
    assert_eq!(geometry(&d), (0, 50, 30));
    assert_eq!(d.into_inner().height(), 30);
}

#[test]
fn nodes_behind_pointers_have_the_geometry_of_the_node() {
    let t = Terminal::new("Foo".to_owned());
    assert_eq!(geometry(&&t), (11, 22, 44));
    assert_eq!(geometry(&Box::new(t.clone())), (11, 22, 44));
    assert_eq!(geometry(&std::rc::Rc::new(t.clone())), (11, 22, 44));
    assert_eq!(geometry(&std::sync::Arc::new(t)), (11, 22, 44));
}

#[test]
fn collection_aggregates() {
    let v = vec![
        railroad::Debug::new(20, 30, 10),
        railroad::Debug::new(5, 50, 40),
        railroad::Debug::new(0, 1, 7),
    ];
    assert_eq!(v.max_entry_height(), 20);
    assert_eq!(v.max_height(), 50);
    assert_eq!(v.max_height_below_entry(), 45);
    assert_eq!(v.max_width(), 40);
    assert_eq!(v.total_width(), 57);
    assert_eq!(v.total_height(), 81);
    let none: Vec<Empty> = Vec::new();
    assert_eq!(none.max_entry_height(), 0);
    assert_eq!(none.max_height(), 0);
    assert_eq!(none.max_height_below_entry(), 0);
    assert_eq!(none.max_width(), 0);
    assert_eq!(none.total_width(), 0);
    assert_eq!(none.total_height(), 0);
}

#[test]
fn entry_height_lies_between_zero_and_height() {
    let nodes: Vec<Box<dyn Node>> = vec![
        Box::new(Start),
        Box::new(End),
        Box::new(SimpleStart),
        Box::new(SimpleEnd),
        Box::new(Empty),
        Box::new(Terminal::new("a".to_owned())),
        Box::new(NonTerminal::new("b".to_owned())),
        Box::new(Comment::new("c".to_owned())),
        Box::new(Optional::new(Empty)),
        Box::new(Repeat::new(Start, Empty)),
        Box::new(Stack::new(vec![Start, Start])),
        Box::new(Choice::new(vec![Start, Start, Start])),
        Box::new(LabeledBox::new(Start, Comment::new("l".to_owned()))),
        Box::new(VerticalGrid::new(vec![Start, Start])),
        Box::new(HorizontalGrid::new(vec![Start, Start])),
        Box::new(Link::new(Start, "u".to_owned())),
        Box::new(Diagram::new(Start)),
    ];
    for n in &nodes {
        assert!(0 <= n.entry_height());
        assert!(n.entry_height() <= n.height());
        assert!(0 <= n.width());
        assert_eq!(n.height_below_entry(), n.height() - n.entry_height());
    }
    let s = Sequence::new(nodes);
    assert!(0 <= s.entry_height() && s.entry_height() <= s.height());
}

#[test]
fn defaults_have_the_usual_spacing_and_no_attributes() {
    let r: Repeat<Empty, Empty> = Repeat::default();
    assert_eq!(geometry(&r), (0, 24, 24));
    let l: LabeledBox<Empty, Empty> = LabeledBox::default();
    assert_eq!(geometry(&l), (0, 0, 0));
    let l: LabeledBox<Start, Start> = LabeledBox::default();
    assert_eq!(geometry(&l), (46, 64, 36));
    let o: Optional<Start> = Optional::default();
    assert_eq!(geometry(&o), (24, 34, 68));
    let d: Diagram<Start> = Diagram::default();
    assert_eq!(geometry(&d), (0, 40, 40));
    assert_eq!(
        o.draw(0, 0, railroad::svg::HDir::LTR)
            .to_string()
            .lines()
            .next(),
        Some("<g>")
    );
}

#[test]
fn an_absent_node_is_empty() {
    let none: Option<Start> = None;
    assert_eq!(geometry(&none), (0, 0, 0));
    assert!(none.is_valid());
    assert_eq!(
        none.draw(3, 4, railroad::svg::HDir::LTR).to_string(),
        "<g/>\n"
    );
    let some = Some(Start);
    assert_eq!(geometry(&some), (10, 20, 20));
    assert_eq!(
        some.draw(3, 4, railroad::svg::HDir::LTR).to_string(),
        Start.draw(3, 4, railroad::svg::HDir::LTR).to_string()
    );
    let s = Sequence::new(vec![Some(Start), None, Some(Start)]);
    assert_eq!(geometry(&s), (10, 20, 60));
}

#[test]
fn a_node_behind_a_mutable_reference() {
    let mut t = Terminal::new("Foo".to_owned());
    let r = &mut t;
    assert_eq!((r.entry_height(), r.height(), r.width()), (11, 22, 44));
    assert_eq!(geometry(&r), (11, 22, 44));
}

#[test]
fn push_can_be_chained() {
    let mut seq: Sequence<Box<dyn Node>> = Sequence::default();
    seq.push(Box::new(Start))
        .push(Box::new(Terminal::new("BEGIN".to_owned())))
        .push(Box::new(NonTerminal::new("syntax".to_owned())))
        .push(Box::new(End));
    assert_eq!(geometry(&seq), (11, 22, 20 + 10 + 60 + 10 + 68 + 10 + 20));
    let mut v: VerticalGrid<Start> = VerticalGrid::default();
    v.push(Start).push(Start).push(Start);
    assert_eq!(geometry(&v), (0, 84, 20));
    let mut h: HorizontalGrid<Start> = HorizontalGrid::default();
    h.push(Start).push(Start);
    assert_eq!(geometry(&h), (0, 20, 52));
    let mut d = Diagram::new(Empty);
    d.add_element(railroad::svg::Element::new("a"))
        .add_element(railroad::svg::Element::new("b"));
    assert!(d.to_string().contains(">\n<a/>\n<b/>\n<g/>\n</svg>"));
    let mut e = railroad::svg::Element::new("g");
    e.push(railroad::svg::Element::new("a"))
        .push(railroad::svg::Element::new("b"));
    assert_eq!(e.to_string(), "<g>\n<a/>\n<b/>\n</g>\n");
}
