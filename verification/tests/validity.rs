use railroad::node::{checked_draw, checked_geometry, MAX_EXTENT};
use railroad::svg::HDir;
use railroad::{
    Choice, Comment, Diagram, Empty, HorizontalGrid, LabeledBox, Link, Node, NonTerminal, Optional,
    Repeat, Sequence, Stack, Start, Terminal, VerticalGrid,
};

fn huge() -> railroad::Debug {
    railroad::Debug::new(0, MAX_EXTENT, MAX_EXTENT)
}

#[test]
fn ordinary_nodes_are_valid() {
    let nodes: Vec<Box<dyn Node>> = vec![
        Box::new(Start),
        Box::new(Empty),
        Box::new(Terminal::new("a".to_owned())),
        Box::new(NonTerminal::new("b".to_owned())),
        Box::new(Comment::new("c".to_owned())),
        Box::new(railroad::Debug::new(0, 1, 0)),
        Box::new(huge()),
        Box::new(Optional::new(Start)),
        Box::new(Repeat::new(Start, Empty)),
        Box::new(Stack::new(vec![Start, Start])),
        Box::new(Choice::new(vec![Start, Start, Start])),
        Box::new(LabeledBox::new(Start, Comment::new("l".to_owned()))),
        Box::new(VerticalGrid::new(vec![Start, Start])),
        Box::new(HorizontalGrid::new(vec![Start, Start])),
        Box::new(Link::new(Start, "u".to_owned())),
        Box::new(Diagram::new(Start)),
    ];
    for n in &nodes {
        assert!(n.is_valid());
    }
    assert!(Sequence::new(vec![Start, Start]).is_valid());
    let empty: Sequence<Start> = Sequence::new(vec![]);
    assert!(empty.is_valid());
    assert!(Choice::<Start>::new(vec![]).is_valid());
    assert!(Stack::<Start>::new(vec![]).is_valid());
}

#[test]
fn debug_leaves_need_bounded_dimensions() {
    assert!(!railroad::Debug::new(-5, 3, 1).is_valid());
    assert!(!railroad::Debug::new(0, 3, -1).is_valid());
    assert!(!railroad::Debug::new(0, MAX_EXTENT + 1, 1).is_valid());
    assert!(!railroad::Debug::new(0, 1, MAX_EXTENT + 1).is_valid());
    assert!(railroad::Debug::new(0, MAX_EXTENT, MAX_EXTENT).is_valid());
}

#[test]
fn nodes_that_grow_too_large_are_not_valid() {
    assert!(!Sequence::new(vec![huge(), huge()]).is_valid());
    assert!(!Sequence::new(vec![railroad::Debug::new(-5, 3, 1)]).is_valid());
    assert!(!Optional::new(huge()).is_valid());
    assert!(!Repeat::new(huge(), Empty).is_valid());
    assert!(!Stack::new(vec![huge(), huge()]).is_valid());
    assert!(Stack::new(vec![huge()]).is_valid());
    assert!(!Choice::new(vec![huge(), huge()]).is_valid());
    assert!(Choice::new(vec![huge()]).is_valid());
    assert!(!LabeledBox::without_label(huge()).is_valid());
    assert!(!VerticalGrid::new(vec![huge(), huge()]).is_valid());
    assert!(VerticalGrid::new(vec![huge()]).is_valid());
    assert!(!HorizontalGrid::new(vec![huge(), huge()]).is_valid());
    assert!(!Diagram::new(huge()).is_valid());
    assert!(Link::new(huge(), "u".to_owned()).is_valid());
    assert!(!Link::new(Optional::new(huge()), "u".to_owned()).is_valid());
}

#[test]
fn checked_geometry_of_valid_and_invalid_nodes() {
    assert_eq!(checked_geometry(&Start), Some((10, 20, 20)));
    assert_eq!(
        checked_geometry(&Terminal::new("Foo".to_owned())),
        Some((11, 22, 44))
    );
    assert_eq!(checked_geometry(&Optional::new(huge())), None);
    assert_eq!(checked_geometry(&railroad::Debug::new(-1, 0, 0)), None);
}

#[test]
fn checked_draw_needs_room_for_the_box() {
    assert_eq!(
        checked_draw(&Start, 0, 0, HDir::LTR).unwrap().to_string(),
        Start.draw(0, 0, HDir::LTR).to_string()
    );
    assert!(checked_draw(&Start, MAX_EXTENT - 20, -MAX_EXTENT, HDir::LTR).is_some());
    assert!(checked_draw(&Start, MAX_EXTENT - 19, 0, HDir::LTR).is_none());
    assert!(checked_draw(&Start, 0, -MAX_EXTENT - 1, HDir::LTR).is_none());
    assert!(checked_draw(&Start, i64::MAX, i64::MIN, HDir::LTR).is_none());
    assert!(checked_draw(&Optional::new(huge()), 0, 0, HDir::LTR).is_none());
}

#[test]
fn render_gives_the_markup_of_valid_diagrams() {
    let d = Diagram::new(Start);
    assert_eq!(d.render(), Some(d.to_string()));
    assert_eq!(Diagram::new(huge()).render(), None);
}
