use railroad::svg::HDir;
use railroad::{
    Choice, Comment, Diagram, Empty, End, HorizontalGrid, LabeledBox, Link, LinkTarget, Node,
    NonTerminal, Optional, Repeat, Sequence, SimpleEnd, SimpleStart, Stack, Start, Terminal,
    VerticalGrid, DEFAULT_CSS,
};

fn number(token: Option<&str>) -> i64 {
    token.unwrap().parse().unwrap()
}

fn inside(x: i64, y: i64, width: i64, height: i64) -> bool {
    0 <= x && x <= width && 0 <= y && y <= height
}

fn path_stays_near(d: &str, width: i64, height: i64, reach: i64) -> bool {
    let mut tokens = d.split_whitespace();
    let (mut x, mut y) = (0, 0);
    while let Some(op) = tokens.next() {
        match op {
            "M" => {
                x = number(tokens.next());
                y = number(tokens.next());
            }
            "m" | "l" => {
                x += number(tokens.next());
                y += number(tokens.next());
            }
            "h" => x += number(tokens.next()),
            "v" => y += number(tokens.next()),
            "a" => {
                for _ in 0..5 {
                    tokens.next();
                }
                x += number(tokens.next());
                y += number(tokens.next());
            }
            _ => return false,
        }
        if !inside(x + reach, y + reach, width + 2 * reach, height + 2 * reach) {
            return false;
        }
    }
    true
}

fn path_stays_inside(d: &str, width: i64, height: i64) -> bool {
    let mut tokens = d.split_whitespace();
    let (mut x, mut y) = (0, 0);
    while let Some(op) = tokens.next() {
        match op {
            "M" => {
                x = number(tokens.next());
                y = number(tokens.next());
            }
            "m" | "l" => {
                x += number(tokens.next());
                y += number(tokens.next());
            }
            "h" => x += number(tokens.next()),
            "v" => y += number(tokens.next()),
            "a" => {
                for _ in 0..5 {
                    tokens.next();
                }
                x += number(tokens.next());
                y += number(tokens.next());
            }
            _ => return false,
        }
        if !inside(x, y, width, height) {
            return false;
        }
    }
    true
}

fn drawing_stays_inside(n: &dyn Node) -> bool {
    let (width, height) = (n.width(), n.height());
    let markup = n.draw(0, 0, HDir::LTR).to_string();
    let doc = roxmltree::Document::parse(&markup).unwrap();
    doc.descendants().filter(|e| e.is_element()).all(|e| {
        let attr = |name: &str| number(e.attribute(name));
        match e.tag_name().name() {
            "path" => path_stays_inside(e.attribute("d").unwrap(), width, height),
            "rect" => {
                inside(attr("x"), attr("y"), width, height)
                    && inside(
                        attr("x") + attr("width"),
                        attr("y") + attr("height"),
                        width,
                        height,
                    )
            }
            "text" => inside(attr("x"), attr("y"), width, height),
            _ => true,
        }
    })
}

fn term(label: &str) -> Box<dyn Node> {
    Box::new(Terminal::new(label.to_owned()))
}

#[test]
fn start_and_end_markup() {
    assert_eq!(
        Start.draw(0, 0, HDir::LTR).to_string(),
        "<path d=\" M 0 0 v 20 m 10 -20 v 20 m -10 -10 h 20\"/>\n"
    );
    assert_eq!(
        End.draw(3, 4, HDir::LTR).to_string(),
        "<path d=\" M 3 14 h 20 m -10 -10 v 20 m 10 -20 v 20\"/>\n"
    );
    assert_eq!(
        SimpleStart.draw(0, 0, HDir::LTR).to_string(),
        "<path d=\" M 0 5 a 5 5 0 0 1 5 -5 a 5 5 0 0 1 5 5 a 5 5 0 0 1 -5 5 a 5 5 0 0 1 -5 -5 m 10 0 h 5\"/>\n"
    );
    assert_eq!(
        SimpleEnd.draw(0, 0, HDir::LTR).to_string(),
        "<path d=\" M 0 5 h 5 a 5 5 0 0 1 5 -5 a 5 5 0 0 1 5 5 a 5 5 0 0 1 -5 5 a 5 5 0 0 1 -5 -5\"/>\n"
    );
    assert_eq!(Empty.draw(1, 2, HDir::LTR).to_string(), "<g/>\n");
}

#[test]
fn terminal_and_nonterminal_markup() {
    assert_eq!(
        Terminal::new("Foo".to_owned()).draw(10, 20, HDir::LTR).to_string(),
        "<g class=\"terminal\">\n<rect height=\"22\" rx=\"10\" ry=\"10\" width=\"44\" x=\"10\" y=\"20\"/>\n<text x=\"32\" y=\"36\">\nFoo</text>\n</g>\n"
    );
    assert_eq!(
        NonTerminal::new("Foo".to_owned()).draw(10, 20, HDir::LTR).to_string(),
        "<g class=\"nonterminal\">\n<rect height=\"22\" width=\"44\" x=\"10\" y=\"20\"/>\n<text x=\"32\" y=\"36\">\nFoo</text>\n</g>\n"
    );
}

#[test]
fn comment_and_debug_markup() {
    assert_eq!(
        Comment::new("Foo".to_owned()).draw(0, 0, HDir::LTR).to_string(),
        "<text class=\"comment\" x=\"15\" y=\"15\">\nFoo</text>\n"
    );
    assert_eq!(
        railroad::Debug::new(1, 2, 3).draw(4, 5, HDir::LTR).to_string(),
        "<rect class=\"debug\" height=\"2\" style=\"fill: hsla(0, 100%, 90%, 0.9); stroke-width: 2; stroke: red\" width=\"3\" x=\"4\" y=\"5\"/>\n"
    );
}

#[test]
fn attr_sets_an_attribute_of_the_drawn_element() {
    let mut t = Terminal::new("Foo".to_owned());
    t.attr("id".to_owned(), "t".to_owned());
    t.attr("class".to_owned(), "mine".to_owned());
    assert!(t
        .draw(0, 0, HDir::LTR)
        .to_string()
        .starts_with("<g class=\"mine\" id=\"t\">\n"));
    let mut c = Comment::new("Foo".to_owned());
    c.attr("x".to_owned(), "none".to_owned());
    assert_eq!(
        c.draw(0, 0, HDir::LTR).to_string(),
        "<text class=\"comment\" x=\"15\" y=\"15\">\nFoo</text>\n"
    );
}

#[test]
fn sequence_markup() {
    let s = Sequence::new(vec![Start, Start]);
    assert_eq!(
        s.draw(0, 0, HDir::LTR).to_string(),
        "<g class=\"sequence\">\n<path d=\" M 0 0 v 20 m 10 -20 v 20 m -10 -10 h 20\"/>\n<path d=\" M 30 0 v 20 m 10 -20 v 20 m -10 -10 h 20\"/>\n<path d=\" M 20 10 h 10\"/>\n</g>\n"
    );
    let s = Sequence::new(vec![
        Box::new(SimpleStart) as Box<dyn Node>,
        Box::new(Start),
    ]);
    assert_eq!(
        s.draw(0, 0, HDir::LTR).to_string(),
        "<g class=\"sequence\">\n<path d=\" M 0 10 a 5 5 0 0 1 5 -5 a 5 5 0 0 1 5 5 a 5 5 0 0 1 -5 5 a 5 5 0 0 1 -5 -5 m 10 0 h 5\"/>\n<path d=\" M 25 0 v 20 m 10 -20 v 20 m -10 -10 h 20\"/>\n<path d=\" M 15 10 h 10\"/>\n</g>\n"
    );
}

#[test]
fn optional_markup() {
    let o = Optional::new(Empty);
    assert_eq!(
        o.draw(0, 0, HDir::LTR).to_string(),
        "<g class=\"optional\">\n<path d=\" M 0 24 h 24 m -24 0 a 12 12 0 0 0 12 -12 v 0 a 12 12 0 0 1 12 -12 h 0 a 12 12 0 0 1 12 12 v 0 a 12 12 0 0 0 12 12 h -24\"/>\n<g/>\n</g>\n"
    );
}

#[test]
fn repeat_draws_the_lower_element_backwards() {
    let r = Repeat::new(Empty, railroad::Debug::new(0, 1, 60));
    let markup = r.draw(0, 0, HDir::LTR).to_string();
    assert_eq!(
        markup,
        "<g class=\"repeat\">\n<path d=\" M 0 0 h 12 m 0 0 h 72 m -33 0 l -5 -5 m 0 10 l 5 -5 m 33 0 m -12 0 a 12 12 0 0 1 12 12 v 0 a 12 12 0 0 1 -12 12 m -60 0 h 0 a 12 12 0 0 1 -12 -12 v 0 a 12 12 0 0 1 12 -12\"/>\n<rect class=\"debug\" height=\"1\" style=\"fill: hsla(0, 100%, 90%, 0.9); stroke-width: 2; stroke: red\" width=\"60\" x=\"12\" y=\"24\"/>\n<g/>\n</g>\n"
    );
    let r = Repeat::new(Empty, Optional::new(railroad::Debug::new(0, 1, 60)));
    assert!(r
        .draw(0, 0, HDir::LTR)
        .to_string()
        .contains(" h 60 m -33 0 l 5 -5 m 0 10 l -5 -5 m 33 0"));
    assert!(r
        .draw(0, 0, HDir::RTL)
        .to_string()
        .contains(" h 60 m -27 0 l -5 -5 m 0 10 l 5 -5 m 27 0"));
}

#[test]
fn stack_markup() {
    let s = Stack::new(vec![Empty, Empty]);
    assert_eq!(
        s.draw(0, 0, HDir::LTR).to_string(),
        "<g class=\"stack\">\n<path d=\" M 0 0 h 12\"/>\n<path d=\" M 12 0 a 12 12 0 0 1 12 12 v 0 a 12 12 0 0 1 -12 12 h 0 a 12 12 0 0 0 -12 12 v 0 v 0 a 12 12 0 0 0 12 12 h 0\"/>\n<g/>\n<path d=\" M 12 48 h 12 a 12 12 0 0 0 12 -12 v -24 a 12 12 0 0 1 12 -12\"/>\n<g/>\n</g>\n"
    );
    assert_eq!((s.entry_height(), s.height(), s.width()), (0, 48, 48));
}

#[test]
fn choice_markup() {
    let c = Choice::new(vec![Empty, Empty, Empty]);
    assert_eq!((c.entry_height(), c.height(), c.width()), (0, 46, 48));
    assert_eq!(
        c.draw(0, 0, HDir::LTR).to_string(),
        "<g class=\"choice\">\n<path d=\" M 0 0 h 24 m 0 0 h 24\"/>\n<g/>\n<path d=\" M 0 0 a 12 12 0 0 1 12 12 v 0 m 24 0 v 0 a 12 12 0 0 1 12 -12\"/>\n<path d=\" M 12 12 v 22 m 24 0 v -22\"/>\n<path d=\" M 12 12 v 0 a 12 12 0 0 0 12 12 m 0 0 h 0 a 12 12 0 0 0 12 -12 v 0\"/>\n<g/>\n<path d=\" M 12 34 v 0 a 12 12 0 0 0 12 12 m 0 0 h 0 a 12 12 0 0 0 12 -12 v 0\"/>\n<g/>\n</g>\n"
    );
    let none: Choice<Empty> = Choice::new(vec![]);
    assert_eq!(
        none.draw(5, 6, HDir::LTR).to_string(),
        "<g class=\"choice\">\n<path d=\" M 5 6 h 0 m 0 0 h 0\"/>\n</g>\n"
    );
}

#[test]
fn labeled_box_markup() {
    let l = LabeledBox::without_label(Empty);
    assert_eq!(
        l.draw(0, 0, HDir::LTR).to_string(),
        "<g class=\"labeledbox\">\n<rect height=\"0\" width=\"0\" x=\"0\" y=\"0\"/>\n<path d=\" M 0 0 h 0 m 0 0 h 0\"/>\n<g/>\n<g/>\n</g>\n"
    );
    let l = LabeledBox::new(Start, Start);
    assert_eq!(
        l.draw(0, 0, HDir::LTR).to_string(),
        "<g class=\"labeledbox\">\n<rect height=\"64\" width=\"36\" x=\"0\" y=\"0\"/>\n<path d=\" M 0 46 h 8 m 20 0 h 8\"/>\n<path d=\" M 8 8 v 20 m 10 -20 v 20 m -10 -10 h 20\"/>\n<path d=\" M 8 36 v 20 m 10 -20 v 20 m -10 -10 h 20\"/>\n</g>\n"
    );
}

#[test]
fn grid_markup() {
    let v = VerticalGrid::new(vec![Start, Start]);
    assert_eq!(
        v.draw(0, 0, HDir::LTR).to_string(),
        "<g class=\"verticalgrid\">\n<path d=\" M 0 0 v 20 m 10 -20 v 20 m -10 -10 h 20\"/>\n<path d=\" M 0 32 v 20 m 10 -20 v 20 m -10 -10 h 20\"/>\n</g>\n"
    );
    let h = HorizontalGrid::new(vec![Start, Start]);
    assert_eq!(
        h.draw(0, 0, HDir::LTR).to_string(),
        "<g class=\"horizontalgrid\">\n<path d=\" M 0 0 v 20 m 10 -20 v 20 m -10 -10 h 20\"/>\n<path d=\" M 32 0 v 20 m 10 -20 v 20 m -10 -10 h 20\"/>\n</g>\n"
    );
}

#[test]
fn link_markup() {
    let mut l = Link::new(Empty, "https://example.com/?a=1".to_owned());
    assert_eq!(
        l.draw(0, 0, HDir::LTR).to_string(),
        "<a class=\"link\" xlink:href=\"https://example.com/?a=1\">\n<g/>\n</a>\n"
    );
    l.set_target(Some(LinkTarget::Blank));
    assert!(l.draw(0, 0, HDir::LTR).to_string().starts_with("<a class=\"link\" target=\"_blank\" xlink:href="));
    l.set_target(Some(LinkTarget::Parent));
    assert!(l.draw(0, 0, HDir::LTR).to_string().contains(" target=\"_parent\" "));
    l.set_target(Some(LinkTarget::Top));
    l.attr("target".to_owned(), "mine".to_owned());
    assert!(l.draw(0, 0, HDir::LTR).to_string().contains(" target=\"mine\" "));
    l.set_target(None);
    l.attr("id".to_owned(), "l".to_owned());
    assert!(l.draw(0, 0, HDir::LTR).to_string().starts_with("<a class=\"link\" id=\"l\" target=\"mine\" xlink:href="));
}

#[test]
fn diagram_markup() {
    let d = Diagram::new(Empty);
    assert_eq!(
        d.to_string(),
        "<svg class=\"railroad\" viewBox=\"0 0 20 20\" xmlns=\"http://www.w3.org/2000/svg\" xmlns:xlink=\"http://www.w3.org/1999/xlink\">\n<g/>\n</svg>\n"
    );
    let mut d = Diagram::new(Start);
    d.attr("id".to_owned(), "d".to_owned());
    d.add_element(railroad::svg::Element::new("title").text("T"));
    assert_eq!(
        d.to_string(),
        "<svg class=\"railroad\" id=\"d\" viewBox=\"0 0 40 40\" xmlns=\"http://www.w3.org/2000/svg\" xmlns:xlink=\"http://www.w3.org/1999/xlink\">\n<title>\nT</title>\n<path d=\" M 10 10 v 20 m 10 -20 v 20 m -10 -10 h 20\"/>\n</svg>\n"
    );
}

#[test]
fn diagram_with_default_css() {
    let d = Diagram::with_default_css(Empty);
    let expected = format!(
        "<svg class=\"railroad\" viewBox=\"0 0 20 20\" xmlns=\"http://www.w3.org/2000/svg\" xmlns:xlink=\"http://www.w3.org/1999/xlink\">\n<style type=\"text/css\">\n{}</style>\n<g/>\n</svg>\n",
        DEFAULT_CSS
    );
    assert_eq!(d.to_string(), expected);
    let mut e = Diagram::new(Empty);
    e.add_default_css();
    assert_eq!(e.to_string(), expected);
    assert!(DEFAULT_CSS.contains("svg.railroad g.labeledbox > rect"));
}

#[test]
fn labels_are_escaped_and_the_markup_can_be_parsed() {
    let nodes: Vec<Box<dyn Node>> = vec![
        Box::new(Comment::new("Foo<bar>".to_owned())),
        Box::new(Terminal::new("Foo<bar>".to_owned())),
        Box::new(NonTerminal::new("Foo<bar> & \"baz\" 'q'".to_owned())),
    ];
    for n in nodes {
        let markup = Diagram::with_default_css(n).to_string();
        assert!(markup.contains("Foo&lt;bar&gt;"));
        assert!(!markup.contains("Foo<bar>"));
        let doc = roxmltree::Document::parse(&markup).unwrap();
        let text = doc
            .descendants()
            .find(|e| e.tag_name().name() == "text")
            .unwrap();
        assert!(text.text().unwrap().trim_start().starts_with("Foo<bar>"));
    }
}

#[test]
fn every_primitive_gives_markup_that_can_be_parsed() {
    let mut link = Link::new(term("Foo"), "https://www.rust-lang.org".to_owned());
    link.set_target(Some(LinkTarget::Blank));
    let nodes: Vec<Box<dyn Node>> = vec![
        Box::new(NonTerminal::new("Foobar".to_owned())),
        term("Foobar"),
        Box::new(Choice::new(vec![term("Foo"), term("Bar")])),
        Box::new(Stack::new(vec![term("Foo"), term("Bar")])),
        Box::new(Comment::new("Foobar".to_owned())),
        Box::new(VerticalGrid::new(vec![term("Foo"), term("Bar")])),
        Box::new(HorizontalGrid::new(vec![term("Foo"), term("Bar")])),
        Box::new(Repeat::new(term("Foo"), Empty)),
        Box::new(Optional::new(term("Foo"))),
        Box::new(LabeledBox::without_label(term("Foo"))),
        Box::new(link),
    ];
    for n in nodes {
        let seq = Sequence::new(vec![Box::new(SimpleStart) as Box<dyn Node>, n, Box::new(SimpleEnd)]);
        let markup = Diagram::with_default_css(seq).to_string();
        assert!(roxmltree::Document::parse(&markup).is_ok());
    }
}

#[test]
fn drawing_the_same_tree_twice_gives_the_same_markup() {
    let build = || {
        let mut t = Terminal::new("Foo".to_owned());
        t.attr("id".to_owned(), "a".to_owned());
        t.attr("data-z".to_owned(), "1".to_owned());
        t.attr("data-a".to_owned(), "2".to_owned());
        let mut d = Diagram::with_default_css(Choice::new(vec![
            Box::new(t) as Box<dyn Node>,
            Box::new(Optional::new(Comment::new("c".to_owned()))),
        ]));
        d.attr("z".to_owned(), "1".to_owned());
        d.attr("a".to_owned(), "2".to_owned());
        d
    };
    let d = build();
    assert_eq!(d.to_string(), d.to_string());
    assert_eq!(d.to_string(), build().to_string());
    assert!(d.to_string().contains("<g class=\"terminal\" data-a=\"2\" data-z=\"1\" id=\"a\">"));
    assert!(d.to_string().starts_with("<svg a=\"2\" class=\"railroad\" viewBox="));
}

#[test]
fn drawings_stay_inside_their_box() {
    let small = || railroad::Debug::new(3, 9, 20);
    let tall = || railroad::Debug::new(30, 45, 8);
    let nodes: Vec<Box<dyn Node>> = vec![
        Box::new(Start),
        Box::new(End),
        Box::new(SimpleStart),
        Box::new(SimpleEnd),
        Box::new(Empty),
        Box::new(small()),
        term("ab"),
        Box::new(NonTerminal::new("ab".to_owned())),
        Box::new(Comment::new("ab".to_owned())),
        Box::new(Sequence::new(vec![small(), tall(), small()])),
        Box::new(Optional::new(small())),
        Box::new(Optional::new(tall())),
        Box::new(Repeat::new(small(), tall())),
        Box::new(Repeat::new(tall(), small())),
        Box::new(Repeat::new(small(), Empty)),
        Box::new(Stack::new(vec![small(), tall(), small()])),
        Box::new(Stack::new(vec![tall(), small()])),
        Box::new(Stack::new(vec![tall()])),
        Box::new(Choice::new(vec![small(), tall(), small()])),
        Box::new(Choice::new(vec![tall(), small()])),
        Box::new(Choice::new(vec![small()])),
        Box::new(Choice::new(vec![Box::new(Empty) as Box<dyn Node>, Box::new(tall())])),
        Box::new(LabeledBox::new(small(), Comment::new("l".to_owned()))),
        Box::new(LabeledBox::without_label(tall())),
        Box::new(VerticalGrid::new(vec![small(), tall()])),
        Box::new(HorizontalGrid::new(vec![small(), tall()])),
    ];
    for n in &nodes {
        assert!(drawing_stays_inside(n));
    }
    let nested = Choice::new(vec![
        Box::new(Sequence::new(nodes)) as Box<dyn Node>,
        Box::new(Optional::new(Stack::new(vec![small(), tall()]))),
    ]);
    let markup = nested.draw(0, 0, HDir::LTR).to_string();
    let doc = roxmltree::Document::parse(&markup).unwrap();
    let (width, height) = (nested.width(), nested.height());
    for e in doc.descendants().filter(|e| e.tag_name().name() == "rect") {
        let x = number(e.attribute("x"));
        let y = number(e.attribute("y"));
        assert!(inside(x, y, width, height));
        assert!(inside(
            x + number(e.attribute("width")),
            y + number(e.attribute("height")),
            width,
            height
        ));
    }
}

#[test]
fn arrowheads_reach_five_units_beyond_the_box() {
    let o = Optional::new(railroad::Debug::new(0, 1, 60));
    let markup = o.draw(0, 0, HDir::LTR).to_string();
    let doc = roxmltree::Document::parse(&markup).unwrap();
    let path = doc
        .descendants()
        .find(|e| e.tag_name().name() == "path")
        .unwrap();
    let d = path.attribute("d").unwrap();
    assert!(d.contains(" h 60 m -27 0 l -5 -5 m 0 10 l 5 -5 m 27 0"));
    assert!(!path_stays_inside(d, o.width(), o.height()));
    assert!(path_stays_near(d, o.width(), o.height(), 5));
    assert!(!path_stays_near(d, o.width(), o.height(), 4));
    let wide = || railroad::Debug::new(70, 150, 120);
    let nodes: Vec<Box<dyn Node>> = vec![
        Box::new(Sequence::new(vec![wide(), wide()])),
        Box::new(Optional::new(wide())),
        Box::new(Repeat::new(wide(), wide())),
        Box::new(Stack::new(vec![wide(), wide(), wide()])),
        Box::new(Choice::new(vec![wide(), wide(), wide()])),
        Box::new(LabeledBox::without_label(wide())),
    ];
    for n in &nodes {
        for dir in [HDir::LTR, HDir::RTL] {
            let markup = n.draw(0, 0, dir).to_string();
            let doc = roxmltree::Document::parse(&markup).unwrap();
            for e in doc.descendants().filter(|e| e.tag_name().name() == "path") {
                assert!(path_stays_near(
                    e.attribute("d").unwrap(),
                    n.width(),
                    n.height(),
                    5
                ));
            }
        }
    }
}
