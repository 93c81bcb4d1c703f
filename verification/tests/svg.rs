use railroad::notactuallysvg::attributes::Attributes;
use railroad::notactuallysvg::path::push_cmd;
use railroad::strings::{decimal_string, str_eq, str_lt, to_chars};
use railroad::svg::{Arc, Element, HDir, PathCmd, PathData};
use std::borrow::Cow;

#[test]
fn encode_minimal() {
    for (inp, expected) in [
        ("'a", Some("&#x27;a")),
        ("", None),
        ("'", Some("&#x27;")),
        ("a'", Some("a&#x27;")),
        ("hello world!", None),
        ("&", Some("&amp;")),
        ("<br>", Some("&lt;br&gt;")),
        (
            "\"a\" is not \"b\"",
            Some("&quot;a&quot; is not &quot;b&quot;"),
        ),
    ] {
        println!("now hear this: {}", inp);
        let result = railroad::svg::encode_minimal(inp);
        assert_eq!(result, expected.unwrap_or(inp));
        assert!(matches!(
            (expected, result),
            (None, Cow::Borrowed(_)) | (Some(_), Cow::Owned(_))
        ));
    }
}

#[test]
fn notactuallysvg_test_encode_attribute() {
    let data = [
        ("", None),
        ("foobar", None),
        ("0 3px", Some("0&#x20;3px")),
        ("<img \"\"\">", Some("&lt;img&#x20;&quot;&quot;&quot;&gt;")),
        ("hej; hå", Some("hej&#x3B;&#x20;h&#xE5;")),
        ("d-none m-0", Some("d&#x2D;none&#x20;m&#x2D;0")),
        (
            "\"bread\" & 奶油",
            Some("&quot;bread&quot;&#x20;&amp;&#x20;奶油"),
        ),
    ];
    for &(input, expected) in data.iter() {
        let actual = railroad::svg::encode_attribute(input);
        assert_eq!(&actual, expected.unwrap_or(input));
        assert!(matches!(
            (expected, actual),
            (Some(_), Cow::Owned(_)) | (None, Cow::Borrowed(_))
        ));
    }
}

#[test]
fn encode_attribute_covers_every_character_below_0x100() {
    assert_eq!(railroad::svg::encode_attribute("\u{0}"), "&#x00;");
    assert_eq!(railroad::svg::encode_attribute("\u{1f}"), "&#x1F;");
    assert_eq!(railroad::svg::encode_attribute("'"), "&#x27;");
    assert_eq!(railroad::svg::encode_attribute("/09:"), "&#x2F;09&#x3A;");
    assert_eq!(railroad::svg::encode_attribute("@AZ["), "&#x40;AZ&#x5B;");
    assert_eq!(railroad::svg::encode_attribute("`az{"), "&#x60;az&#x7B;");
    assert_eq!(railroad::svg::encode_attribute("\u{ff}\u{100}"), "&#xFF;\u{100}");
}

#[test]
fn element_markup_of_nested_elements() {
    let e = Element::new("g")
        .add(Element::new("rect").set("class", "important").set_int("x", 15))
        .add(
            PathData::new(HDir::LTR)
                .move_to(5, 5)
                .line_rel(10, 20)
                .into_path(),
        );
    assert_eq!(
        e.to_string(),
        "<g>\n<rect class=\"important\" x=\"15\"/>\n<path d=\" M 5 5 l 10 20\"/>\n</g>\n"
    );
}

#[test]
fn element_without_text_and_children_is_self_closing() {
    assert_eq!(Element::new("g").to_string(), "<g/>\n");
    assert_eq!(Element::new("g").raw_text("").to_string(), "<g>\n</g>\n");
}

#[test]
fn element_text_is_escaped_and_raw_text_is_not() {
    assert_eq!(
        Element::new("text").text("a<b").to_string(),
        "<text>\na&lt;b</text>\n"
    );
    assert_eq!(
        Element::new("style").raw_text("a<b").to_string(),
        "<style>\na<b</style>\n"
    );
}

#[test]
fn element_siblings_follow_the_closing_tag() {
    let e = Element::new("a")
        .add(Element::new("b"))
        .append(Element::new("c"))
        .append(Element::new("d").set("k", "v"));
    assert_eq!(e.to_string(), "<a>\n<b/>\n</a>\n<c/>\n<d k=\"v\"/>\n");
}

#[test]
fn element_push_adds_a_child() {
    let mut e = Element::new("a");
    e.push(Element::new("b"));
    e.push(Element::new("c"));
    assert_eq!(e.to_string(), "<a>\n<b/>\n<c/>\n</a>\n");
}

#[test]
fn attributes_are_written_sorted_by_key() {
    let e = Element::new("g")
        .set("y", "1")
        .set("class", "c")
        .set("x", "2")
        .set("a", "0")
        .set("xlink:href", "u");
    assert_eq!(
        e.to_string(),
        "<g a=\"0\" class=\"c\" x=\"2\" xlink:href=\"u\" y=\"1\"/>\n"
    );
}

#[test]
fn setting_an_attribute_again_replaces_its_value() {
    let e = Element::new("g").set("x", "1").set("y", "2").set("x", "3");
    assert_eq!(e.to_string(), "<g x=\"3\" y=\"2\"/>\n");
}

#[test]
fn set_all_sets_every_attribute() {
    let mut attrs = Attributes::new();
    attrs.insert("class".to_owned(), "terminal".to_owned());
    attrs.insert("id".to_owned(), "t1".to_owned());
    let e = Element::new("g").set("class", "old").set("z", "9").set_all(&attrs);
    assert_eq!(e.to_string(), "<g class=\"terminal\" id=\"t1\" z=\"9\"/>\n");
}

#[test]
fn attributes_get_and_len() {
    let mut attrs = Attributes::new();
    assert_eq!(attrs.len(), 0);
    attrs.insert("b".to_owned(), "2".to_owned());
    attrs.insert("a".to_owned(), "1".to_owned());
    attrs.insert("b".to_owned(), "3".to_owned());
    assert_eq!(attrs.len(), 2);
    assert_eq!(attrs.key(0), "a");
    assert_eq!(attrs.value(1), "3");
    assert_eq!(attrs.get("b"), Some("3"));
    assert_eq!(attrs.get("c"), None);
    let copy = attrs.clone();
    assert_eq!(copy.get("a"), Some("1"));
}

#[test]
fn element_clone_is_equal_markup() {
    let e = Element::new("a")
        .set("k", "v")
        .text("t")
        .add(Element::new("b").add(Element::new("c")))
        .append(Element::new("d"));
    assert_eq!(e.clone().to_string(), e.to_string());
}

#[test]
fn horizontal_run_of_51_has_an_arrow_and_of_50_has_none() {
    assert_eq!(PathData::new(HDir::LTR).horizontal(50).to_string(), " h 50");
    assert_eq!(
        PathData::new(HDir::LTR).horizontal(51).to_string(),
        " h 51 m -22 0 l -5 -5 m 0 10 l 5 -5 m 22 0"
    );
    assert_eq!(PathData::new(HDir::LTR).horizontal(-50).to_string(), " h -50");
    assert_eq!(
        PathData::new(HDir::LTR).horizontal(-51).to_string(),
        " h -51 m 28 0 l 5 -5 m 0 10 l -5 -5 m -28 0"
    );
}

#[test]
fn horizontal_arrows_are_mirrored_from_right_to_left() {
    assert_eq!(
        PathData::new(HDir::RTL).horizontal(51).to_string(),
        " h 51 m -28 0 l 5 -5 m 0 10 l -5 -5 m 28 0"
    );
    assert_eq!(
        PathData::new(HDir::RTL).horizontal(-51).to_string(),
        " h -51 m 22 0 l -5 -5 m 0 10 l 5 -5 m -22 0"
    );
    assert_eq!(PathData::new(HDir::RTL).horizontal(50).to_string(), " h 50");
}

#[test]
fn vertical_run_of_51_has_an_arrow_and_of_50_has_none() {
    assert_eq!(PathData::new(HDir::LTR).vertical(50).to_string(), " v 50");
    assert_eq!(
        PathData::new(HDir::LTR).vertical(51).to_string(),
        " v 51 m 0 -22 l -5 -5 m 10 0 l -5 5 m 0 22"
    );
    assert_eq!(
        PathData::new(HDir::RTL).vertical(-51).to_string(),
        " v -51 m 0 28 l -5 5 m 10 0 l -5 -5 m 0 -28"
    );
    assert_eq!(PathData::new(HDir::LTR).vertical(-50).to_string(), " v -50");
}

#[test]
fn path_moves_and_lines() {
    let p = PathData::new(HDir::LTR)
        .move_to(1, -2)
        .move_rel(3, 4)
        .line_rel(-5, 6);
    assert_eq!(p.to_string(), " M 1 -2 m 3 4 l -5 6");
    assert_eq!(PathData::new(HDir::LTR).to_string(), "");
}

#[test]
fn arcs_of_all_eight_kinds() {
    let text = |kind: Arc| PathData::new(HDir::LTR).arc(12, kind).to_string();
    assert_eq!(text(Arc::EastToNorth), " a 12 12 0 0 1 -12 -12");
    assert_eq!(text(Arc::EastToSouth), " a 12 12 0 0 0 -12 12");
    assert_eq!(text(Arc::NorthToEast), " a 12 12 0 0 0 12 12");
    assert_eq!(text(Arc::NorthToWest), " a 12 12 0 0 1 -12 12");
    assert_eq!(text(Arc::SouthToEast), " a 12 12 0 0 1 12 -12");
    assert_eq!(text(Arc::SouthToWest), " a 12 12 0 0 0 -12 -12");
    assert_eq!(text(Arc::WestToNorth), " a 12 12 0 0 0 12 -12");
    assert_eq!(text(Arc::WestToSouth), " a 12 12 0 0 1 12 12");
}

#[test]
fn arc_of_the_least_radius_is_written_out() {
    let mut s = String::new();
    push_cmd(
        &mut s,
        PathCmd::Arc {
            radius: i64::MIN,
            kind: Arc::EastToNorth,
        },
        HDir::LTR,
    );
    assert_eq!(
        s,
        " a -9223372036854775808 -9223372036854775808 0 0 1 9223372036854775808 9223372036854775808"
    );
}

#[test]
fn hdir_invert_and_default() {
    assert_eq!(HDir::LTR.invert(), HDir::RTL);
    assert_eq!(HDir::RTL.invert(), HDir::LTR);
    assert_eq!(HDir::default(), HDir::LTR);
}

#[test]
fn decimal_numerals() {
    assert_eq!(decimal_string(0), "0");
    assert_eq!(decimal_string(7), "7");
    assert_eq!(decimal_string(10), "10");
    assert_eq!(decimal_string(-1), "-1");
    assert_eq!(decimal_string(1234567890), "1234567890");
    assert_eq!(decimal_string(i64::MAX), "9223372036854775807");
    assert_eq!(decimal_string(i64::MIN), "-9223372036854775808");
}

#[test]
fn strings_are_ordered_by_code_point() {
    assert!(str_lt("a", "b"));
    assert!(!str_lt("b", "a"));
    assert!(!str_lt("a", "a"));
    assert!(str_lt("", "a"));
    assert!(!str_lt("a", ""));
    assert!(str_lt("a", "ab"));
    assert!(str_lt("Z", "a"));
    assert!(str_lt("z", "é"));
    assert!(str_lt("\u{ffff}", "\u{10000}"));
    assert!(str_eq("héllo", "héllo"));
    assert!(!str_eq("a", "ab"));
    assert_eq!(to_chars("aé"), vec!['a', 'é']);
}
