use railroad::render::FitTo;
use railroad::svg::Element;
use railroad::{Diagram, Empty, Start};

#[test]
fn fit_to_from_size() {
    assert_eq!(FitTo::from_size(Some(3), None), FitTo::MaxWidth(3));
    assert_eq!(FitTo::from_size(None, Some(4)), FitTo::MaxHeight(4));
    assert_eq!(
        FitTo::from_size(Some(3), Some(4)),
        FitTo::MaxSize {
            width: 3,
            height: 4
        }
    );
    assert_eq!(
        FitTo::from_size(None, None),
        FitTo::MaxSize {
            width: 1024,
            height: 1024
        }
    );
    assert_eq!(FitTo::default(), FitTo::from_size(None, None));
}

#[test]
fn fit_to_size_scales_to_a_width_or_a_height() {
    assert_eq!(FitTo::MaxWidth(100).fit_to_size(200, 100), Some((100, 50)));
    assert_eq!(FitTo::MaxWidth(400).fit_to_size(200, 100), Some((400, 200)));
    assert_eq!(FitTo::MaxWidth(1).fit_to_size(3, 1), Some((1, 1)));
    assert_eq!(FitTo::MaxHeight(50).fit_to_size(200, 100), Some((100, 50)));
    assert_eq!(FitTo::MaxHeight(10).fit_to_size(3, 4), Some((8, 10)));
}

#[test]
fn fit_to_size_scales_into_a_size() {
    assert_eq!(FitTo::default().fit_to_size(200, 100), Some((1024, 512)));
    assert_eq!(FitTo::default().fit_to_size(100, 200), Some((512, 1024)));
    let fit = FitTo::MaxSize {
        width: 30,
        height: 40,
    };
    assert_eq!(fit.fit_to_size(30, 40), Some((30, 40)));
    assert_eq!(fit.fit_to_size(300, 100), Some((30, 10)));
}

#[test]
fn fit_to_size_of_nothing_is_nothing() {
    assert_eq!(FitTo::MaxWidth(0).fit_to_size(200, 100), None);
    assert_eq!(FitTo::MaxHeight(0).fit_to_size(200, 100), None);
    let fit = FitTo::MaxSize {
        width: 0,
        height: 40,
    };
    assert_eq!(fit.fit_to_size(200, 100), None);
    let fit = FitTo::MaxSize {
        width: 40,
        height: 0,
    };
    assert_eq!(fit.fit_to_size(200, 100), None);
}

#[test]
fn debug_leaves_the_element_as_it_is() {
    let e = Element::new("g").set("k", "v").debug("Start", 1, 2, &Start);
    assert_eq!(e.to_string(), "<g k=\"v\"/>\n");
}

#[test]
fn debug_overlay_adds_the_geometry_and_an_outline() {
    let e = Element::new("g").debug_overlay("Start", 1, 2, &Start);
    assert_eq!(
        e.to_string(),
        "<g railroad:entry_height=\"10\" railroad:height=\"20\" railroad:type=\"Start\" railroad:width=\"20\" railroad:x=\"1\" railroad:y=\"2\">\n<title>\nStart</title>\n</g>\n<path class=\"debug\" d=\" M 1 2 h 20 v 5 m -20 -5 v 20 h 5 m -5 -20 m 0 10 h 10\"/>\n"
    );
}

#[test]
fn write_hands_the_markup_to_the_writer() {
    let d = Diagram::new(Empty);
    let mut out: Vec<u8> = Vec::new();
    d.write(&mut out).unwrap();
    assert_eq!(String::from_utf8(out).unwrap(), d.to_string());
    assert!(d.to_string().starts_with("<svg "));
}
