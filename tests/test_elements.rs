use visualife::draw_svg::close_element;
use visualife::mindmap::Node;
use visualife::shapes::{Circle, Element, Group, Path, Rect};
use visualife::style::Style;
use visualife::{Num, ToSvg};

fn n(v: i32) -> Num {
    Num::from_int(v)
}

#[test]
fn test_circle() {
    let c = Circle::new("c1", n(100), n(100), n(10));
    assert_eq!(c.to_svg(), r#"<circle id="c1" cx="100" cy="100" r="10" />"#);
}

#[test]
fn test_rectangle() {
    let r = Rect::new("r1", n(100), n(100), n(10), n(10));
    assert_eq!(r.to_svg(), r#"<rect id="r1" x="100" y="100" width="10" height="10" />"#);
}

#[test]
fn test_path() {
    let mut p = Path::from_str("p1", "M 100 100 L 300 100 L 200 300 Z");
    assert_eq!(p.to_svg(), r#"<path id="p1" d="M 100 100 L 300 100 L 200 300 Z " />"#);

    p.style.set_stroke("#000000");
    assert_eq!(
        p.to_svg(),
        r#"<path id="p1" d="M 100 100 L 300 100 L 200 300 Z " style="stroke:#000000;" />"#
    );

    let p = Path::new("p1")
        .move_to(n(100), n(100))
        .line_to(n(300), n(100))
        .line_to(n(200), n(300))
        .close();
    assert_eq!(p.to_svg(), r#"<path id="p1" d="M 100 100 L 300 100 L 200 300 Z " />"#);
}

#[test]
fn test_group() {
    let mut g = Group::new("my_group");
    g.add_element(Element::Circle(Circle::new("my_circle", n(100), n(50), n(10))));
    g.add_element(Element::Circle(Circle::new("my_circle", n(100), n(100), n(10))));
    let svg = g.to_svg();
    let expected1 = r#"<g id="my_group">
	<circle id="my_circle" cx="100" cy="50" r="10" />
	<circle id="my_circle" cx="100" cy="100" r="10" />
</g>"#;
    assert_eq!(svg, expected1);
    println!("{}", svg);
}

#[test]
fn close_circle() {
    let mut svg_string = String::new();
    let mut style = Style::new();
    close_element(&style, &mut svg_string);
    assert_eq!(svg_string, r#" />"#);

    let mut svg_string = String::new();
    style.set_stroke_width(n(1));
    style.set_stroke("#000000");
    close_element(&style, &mut svg_string);
    assert_eq!(svg_string, r#" style="stroke:#000000;stroke-width:1;" />"#);
}

#[test]
fn node_to_svg() {
    let na = Node::new("a", "A", n(100), n(100), n(10));
    assert_eq!(na.to_svg(), r#"<circle id="a" cx="100" cy="100" r="10" />"#);
}

#[test]
fn rect_rotates_about_its_centre() {
    let mut r = Rect::new("r", n(10), n(20), n(30), n(40));
    r.style.set_angle(n(45));
    assert_eq!(
        r.to_svg(),
        r#"<rect id="r" x="10" y="20" width="30" height="40" transform="rotate(45 25 40)" />"#
    );
}

#[test]
fn rect_with_corner_radii_and_decoration() {
    let mut r = Rect::new("r", n(0), n(0), n(5), n(3));
    r.set_rx(n(1));
    r.set_ry(Num::from_micros(500000));
    r.style.set_fill("#FF0000");
    r.style.set_angle(n(90));
    assert_eq!(
        r.to_svg(),
        r#"<rect id="r" x="0" y="0" width="5" height="3" rx="1" ry="0.5" style="fill:#FF0000;" transform="rotate(90 2.5 1.5)" />"#
    );
}

#[test]
fn nested_groups_indent_each_child_once() {
    let mut inner = Group::new("in");
    inner.add_element(Element::Circle(Circle::new("c", n(1), n(2), n(3))));
    let mut outer = Group::new("out");
    outer.style.set_fill("#000000");
    outer.add_element(Element::Group(inner));
    let expected = "<g id=\"out\" style=\"fill:#000000;\">\n\t<g id=\"in\">\n\t<circle id=\"c\" cx=\"1\" cy=\"2\" r=\"3\" />\n</g>\n</g>";
    assert_eq!(outer.to_svg(), expected);
}

#[test]
fn empty_decoration_renders_nothing() {
    let c = Circle::new("c", n(1), n(1), n(1));
    assert_eq!(c.to_svg(), r#"<circle id="c" cx="1" cy="1" r="1" />"#);
    let p = Path::new("p").move_to(n(0), n(0));
    assert_eq!(p.to_svg(), r#"<path id="p" d="M 0 0 " />"#);
    let g = Group::new("g");
    assert_eq!(g.to_svg(), "<g id=\"g\">\n</g>");
}
