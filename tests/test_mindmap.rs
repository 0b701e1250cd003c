use visualife::mindmap::connector::{ankle_endpoints, calculate_perpendicular_segment, connector};
use visualife::mindmap::geometry::{cartesian_to_polar, polar_to_cartesian};
use visualife::mindmap::{Mindmap, MindmapError, Node, Point};
use visualife::shapes::Element;
use visualife::{Num, SvgDrawing, ToSvg};

fn n(v: i32) -> Num {
    Num::from_int(v)
}

fn pt(x: i32, y: i32) -> Point {
    Point { x: n(x), y: n(y) }
}

fn micros_of(v: f64) -> Num {
    Num::from_micros((v * 1e6).round() as i64)
}

/// The unit vector of an angle in degrees.
fn unit(deg: f64) -> Point {
    let r = deg.to_radians();
    Point { x: micros_of(r.cos()), y: micros_of(r.sin()) }
}

#[test]
fn two_nodes() {
    let mut mndmp = Mindmap::new("a_mindmap", n(45));
    mndmp.place_node("n1", "Node 1", n(100), n(100));
    mndmp.place_node("n2", "Node 2", n(180), n(180));
    mndmp.connect_nodes("n1", "n2");
    let svg = mndmp.to_svg().unwrap();
    assert_eq!(svg.lines().count(), 13);
}

#[test]
fn grow_nodes() {
    let mut mndmp = Mindmap::new("a_mindmap", n(50));
    mndmp.place_node("n0", "Center node", n(100), n(100));
    for i in 1..=7 {
        mndmp
            .grow_node(&format!("n:{i}"), &format!("Node {i}"), unit(360.0 / 7.0 * i as f64), "n0")
            .unwrap();
    }
    let svg = mndmp.to_svg().unwrap();
    // the map group, the node group with its 8 circles, the connector group
    // with 7 connectors of 5 lines each
    assert_eq!(svg.lines().count(), 1 + 10 + 37 + 1);
}

#[test]
fn small_mindmap() {
    let mut mndmp = Mindmap::new("a_mindmap", n(50));
    mndmp.place_node("n0", "Center", n(250), n(250));
    for i in 1..=5 {
        mndmp
            .grow_node(&format!("n:{i}"), &format!("Node {i}"), unit(360.0 / 7.0 * i as f64), "n0")
            .unwrap();
    }

    let mut drawing = SvgDrawing::new(n(500), n(500));
    let g = mndmp.to_group().unwrap();
    drawing.add_element(Element::Group(g));
    println!("{}", drawing.document());
}

#[test]
fn test_ankle() {
    let pts = ankle_endpoints(pt(0, 0), n(10), unit(0.0), n(2));
    assert_eq!(pts, (Point { x: Num::from_micros(15000000), y: n(-1) }, Point { x: Num::from_micros(15000000), y: n(1) }));
}

#[test]
fn test_connector() {
    let na = Node::new("a", "A", n(100), n(100), n(10));
    let nb = Node::new("b", "B", n(100), n(100), n(10));
    let g = connector(&na, &nb, unit(0.0), n(2));
    println!("{:?}", g.to_svg());
    assert_eq!(g.id, "c:a:b");
    assert_eq!(g.children.len(), 3);
}

#[test]
fn connector_parts() {
    let na = Node::new("a", "A", n(0), n(0), n(10));
    let nb = Node::new("b", "B", n(100), n(0), n(10));
    let g = connector(&na, &nb, unit(15.0), n(2));
    let svg = g.to_svg();
    let lines: Vec<&str> = svg.lines().collect();
    assert_eq!(lines.len(), 5);
    assert_eq!(lines[0], r#"<g id="c:a:b">"#);
    assert!(lines[1].starts_with("\t<path id=\"\" d=\"M 15 -1 C 12.5 -1 "));
    assert!(lines[2].starts_with("\t<path id=\"\" d=\"M 85 1 C 87.5 1 "));
    assert_eq!(lines[3], "\t<path id=\"b:a:b\" d=\"M 15 -1 L 85 -1 L 85 1 L 15 1 Z \" />");
    assert_eq!(lines[4], "</g>");
}

#[test]
fn growth_shrinkage() {
    let mut m = Mindmap::new("m", n(50));
    assert_eq!(m.node_radius_shrink_factor(), Num::from_micros(800000));
    assert_eq!(m.bar_width(), n(10));
    m.place_node("root", "Root", n(0), n(0));
    assert_eq!(m.grow_node("c", "Child", unit(0.0), "root"), Ok(()));
    assert_eq!(m.nodes()[1].radius, n(40));
    assert_eq!((m.nodes()[1].cx, m.nodes()[1].cy), (n(150), n(0)));
    assert_eq!(m.grow_node("d", "Down", unit(90.0), "root"), Ok(()));
    assert_eq!((m.nodes()[2].cx, m.nodes()[2].cy), (n(0), n(150)));
    assert_eq!(m.grow_node("e", "Grandchild", unit(0.0), "c"), Ok(()));
    assert_eq!(m.nodes()[3].radius, n(32));
    assert_eq!((m.nodes()[3].cx, m.nodes()[3].cy), (n(270), n(0)));
    assert_eq!(m.connections().len(), 3);
    assert_eq!(m.connections()[2], ("c".to_string(), "e".to_string()));
}

#[test]
fn dangling_growth_fails() {
    let mut m = Mindmap::new("m", n(50));
    m.place_node("root", "Root", n(0), n(0));
    assert_eq!(m.grow_node("c", "Child", unit(0.0), "nowhere"), Err(MindmapError::UnknownNode));
    assert_eq!(m.nodes().len(), 1);
    assert_eq!(m.connections().len(), 0);
}

#[test]
fn repeated_connection_renders_twice() {
    let mut m = Mindmap::new("m", n(20));
    m.place_node("a", "A", n(0), n(0));
    m.place_node("b", "B", n(100), n(50));
    m.connect_nodes("a", "b");
    m.connect_nodes("a", "b");
    let g = m.to_group().unwrap();
    match &g.children[1] {
        Element::Group(conns) => {
            assert_eq!(conns.children.len(), 2);
            assert_eq!(conns.children[0].to_svg(), conns.children[1].to_svg());
        },
        _ => panic!("the second child is the connector group"),
    }
    assert_eq!(m.to_svg(), m.to_svg());
}

#[test]
fn dangling_connection_fails_when_drawn() {
    let mut m = Mindmap::new("m", n(20));
    m.place_node("a", "A", n(0), n(0));
    m.connect_nodes("a", "ghost");
    assert_eq!(m.connections().len(), 1);
    assert_eq!(m.to_svg(), Err(MindmapError::UnknownNode));
}

#[test]
fn placing_an_existing_id_replaces_the_node() {
    let mut m = Mindmap::new("m", n(20));
    m.place_node("a", "A", n(0), n(0));
    m.place_node("b", "B", n(5), n(5));
    m.place_node("a", "A2", n(7), n(8));
    assert_eq!(m.nodes().len(), 2);
    assert_eq!(m.nodes()[0].label, "A2");
    assert_eq!((m.nodes()[0].cx, m.nodes()[0].cy), (n(7), n(8)));
}

#[test]
fn polar_conversions() {
    let (r, u) = cartesian_to_polar(pt(0, 0), pt(3, 4));
    assert_eq!(r, n(5));
    assert_eq!(u, Point { x: Num::from_micros(600000), y: Num::from_micros(800000) });
    let (r, u) = cartesian_to_polar(pt(2, 2), pt(2, 2));
    assert_eq!(r, n(0));
    assert_eq!(u, pt(1, 0));
    let p = polar_to_cartesian(n(2), u, pt(1, 1));
    assert_eq!(p, pt(3, 1));
    let p = polar_to_cartesian(n(10), Point { x: Num::from_micros(600000), y: Num::from_micros(-800000) }, pt(0, 0));
    assert_eq!(p, pt(6, -8));
}

#[test]
fn drawing_document() {
    let mut d = SvgDrawing::new(n(500), n(400));
    assert_eq!(d.svg_header(), r#"<svg width="500" height="400" xmlns="http://www.w3.org/2000/svg">"#);
    d.add_element(Element::Circle(visualife::shapes::Circle::new("c", n(1), n(2), n(3))));
    assert_eq!(
        d.document(),
        "<svg width=\"500\" height=\"400\" xmlns=\"http://www.w3.org/2000/svg\">\n<circle id=\"c\" cx=\"1\" cy=\"2\" r=\"3\" />\n</svg>\n"
    );
}

#[test]
fn direction_of_a_tiny_offset_is_a_unit_vector() {
    let tiny = Point { x: Num::from_micros(1), y: Num::from_micros(1) };
    let (_, u) = cartesian_to_polar(pt(0, 0), tiny);
    assert_eq!(u, Point { x: Num::from_micros(707106), y: Num::from_micros(707106) });
    let (_, u) = cartesian_to_polar(pt(0, 0), Point { x: Num::from_micros(-3), y: Num::from_micros(4) });
    assert_eq!(u, Point { x: Num::from_micros(-600000), y: Num::from_micros(800000) });
}

#[test]
fn perpendicular_of_a_tiny_vector() {
    let tiny = Point { x: Num::from_micros(1), y: Num::from_micros(1) };
    let (p1, p2) = calculate_perpendicular_segment(tiny, pt(0, 0), n(2));
    assert_eq!(p1, Point { x: Num::from_micros(707106), y: Num::from_micros(-707106) });
    assert_eq!(p2, Point { x: Num::from_micros(-707106), y: Num::from_micros(707106) });
}

#[test]
fn feet_of_close_nodes_face_each_other() {
    let na = Node::new("a", "A", n(0), n(0), n(10));
    let nb = Node::new("b", "B", Num::from_micros(1), Num::from_micros(1), n(10));
    let svg = connector(&na, &nb, unit(15.0), n(2)).to_svg();
    let lines: Vec<&str> = svg.lines().collect();
    // the first ankle lies 15 from the centre along the diagonal, about (10.6, 10.6)
    assert!(lines[1].starts_with("\t<path id=\"\" d=\"M 11.313696 9.899484 "));
}

#[test]
fn foot_angle_is_used_when_drawing() {
    let mut m = Mindmap::new("m", n(10));
    assert_eq!(m.foot_angle_deg(), n(30));
    assert_eq!(m.foot_half_turn(), Point { x: Num::from_micros(965926), y: Num::from_micros(258819) });
    m.place_node("a", "A", n(0), n(0));
    m.place_node("b", "B", n(100), n(0));
    m.connect_nodes("a", "b");
    let before = m.to_svg().unwrap();
    m.set_foot_angle(n(60), unit(30.0));
    assert_eq!(m.foot_angle_deg(), n(60));
    let after = m.to_svg().unwrap();
    assert_ne!(before, after);
    let na = Node::new("a", "A", n(0), n(0), n(10));
    let nb = Node::new("b", "B", n(100), n(0), n(10));
    let expected = connector(&na, &nb, unit(30.0), m.bar_width()).to_svg();
    let lines: Vec<&str> = after.lines().collect();
    let conn_lines: Vec<&str> = expected.lines().collect();
    assert_eq!(lines[6], format!("\t{}", conn_lines[0]));
    assert_eq!(lines[7], conn_lines[1]);
}
