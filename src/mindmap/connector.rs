//! The connector between two nodes: two rounded feet, one on each node,
//! joined by a tapered band (the edge).
use vstd::prelude::*;
use crate::mindmap::geometry::{
    Point,
    add_spec,
    sub_spec,
    mul_spec,
    sat,
    polar_spec,
    turn_spec,
    mirror_spec,
    opposite_spec,
    direction_spec,
    cartesian_to_polar,
    polar_to_cartesian,
    turn,
    mirror,
    opposite,
    plus,
    minus,
    times,
    negate,
    div_floor,
};
use crate::mindmap::node::{Node, NodeView};
use crate::num::Num;
use crate::shapes::group::{Element, Group, element_text, group_text, lemma_children_text_eq};
use crate::shapes::path::{Path, PathCommand};
use crate::style::empty_style;
use crate::text::{push_str, push_string};

verus! {

/// Distance of the ankle from the node's centre, in radii (1.5).
pub const FOOT_LENGTH_R_FRACTION: i64 = 1500000;

/// Distance of the control point near a toe, in radii (0.15).
pub const TOE_CONTROL_R_FRACTION: i64 = 150000;

/// Distance of the control point near an ankle, in radii (0.25).
pub const ANKLE_CONTROL_R_FRACTION: i64 = 250000;

/// The turn of the control points near the toes: 72 degrees, as a cosine
/// and a sine rounded to millionths.
pub open spec fn flare() -> Point {
    Point { x: Num { micros: 309017 }, y: Num { micros: 951057 } }
}

/// `r` times the fraction `k` (in millionths).
pub open spec fn scaled(r: Num, k: int) -> Num {
    mul_spec(r, Num { micros: k as i64 })
}

/// The segment of the given length centred on `mid` and perpendicular to
/// `v` (which is first made a unit vector): its end on the clockwise side of
/// `v` first, then the other.
pub open spec fn perpendicular_spec(v: Point, mid: Point, length: Num) -> (Point, Point) {
    let u = direction_spec(Point { x: Num { micros: 0 }, y: Num { micros: 0 } }, v);
    let half = Num { micros: (length.micros / 2) as i64 };
    let off = Point {
        x: mul_spec(half, Num { micros: sat(-u.y.micros) as i64 }),
        y: mul_spec(half, u.x),
    };
    (
        Point { x: sub_spec(mid.x, off.x), y: sub_spec(mid.y, off.y) },
        Point { x: add_spec(mid.x, off.x), y: add_spec(mid.y, off.y) },
    )
}

/// The two ends of the ankle of a foot on the node at `c` of radius `r`
/// facing along the unit vector `dir`: the segment of width `bar_width`
/// across `dir`, 1.5 radii from the centre.
pub open spec fn ankle_spec(c: Point, r: Num, dir: Point, bar_width: Num) -> (Point, Point) {
    perpendicular_spec(dir, polar_spec(scaled(r, FOOT_LENGTH_R_FRACTION as int), dir, c), bar_width)
}

/// The commands of a foot: from the first ankle end, a curve to the first
/// toe (on the circle, half the foot angle before `dir`), an arc along the
/// circle to the second toe, and a curve back to the second ankle end.
/// `toe` is the unit vector of half the foot angle.
pub open spec fn foot_commands(c: Point, r: Num, dir: Point, toe: Point, bar_width: Num) -> Seq<
    PathCommand,
> {
    let toe1 = polar_spec(r, turn_spec(dir, mirror_spec(toe)), c);
    let toe2 = polar_spec(r, turn_spec(dir, toe), c);
    let (a1, a2) = ankle_spec(c, r, dir, bar_width);
    let c1 = polar_spec(scaled(r, TOE_CONTROL_R_FRACTION as int), turn_spec(dir, flare()), toe1);
    let c2 = polar_spec(scaled(r, ANKLE_CONTROL_R_FRACTION as int), opposite_spec(dir), a1);
    let c3 = polar_spec(
        scaled(r, TOE_CONTROL_R_FRACTION as int),
        turn_spec(dir, mirror_spec(flare())),
        toe2,
    );
    let c4 = polar_spec(scaled(r, ANKLE_CONTROL_R_FRACTION as int), opposite_spec(dir), a2);
    seq![
        PathCommand::MoveTo(a1.x, a1.y),
        PathCommand::CurveTo(c2.x, c2.y, c1.x, c1.y, toe1.x, toe1.y),
        PathCommand::EllipticalArcTo(r, r, Num { micros: 0 }, false, true, toe2.x, toe2.y),
        PathCommand::CurveTo(c3.x, c3.y, c4.x, c4.y, a2.x, a2.y),
    ]
}

/// The commands of the band between the ankles `(a1, a2)` and `(b1, b2)`.
pub open spec fn edge_commands(a: (Point, Point), b: (Point, Point)) -> Seq<PathCommand> {
    seq![
        PathCommand::MoveTo(a.0.x, a.0.y),
        PathCommand::LineTo(b.1.x, b.1.y),
        PathCommand::LineTo(b.0.x, b.0.y),
        PathCommand::LineTo(a.1.x, a.1.y),
        PathCommand::Close,
    ]
}

/// Whether `e` is an undecorated path with the given identifier and commands.
pub open spec fn is_path_with(e: Element, id: Seq<char>, cmds: Seq<PathCommand>) -> bool {
    match e {
        Element::Path(p) => p.id@ == id && p.d@ == cmds && p.style@ == empty_style(),
        _ => false,
    }
}

/// The segment of the given length centred on `mid` and perpendicular to
/// `v`.
pub fn calculate_perpendicular_segment(v: Point, mid: Point, length: Num) -> (r: (Point, Point))
    ensures
        r == perpendicular_spec(v, mid, length),
{
    let (_, u) = cartesian_to_polar(Point { x: Num { micros: 0 }, y: Num { micros: 0 } }, v);
    let half = Num { micros: div_floor(length.micros as i128, 2) as i64 };
    let off = Point { x: times(half, negate(u.y)), y: times(half, u.x) };
    (
        Point { x: minus(mid.x, off.x), y: minus(mid.y, off.y) },
        Point { x: plus(mid.x, off.x), y: plus(mid.y, off.y) },
    )
}

fn scale(r: Num, k: i64) -> (s: Num)
    ensures
        s == scaled(r, k as int),
{
    times(r, Num { micros: k })
}

/// The two ends of the ankle of a foot on the node at `c` of radius `r`
/// facing along `dir`.
pub fn ankle_endpoints(c: Point, r: Num, dir: Point, bar_width: Num) -> (e: (Point, Point))
    ensures
        e == ankle_spec(c, r, dir, bar_width),
{
    let mid = polar_to_cartesian(scale(r, FOOT_LENGTH_R_FRACTION), dir, c);
    calculate_perpendicular_segment(dir, mid, bar_width)
}

/// The flare turn of the control points near the toes.
fn flare_vector() -> (f: Point)
    ensures
        f == flare(),
{
    Point { x: Num { micros: 309017 }, y: Num { micros: 951057 } }
}

/// The foot on the node at `c` of radius `r` facing along `dir`; `toe` is
/// the unit vector of half the foot angle.
pub fn foot_path(c: Point, r: Num, dir: Point, toe: Point, bar_width: Num) -> (p: Path)
    ensures
        p.id@ == Seq::<char>::empty(),
        p.d@ == foot_commands(c, r, dir, toe, bar_width),
        p.style@ == empty_style(),
{
    let toe1 = polar_to_cartesian(r, turn(dir, mirror(toe)), c);
    let toe2 = polar_to_cartesian(r, turn(dir, toe), c);
    let (a1, a2) = ankle_endpoints(c, r, dir, bar_width);
    let f = flare_vector();
    let c1 = polar_to_cartesian(scale(r, TOE_CONTROL_R_FRACTION), turn(dir, f), toe1);
    let c2 = polar_to_cartesian(scale(r, ANKLE_CONTROL_R_FRACTION), opposite(dir), a1);
    let c3 = polar_to_cartesian(scale(r, TOE_CONTROL_R_FRACTION), turn(dir, mirror(f)), toe2);
    let c4 = polar_to_cartesian(scale(r, ANKLE_CONTROL_R_FRACTION), opposite(dir), a2);
    let p = Path::new("").move_to(a1.x, a1.y).curve_to(c2.x, c2.y, c1.x, c1.y, toe1.x, toe1.y).elliptical_arc_to(
        r,
        r,
        Num { micros: 0 },
        false,
        true,
        toe2.x,
        toe2.y,
    ).curve_to(c3.x, c3.y, c4.x, c4.y, a2.x, a2.y);
    proof {
        reveal_strlit("");
    }
    assert(p.d@ =~= foot_commands(c, r, dir, toe, bar_width));
    p
}

/// `prefix`, the first identifier, a colon and the second identifier.
pub open spec fn pair_id(prefix: Seq<char>, a: Seq<char>, b: Seq<char>) -> Seq<char> {
    prefix + a + ":"@ + b
}

fn make_pair_id(prefix: &str, a: &String, b: &String) -> (r: String)
    ensures
        r@ == pair_id(prefix@, a@, b@),
{
    let mut s = String::new();
    push_str(&mut s, prefix);
    push_string(&mut s, a);
    push_str(&mut s, ":");
    push_string(&mut s, b);
    assert(s@ =~= pair_id(prefix@, a@, b@));
    s
}

/// Whether `g` is the connector from node `a` to node `b`: a group named
/// `c:<a>:<b>` that holds the foot on `a` (facing `b`), the foot on `b`
/// (facing `a`), and the band `b:<a>:<b>` between their ankles.
pub open spec fn connector_ok(g: Group, a: NodeView, b: NodeView, toe: Point, bar_width: Num) -> bool {
    let dir = direction_spec(a.center, b.center);
    let back = opposite_spec(dir);
    &&& g.id@ == pair_id("c:"@, a.id, b.id)
    &&& g.style@ == empty_style()
    &&& g.children@.len() == 3
    &&& is_path_with(
        g.children@[0],
        Seq::<char>::empty(),
        foot_commands(a.center, a.radius, dir, toe, bar_width),
    )
    &&& is_path_with(
        g.children@[1],
        Seq::<char>::empty(),
        foot_commands(b.center, b.radius, back, toe, bar_width),
    )
    &&& is_path_with(
        g.children@[2],
        pair_id("b:"@, a.id, b.id),
        edge_commands(
            ankle_spec(a.center, a.radius, dir, bar_width),
            ankle_spec(b.center, b.radius, back, bar_width),
        ),
    )
}

/// The connector from node `a` to node `b`: a group named `c:<a>:<b>` that
/// holds the foot on `a` (facing `b`), the foot on `b` (facing `a`), and the
/// band `b:<a>:<b>` between their ankles. `toe` is the unit vector of half
/// the foot angle.
pub fn connector(node_a: &Node, node_b: &Node, toe: Point, bar_width: Num) -> (g: Group)
    ensures
        connector_ok(g, node_a@, node_b@, toe, bar_width),
{
    let ca = node_a.center();
    let cb = node_b.center();
    let (_, dir) = cartesian_to_polar(ca, cb);
    let back = opposite(dir);
    let foot_a = foot_path(ca, node_a.radius, dir, toe, bar_width);
    let foot_b = foot_path(cb, node_b.radius, back, toe, bar_width);
    let (a1, a2) = ankle_endpoints(ca, node_a.radius, dir, bar_width);
    let (b1, b2) = ankle_endpoints(cb, node_b.radius, back, bar_width);
    let edge_id = make_pair_id("b:", &node_a.id, &node_b.id);
    let edge = Path::new(edge_id.as_str()).move_to(a1.x, a1.y).line_to(b2.x, b2.y).line_to(
        b1.x,
        b1.y,
    ).line_to(a2.x, a2.y).close();
    assert(edge.d@ =~= edge_commands((a1, a2), (b1, b2)));
    let group_id = make_pair_id("c:", &node_a.id, &node_b.id);
    let mut g = Group::new(group_id.as_str());
    g.add_element(Element::Path(foot_a));
    g.add_element(Element::Path(foot_b));
    g.add_element(Element::Path(edge));
    g
}

/// A connector is fully determined by its two nodes and its settings: any
/// two groups that are the connector of the same nodes have the same markup.
pub proof fn lemma_connector_markup_determined(
    g1: Group,
    g2: Group,
    a: NodeView,
    b: NodeView,
    toe: Point,
    bar_width: Num,
)
    requires
        connector_ok(g1, a, b, toe, bar_width),
        connector_ok(g2, a, b, toe, bar_width),
    ensures
        group_text(g1) == group_text(g2),
{
    assert forall|k: int| 0 <= k < g1.children@.len() implies element_text(
        #[trigger] g1.children@[k],
    ) == element_text(g2.children@[k]) by {
        if k == 0 || k == 1 || k == 2 {
            match (g1.children@[k], g2.children@[k]) {
                (Element::Path(p1), Element::Path(p2)) => {
                    assert(p1.id@ == p2.id@ && p1.d@ == p2.d@ && p1.style@ == p2.style@);
                },
                _ => {},
            }
        }
    }
    lemma_children_text_eq(g1.children@, g2.children@);
}

} // verus!
