//! Node placement, radial growth, connections, and the drawing of a whole
//! mindmap.
use vstd::prelude::*;
use crate::mindmap::connector::{connector, connector_ok, lemma_connector_markup_determined};
use crate::mindmap::geometry::{Point, mul_spec, polar_spec, polar_to_cartesian, times};
use crate::mindmap::node::{Node, NodeView};
use crate::num::Num;
use crate::shapes::group::{Element, Group, element_text, group_text};
use crate::draw_svg::ToSvg;
use crate::style::empty_style;
use crate::text::{push_str, push_string};

verus! {

/// Why a mindmap operation failed.
#[derive(Clone, Copy, Debug, PartialEq, Eq, Structural)]
pub enum MindmapError {
    /// A growth or a connection names a node that was never placed.
    UnknownNode,
}

/// Nodes with connectors between them. Nodes are kept in the order they
/// were first placed; connections in the order they were declared.
#[derive(Debug)]
pub struct Mindmap {
    /// The width of the band between two feet.
    bar_width: Num,
    id: String,
    /// The angle, in degrees, that each foot spans on its node's circle.
    foot_angle_deg: Num,
    /// The unit vector (cosine and sine) of half the foot angle, with which
    /// the feet are drawn.
    foot_half_turn: Point,
    /// The nodes, no two with the same identifier.
    nodes: Vec<Node>,
    connections: Vec<(String, String)>,
    max_node_radius: Num,
    node_radius_shrink_factor: Num,
}

/// The cosine and sine of 15 degrees, half the default foot angle, rounded
/// to millionths.
pub open spec fn default_half_turn() -> Point {
    Point { x: Num { micros: 965926 }, y: Num { micros: 258819 } }
}

/// The views of a sequence of nodes.
pub open spec fn node_views(nodes: Seq<Node>) -> Seq<NodeView> {
    nodes.map_values(|n: Node| n@)
}

/// The connections as pairs of identifiers.
pub open spec fn connection_views(cs: Seq<(String, String)>) -> Seq<(Seq<char>, Seq<char>)> {
    cs.map_values(|c: (String, String)| (c.0@, c.1@))
}

/// The position of the last node with identifier `id`, if any.
pub open spec fn find_node(nodes: Seq<NodeView>, id: Seq<char>) -> Option<int>
    decreases nodes.len(),
{
    if nodes.len() == 0 {
        None
    } else if nodes.last().id == id {
        Some(nodes.len() - 1)
    } else {
        find_node(nodes.drop_last(), id)
    }
}

/// Whether no two nodes share an identifier.
pub open spec fn unique_ids(nodes: Seq<NodeView>) -> bool {
    forall|i: int, j: int| 0 <= i < j < nodes.len() ==> nodes[i].id != nodes[j].id
}

/// The nodes after placing `n`: it replaces the node of the same identifier,
/// or is added at the end.
pub open spec fn placed(nodes: Seq<NodeView>, n: NodeView) -> Seq<NodeView> {
    match find_node(nodes, n.id) {
        Some(i) => nodes.update(i, n),
        None => nodes.push(n),
    }
}

/// The child grown from `parent` in the unit direction `dir`: three parent
/// radii away, with the parent's radius times `shrink`.
pub open spec fn grown(
    parent: NodeView,
    id: Seq<char>,
    label: Seq<char>,
    dir: Point,
    shrink: Num,
) -> NodeView {
    NodeView {
        id,
        label,
        center: polar_spec(mul_spec(parent.radius, Num { micros: 3000000 }), dir, parent.center),
        radius: mul_spec(parent.radius, shrink),
    }
}

/// Whether every connection names two placed nodes.
pub open spec fn connections_resolve(
    nodes: Seq<NodeView>,
    cs: Seq<(Seq<char>, Seq<char>)>,
) -> bool {
    forall|i: int|
        0 <= i < cs.len() ==> find_node(nodes, #[trigger] cs[i].0) is Some && find_node(
            nodes,
            cs[i].1,
        ) is Some
}

/// Whether `e` is the undecorated circle that draws node `n`.
pub open spec fn is_circle_of(e: Element, n: NodeView) -> bool {
    match e {
        Element::Circle(c) => c.id@ == n.id && c.cx == n.center.x && c.cy == n.center.y
            && c.radius == n.radius && c.style@ == empty_style(),
        _ => false,
    }
}

/// Whether `e` is a group with the given identifier and no decoration.
pub open spec fn is_group_named(e: Element, id: Seq<char>) -> bool {
    match e {
        Element::Group(g) => g.id@ == id && g.style@ == empty_style(),
        _ => false,
    }
}

/// The children of `e` when it is a group.
pub open spec fn group_children(e: Element) -> Seq<Element> {
    match e {
        Element::Group(g) => g.children@,
        _ => seq![],
    }
}

/// Whether `e` is the connector drawn for connection `c`.
pub open spec fn is_connector_for(
    e: Element,
    nodes: Seq<NodeView>,
    c: (Seq<char>, Seq<char>),
    toe: Point,
    bar_width: Num,
) -> bool {
    match e {
        Element::Group(g) => connector_ok(
            g,
            nodes[find_node(nodes, c.0)->0],
            nodes[find_node(nodes, c.1)->0],
            toe,
            bar_width,
        ),
        _ => false,
    }
}

/// Whether `g` draws the mindmap: a group with its identifier holding the
/// group `nodes-<id>` (a circle per node, in order) and the group
/// `connectors-<id>` (a connector per connection, in order). `toe` is the
/// unit vector of half the foot angle.
pub open spec fn drawing_ok(
    g: Group,
    id: Seq<char>,
    nodes: Seq<NodeView>,
    cs: Seq<(Seq<char>, Seq<char>)>,
    toe: Point,
    bar_width: Num,
) -> bool {
    let kids = group_children(g.children@[0]);
    let conns = group_children(g.children@[1]);
    &&& g.id@ == id
    &&& g.style@ == empty_style()
    &&& g.children@.len() == 2
    &&& is_group_named(g.children@[0], "nodes-"@ + id)
    &&& kids.len() == nodes.len()
    &&& forall|k: int| 0 <= k < nodes.len() ==> is_circle_of(#[trigger] kids[k], nodes[k])
    &&& is_group_named(g.children@[1], "connectors-"@ + id)
    &&& conns.len() == cs.len()
    &&& forall|k: int|
        0 <= k < cs.len() ==> is_connector_for(#[trigger] conns[k], nodes, cs[k], toe, bar_width)
}

fn prefixed(prefix: &str, id: &String) -> (r: String)
    ensures
        r@ == prefix@ + id@,
{
    let mut s = String::new();
    push_str(&mut s, prefix);
    push_string(&mut s, id);
    s
}

proof fn lemma_find_node(nodes: Seq<NodeView>, id: Seq<char>)
    ensures
        match find_node(nodes, id) {
            Some(i) => 0 <= i < nodes.len() && nodes[i].id == id,
            None => forall|j: int| 0 <= j < nodes.len() ==> #[trigger] nodes[j].id != id,
        },
    decreases nodes.len(),
{
    if nodes.len() > 0 {
        let front = nodes.drop_last();
        lemma_find_node(front, id);
        assert forall|j: int| 0 <= j < front.len() implies #[trigger] front[j] == nodes[j] by {}
        if nodes.last().id != id {
            match find_node(front, id) {
                Some(i) => {
                    assert(nodes[i] == front[i]);
                },
                None => {
                    assert forall|j: int| 0 <= j < nodes.len() implies #[trigger] nodes[j].id
                        != id by {
                        if j < front.len() {
                            assert(nodes[j] == front[j]);
                            assert(front[j].id != id);
                        }
                    }
                },
            }
        }
    }
}

fn find_index(nodes: &Vec<Node>, id: &String) -> (r: Option<usize>)
    ensures
        match r {
            Some(i) => find_node(node_views(nodes@), id@) == Some(i as int) && i < nodes@.len(),
            None => find_node(node_views(nodes@), id@) is None,
        },
{
    let mut found: Option<usize> = None;
    let mut i: usize = 0;
    while i < nodes.len()
        invariant
            i <= nodes@.len(),
            match find_node(node_views(nodes@.subrange(0, i as int)), id@) {
                Some(k) => found == Some(k as usize),
                None => found is None,
            },
        decreases nodes@.len() - i,
    {
        let ghost next = node_views(nodes@.subrange(0, i + 1));
        assert(next.drop_last() =~= node_views(nodes@.subrange(0, i as int)));
        assert(next.last() == nodes@[i as int]@);
        if nodes[i].id == *id {
            found = Some(i);
        }
        i = i + 1;
    }
    assert(nodes@.subrange(0, i as int) =~= nodes@);
    proof {
        lemma_find_node(node_views(nodes@), id@);
    }
    found
}

/// Whether two mindmaps have the same identifier and settings.
pub open spec fn same_settings(a: Mindmap, b: Mindmap) -> bool {
    &&& a.id_spec() == b.id_spec()
    &&& a.bar_width_spec() == b.bar_width_spec()
    &&& a.foot_angle_spec() == b.foot_angle_spec()
    &&& a.half_turn_spec() == b.half_turn_spec()
    &&& a.max_radius_spec() == b.max_radius_spec()
    &&& a.shrink_spec() == b.shrink_spec()
}

impl Mindmap {
    /// The nodes as views, in placement order.
    pub closed spec fn nodes_view(&self) -> Seq<NodeView> {
        node_views(self.nodes@)
    }

    /// The connections as pairs of identifiers, in declaration order.
    pub closed spec fn connections_view(&self) -> Seq<(Seq<char>, Seq<char>)> {
        connection_views(self.connections@)
    }

    /// The identifier of the mindmap.
    pub closed spec fn id_spec(&self) -> Seq<char> {
        self.id@
    }

    /// The width of the band between two feet.
    pub closed spec fn bar_width_spec(&self) -> Num {
        self.bar_width
    }

    /// The identifier of the mindmap.
    pub fn id(&self) -> (r: &String)
        ensures
            r@ == self.id_spec(),
    {
        &self.id
    }

    /// The width of the band between two feet.
    pub fn bar_width(&self) -> (r: Num)
        ensures
            r == self.bar_width_spec(),
    {
        self.bar_width
    }

    /// Sets the width of the band between two feet.
    pub fn set_bar_width(&mut self, bar_width: Num)
        ensures
            final(self).bar_width_spec() == bar_width,
            final(self).nodes_view() == old(self).nodes_view(),
            final(self).connections_view() == old(self).connections_view(),
            final(self).id_spec() == old(self).id_spec(),
            final(self).foot_angle_spec() == old(self).foot_angle_spec(),
            final(self).half_turn_spec() == old(self).half_turn_spec(),
            final(self).max_radius_spec() == old(self).max_radius_spec(),
            final(self).shrink_spec() == old(self).shrink_spec(),
    {
        self.bar_width = bar_width;
    }

    /// The foot angle in degrees.
    pub closed spec fn foot_angle_spec(&self) -> Num {
        self.foot_angle_deg
    }

    /// The unit vector of half the foot angle.
    pub closed spec fn half_turn_spec(&self) -> Point {
        self.foot_half_turn
    }

    /// The radius of placed nodes.
    pub closed spec fn max_radius_spec(&self) -> Num {
        self.max_node_radius
    }

    /// The factor by which each grown generation shrinks.
    pub closed spec fn shrink_spec(&self) -> Num {
        self.node_radius_shrink_factor
    }

    /// The nodes, in placement order; no two share an identifier.
    pub fn nodes(&self) -> (r: &Vec<Node>)
        ensures
            node_views(r@) == self.nodes_view(),
    {
        &self.nodes
    }

    /// The connections, in declaration order.
    pub fn connections(&self) -> (r: &Vec<(String, String)>)
        ensures
            connection_views(r@) == self.connections_view(),
    {
        &self.connections
    }

    /// The angle, in degrees, that each foot spans.
    pub fn foot_angle_deg(&self) -> (r: Num)
        ensures
            r == self.foot_angle_spec(),
    {
        self.foot_angle_deg
    }

    /// The unit vector of half the foot angle.
    pub fn foot_half_turn(&self) -> (r: Point)
        ensures
            r == self.half_turn_spec(),
    {
        self.foot_half_turn
    }

    /// The radius of placed nodes.
    pub fn max_node_radius(&self) -> (r: Num)
        ensures
            r == self.max_radius_spec(),
    {
        self.max_node_radius
    }

    /// The factor by which each grown generation shrinks.
    pub fn node_radius_shrink_factor(&self) -> (r: Num)
        ensures
            r == self.shrink_spec(),
    {
        self.node_radius_shrink_factor
    }

    /// Sets the foot angle: `foot_angle_deg` in degrees, and `half_turn`,
    /// the unit vector (cosine and sine) of half of it, which the feet are
    /// drawn with.
    pub fn set_foot_angle(&mut self, foot_angle_deg: Num, half_turn: Point)
        ensures
            final(self).foot_angle_spec() == foot_angle_deg,
            final(self).half_turn_spec() == half_turn,
            final(self).nodes_view() == old(self).nodes_view(),
            final(self).connections_view() == old(self).connections_view(),
            final(self).id_spec() == old(self).id_spec(),
            final(self).bar_width_spec() == old(self).bar_width_spec(),
            final(self).max_radius_spec() == old(self).max_radius_spec(),
            final(self).shrink_spec() == old(self).shrink_spec(),
    {
        self.foot_angle_deg = foot_angle_deg;
        self.foot_half_turn = half_turn;
    }

    /// An empty mindmap: feet span 30 degrees, the band is a fifth of the
    /// largest radius wide, and each generation shrinks by 0.8.
    pub fn new(id: &str, max_node_radius: Num) -> (r: Mindmap)
        ensures
            r.id_spec() == id@,
            r.foot_angle_spec() == Num::from_int_spec(30),
            r.half_turn_spec() == default_half_turn(),
            r.bar_width_spec().micros == max_node_radius.micros / 5,
            r.max_radius_spec() == max_node_radius,
            r.shrink_spec() == (Num { micros: 800000 }),
            unique_ids(r.nodes_view()),
            r.nodes_view() == Seq::<NodeView>::empty(),
            r.connections_view() == Seq::<(Seq<char>, Seq<char>)>::empty(),
    {
        let bar = if max_node_radius.micros >= 0 {
            max_node_radius.micros / 5
        } else {
            let m: i128 = 0 - max_node_radius.micros as i128;
            proof {
                let q = (m - 1) / 5;
                assert(max_node_radius.micros / 5 == -q - 1) by (nonlinear_arith)
                    requires
                        m == -max_node_radius.micros,
                        m >= 1,
                        q == (m - 1) / 5,
                ;
            }
            (0 - (m - 1) / 5 - 1) as i64
        };
        let r = Mindmap {
            foot_angle_deg: Num::from_int(30),
            foot_half_turn: Point { x: Num { micros: 965926 }, y: Num { micros: 258819 } },
            bar_width: Num { micros: bar },
            id: id.to_string(),
            nodes: Vec::new(),
            max_node_radius,
            connections: Vec::new(),
            node_radius_shrink_factor: Num { micros: 800000 },
        };
        assert(r.nodes_view() =~= Seq::<NodeView>::empty());
        assert(r.connections_view() =~= Seq::<(Seq<char>, Seq<char>)>::empty());
        r
    }

    fn put_node(&mut self, node: Node)
        ensures
            final(self).nodes_view() == placed(old(self).nodes_view(), node@),
            unique_ids(old(self).nodes_view()) ==> unique_ids(final(self).nodes_view()),
            final(self).connections == old(self).connections,
            same_settings(*final(self), *old(self)),
    {
        proof {
            lemma_placed_keeps_ids_unique_if(old(self).nodes_view(), node@);
        }
        match find_index(&self.nodes, &node.id) {
            Some(i) => {
                let ghost v = node@;
                self.nodes.set(i, node);
                assert forall|j: int| 0 <= j < self.nodes@.len() implies #[trigger] self.nodes_view()[j]
                    == placed(old(self).nodes_view(), v)[j] by {
                    if j != i {
                        assert(self.nodes@[j] == old(self).nodes@[j]);
                    }
                }
                assert(self.nodes_view() =~= placed(old(self).nodes_view(), v));
            },
            None => {
                let ghost v = node@;
                self.nodes.push(node);
                assert(self.nodes_view() =~= placed(old(self).nodes_view(), v));
            },
        }
    }

    /// Places a node of the largest radius centred at `(x, y)`, replacing
    /// any node with the same identifier.
    pub fn place_node(&mut self, id: &str, label: &str, x: Num, y: Num)
        ensures
            final(self).nodes_view() == placed(
                old(self).nodes_view(),
                NodeView {
                    id: id@,
                    label: label@,
                    center: Point { x, y },
                    radius: old(self).max_radius_spec(),
                },
            ),
            unique_ids(old(self).nodes_view()) ==> unique_ids(final(self).nodes_view()),
            final(self).connections_view() == old(self).connections_view(),
            same_settings(*final(self), *old(self)),
    {
        let el = Node::new(id, label, x, y, self.max_node_radius);
        self.put_node(el);
    }

    /// Grows a child from the node `parent_node_id`: its centre is three
    /// parent radii away along the unit vector `direction` (the cosine and
    /// sine of the angle), its radius the parent's times the shrink factor,
    /// and the connection parent to child is declared. Fails, changing
    /// nothing, when no node has that identifier.
    pub fn grow_node(&mut self, id: &str, label: &str, direction: Point, parent_node_id: &str) -> (r:
        Result<(), MindmapError>)
        ensures
            match find_node(old(self).nodes_view(), parent_node_id@) {
                None => r == Err::<(), MindmapError>(MindmapError::UnknownNode) && *final(self)
                    == *old(self),
                Some(k) => r is Ok && final(self).nodes_view() == placed(
                    old(self).nodes_view(),
                    grown(
                        old(self).nodes_view()[k],
                        id@,
                        label@,
                        direction,
                        old(self).shrink_spec(),
                    ),
                ) && (unique_ids(old(self).nodes_view()) ==> unique_ids(final(self).nodes_view()))
                    && final(self).connections_view() == old(self).connections_view().push(
                    (parent_node_id@, id@),
                ) && same_settings(*final(self), *old(self)),
            },
    {
        let key = parent_node_id.to_string();
        match find_index(&self.nodes, &key) {
            None => Err(MindmapError::UnknownNode),
            Some(k) => {
                let parent = &self.nodes[k];
                assert(old(self).nodes_view()[k as int] == parent@);
                let distance = times(parent.radius, Num { micros: 3000000 });
                let c = polar_to_cartesian(distance, direction, parent.center());
                let radius = times(parent.radius, self.node_radius_shrink_factor);
                let el = Node::new(id, label, c.x, c.y, radius);
                self.put_node(el);
                self.connect_nodes(parent_node_id, id);
                Ok(())
            },
        }
    }

    /// Declares a connection; nothing is checked until the mindmap is drawn.
    pub fn connect_nodes(&mut self, from_id: &str, to_id: &str)
        ensures
            final(self).connections_view() == old(self).connections_view().push(
                (from_id@, to_id@),
            ),
            final(self).nodes_view() == old(self).nodes_view(),
            same_settings(*final(self), *old(self)),
    {
        self.connections.push((from_id.to_string(), to_id.to_string()));
        assert(self.connections_view() =~= old(self).connections_view().push((from_id@, to_id@)));
    }

    /// Draws the mindmap as one group (see `drawing_ok`), with feet of its
    /// foot angle. Fails when a connection names a node that was never
    /// placed.
    pub fn to_group(&self) -> (r: Result<Group, MindmapError>)
        ensures
            match r {
                Ok(g) => connections_resolve(self.nodes_view(), self.connections_view())
                    && drawing_ok(
                    g,
                    self.id_spec(),
                    self.nodes_view(),
                    self.connections_view(),
                    self.half_turn_spec(),
                    self.bar_width_spec(),
                ),
                Err(e) => e == MindmapError::UnknownNode && !connections_resolve(
                    self.nodes_view(),
                    self.connections_view(),
                ),
            },
    {
        let nodes_id = prefixed("nodes-", &self.id);
        let mut node_grp = Group::new(nodes_id.as_str());
        let mut k: usize = 0;
        while k < self.nodes.len()
            invariant
                k <= self.nodes@.len(),
                node_grp.id@ == "nodes-"@ + self.id@,
                node_grp.style@ == empty_style(),
                node_grp.children@.len() == k,
                forall|j: int|
                    0 <= j < k ==> is_circle_of(
                        #[trigger] node_grp.children@[j],
                        self.nodes_view()[j],
                    ),
            decreases self.nodes@.len() - k,
        {
            let c = self.nodes[k].to_circle();
            node_grp.add_element(Element::Circle(c));
            k = k + 1;
        }
        let conns_id = prefixed("connectors-", &self.id);
        let mut conn_grp = Group::new(conns_id.as_str());
        let ghost nodes = self.nodes_view();
        let ghost cs = self.connections_view();
        let mut k: usize = 0;
        while k < self.connections.len()
            invariant
                nodes == self.nodes_view(),
                cs == self.connections_view(),
                k <= self.connections@.len(),
                conn_grp.id@ == "connectors-"@ + self.id@,
                conn_grp.style@ == empty_style(),
                conn_grp.children@.len() == k,
                forall|j: int|
                    0 <= j < k ==> find_node(nodes, #[trigger] cs[j].0) is Some && find_node(
                        nodes,
                        cs[j].1,
                    ) is Some,
                forall|j: int|
                    0 <= j < k ==> is_connector_for(
                        #[trigger] conn_grp.children@[j],
                        nodes,
                        cs[j],
                        self.foot_half_turn,
                        self.bar_width,
                    ),
            decreases self.connections@.len() - k,
        {
            let from = find_index(&self.nodes, &self.connections[k].0);
            let to = find_index(&self.nodes, &self.connections[k].1);
            assert(cs[k as int] == (self.connections@[k as int].0@, self.connections@[k as int].1@));
            match (from, to) {
                (Some(i), Some(j)) => {
                    let g = connector(&self.nodes[i], &self.nodes[j], self.foot_half_turn, self.bar_width);
                    assert(self.nodes@[i as int]@ == nodes[i as int]);
                    assert(self.nodes@[j as int]@ == nodes[j as int]);
                    conn_grp.add_element(Element::Group(g));
                },
                _ => {
                    assert(!(find_node(nodes, cs[k as int].0) is Some && find_node(
                        nodes,
                        cs[k as int].1,
                    ) is Some));
                    assert(!connections_resolve(nodes, cs));
                    return Err(MindmapError::UnknownNode);
                },
            }
            k = k + 1;
        }
        let ghost kids = node_grp.children@;
        let ghost conns = conn_grp.children@;
        let mut g = Group::new(self.id.as_str());
        g.add_element(Element::Group(node_grp));
        g.add_element(Element::Group(conn_grp));
        assert(group_children(g.children@[0]) == kids);
        assert(group_children(g.children@[1]) == conns);
        Ok(g)
    }

    /// The markup of the mindmap's drawing (see `to_group`).
    pub fn to_svg(&self) -> (r: Result<String, MindmapError>)
        ensures
            match r {
                Ok(s) => connections_resolve(self.nodes_view(), self.connections_view()) && exists|
                    g: Group,
                |
                    drawing_ok(
                        g,
                        self.id_spec(),
                        self.nodes_view(),
                        self.connections_view(),
                        self.half_turn_spec(),
                        self.bar_width_spec(),
                    ) && s@ == group_text(g),
                Err(e) => e == MindmapError::UnknownNode && !connections_resolve(
                    self.nodes_view(),
                    self.connections_view(),
                ),
            },
    {
        match self.to_group() {
            Ok(g) => {
                let s = g.to_svg();
                Ok(s)
            },
            Err(e) => Err(e),
        }
    }
}

/// A connection declared twice is drawn twice, and both drawings have the
/// same markup: connections are not merged, and drawing is deterministic.
pub proof fn lemma_repeated_connection_same_markup(
    g: Group,
    id: Seq<char>,
    nodes: Seq<NodeView>,
    cs: Seq<(Seq<char>, Seq<char>)>,
    toe: Point,
    bar_width: Num,
    i: int,
    j: int,
)
    requires
        drawing_ok(g, id, nodes, cs, toe, bar_width),
        0 <= i < cs.len(),
        0 <= j < cs.len(),
        cs[i] == cs[j],
    ensures
        element_text(group_children(g.children@[1])[i]) == element_text(
            group_children(g.children@[1])[j],
        ),
{
    let conns = group_children(g.children@[1]);
    assert(is_connector_for(conns[i], nodes, cs[i], toe, bar_width));
    assert(is_connector_for(conns[j], nodes, cs[j], toe, bar_width));
    match (conns[i], conns[j]) {
        (Element::Group(g1), Element::Group(g2)) => {
            lemma_connector_markup_determined(
                g1,
                g2,
                nodes[find_node(nodes, cs[i].0)->0],
                nodes[find_node(nodes, cs[i].1)->0],
                toe,
                bar_width,
            );
        },
        _ => {},
    }
}

proof fn lemma_placed_keeps_ids_unique_if(nodes: Seq<NodeView>, n: NodeView)
    ensures
        unique_ids(nodes) ==> unique_ids(placed(nodes, n)),
{
    if unique_ids(nodes) {
        lemma_placed_keeps_ids_unique(nodes, n);
    }
}

/// Placing a node keeps the identifiers of the nodes unique.
pub proof fn lemma_placed_keeps_ids_unique(nodes: Seq<NodeView>, n: NodeView)
    requires
        unique_ids(nodes),
    ensures
        unique_ids(placed(nodes, n)),
{
    lemma_find_node(nodes, n.id);
    let p = placed(nodes, n);
    match find_node(nodes, n.id) {
        Some(k) => {
            assert forall|i: int, j: int| 0 <= i < j < p.len() implies p[i].id != p[j].id by {
                if i == k {
                    assert(nodes[k].id == n.id);
                } else if j == k {
                    assert(nodes[k].id == n.id);
                }
            }
        },
        None => {
            assert forall|i: int, j: int| 0 <= i < j < p.len() implies p[i].id != p[j].id by {
                if j == nodes.len() {
                    assert(nodes[i].id != n.id);
                }
            }
        },
    }
}

} // verus!
