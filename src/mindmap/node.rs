//! Mindmap nodes.
use vstd::prelude::*;
use crate::draw_svg::ToSvg;
use crate::mindmap::geometry::Point;
use crate::num::Num;
use crate::shapes::circle::{Circle, circle_markup};
use crate::style::empty_style;

verus! {

/// A labelled circular node.
#[derive(Debug)]
pub struct Node {
    pub id: String,
    pub label: String,
    pub cx: Num,
    pub cy: Num,
    pub radius: Num,
}

/// What a node holds, its text as character sequences.
pub struct NodeView {
    pub id: Seq<char>,
    pub label: Seq<char>,
    pub center: Point,
    pub radius: Num,
}

impl View for Node {
    type V = NodeView;

    open spec fn view(&self) -> NodeView {
        NodeView {
            id: self.id@,
            label: self.label@,
            center: Point { x: self.cx, y: self.cy },
            radius: self.radius,
        }
    }
}

impl Node {
    pub fn new(id: &str, label: &str, cx: Num, cy: Num, radius: Num) -> (r: Node)
        ensures
            r.id@ == id@,
            r.label@ == label@,
            r.cx == cx,
            r.cy == cy,
            r.radius == radius,
    {
        Node { id: id.to_string(), label: label.to_string(), cx, cy, radius }
    }

    /// The centre of the node.
    pub open spec fn center_spec(&self) -> Point {
        Point { x: self.cx, y: self.cy }
    }

    pub fn center(&self) -> (r: Point)
        ensures
            r == self.center_spec(),
    {
        Point { x: self.cx, y: self.cy }
    }

    /// A copy of the node.
    pub fn duplicate(&self) -> (r: Node)
        ensures
            r == *self,
    {
        Node {
            id: self.id.clone(),
            label: self.label.clone(),
            cx: self.cx,
            cy: self.cy,
            radius: self.radius,
        }
    }

    /// The undecorated circle that draws the node.
    pub fn to_circle(&self) -> (r: Circle)
        ensures
            r.id@ == self.id@,
            r.cx == self.cx,
            r.cy == self.cy,
            r.radius == self.radius,
            r.style@ == empty_style(),
    {
        Circle::new(self.id.as_str(), self.cx, self.cy, self.radius)
    }
}

impl ToSvg for Node {
    open spec fn svg_text(&self) -> Seq<char> {
        circle_markup(self.id@, self.cx, self.cy, self.radius, empty_style())
    }

    fn to_svg(&self) -> (r: String) {
        self.to_circle().to_svg()
    }
}

} // verus!
