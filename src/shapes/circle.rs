//! The circle shape.
use vstd::prelude::*;
use crate::draw_svg::{ToSvg, closing_text, num_attr, push_num_attr, close_element};
use crate::num::Num;
use crate::style::{Style, StyleView, empty_style};
use crate::text::{push_str, push_string};

verus! {

/// A `<circle>` element.
#[derive(Debug, Clone)]
pub struct Circle {
    pub id: String,
    pub cx: Num,
    pub cy: Num,
    pub radius: Num,
    pub style: Style,
}

/// The markup of a circle with the given identifier, centre, radius and
/// decoration.
pub open spec fn circle_markup(id: Seq<char>, cx: Num, cy: Num, r: Num, style: StyleView) -> Seq<
    char,
> {
    "<circle id=\""@ + id + "\""@ + num_attr(" cx=\""@, cx) + num_attr(" cy=\""@, cy) + num_attr(
        " r=\""@,
        r,
    ) + closing_text(style)
}

/// The markup of a circle.
pub open spec fn circle_text(c: Circle) -> Seq<char> {
    circle_markup(c.id@, c.cx, c.cy, c.radius, c.style@)
}

impl Circle {
    /// A circle with no decoration.
    pub fn new(id: &str, cx: Num, cy: Num, radius: Num) -> (r: Circle)
        ensures
            r.id@ == id@,
            r.cx == cx,
            r.cy == cy,
            r.radius == radius,
            r.style@ == empty_style(),
    {
        Circle { id: id.to_string(), cx, cy, radius, style: Style::new() }
    }
}

impl ToSvg for Circle {
    open spec fn svg_text(&self) -> Seq<char> {
        circle_text(*self)
    }

    fn to_svg(&self) -> (r: String) {
        let mut s = String::new();
        push_str(&mut s, "<circle id=\"");
        push_string(&mut s, &self.id);
        push_str(&mut s, "\"");
        push_num_attr(&mut s, " cx=\"", self.cx);
        push_num_attr(&mut s, " cy=\"", self.cy);
        push_num_attr(&mut s, " r=\"", self.radius);
        close_element(&self.style, &mut s);
        assert(s@ =~= circle_text(*self));
        s
    }
}

} // verus!
