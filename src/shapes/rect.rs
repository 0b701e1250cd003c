//! The rectangle shape.
use vstd::prelude::*;
use crate::draw_svg::{ToSvg, num_attr, push_num_attr, style_attr, push_style_attr};
use crate::num::{Num, num_text, push_micros};
use crate::style::{Style, empty_style};
use crate::text::{push_str, push_string};

verus! {

/// A `<rect>` element, with optional corner radii.
#[derive(Debug, Clone)]
pub struct Rect {
    pub id: String,
    pub x: Num,
    pub y: Num,
    pub width: Num,
    pub height: Num,
    pub rx: Option<Num>,
    pub ry: Option<Num>,
    pub style: Style,
}

/// A numeric attribute when it is set, else nothing.
pub open spec fn opt_num_attr(key: Seq<char>, n: Option<Num>) -> Seq<char> {
    match n {
        Some(v) => num_attr(key, v),
        None => seq![],
    }
}

/// Millionths of `origin + size / 2`, halves rounded down.
pub open spec fn center_micros(origin: Num, size: Num) -> int {
    origin.micros + size.micros / 2
}

/// The rotation attribute: about the rectangle's centre, and only when the
/// angle is not zero.
pub open spec fn rotation_attr(r: Rect) -> Seq<char> {
    if r.style.angle.micros == 0 {
        seq![]
    } else {
        " transform=\"rotate("@ + num_text(r.style.angle.micros as int) + " "@ + num_text(
            center_micros(r.x, r.width),
        ) + " "@ + num_text(center_micros(r.y, r.height)) + ")\""@
    }
}

/// The markup of a rectangle.
pub open spec fn rect_text(r: Rect) -> Seq<char> {
    "<rect id=\""@ + r.id@ + "\""@ + num_attr(" x=\""@, r.x) + num_attr(" y=\""@, r.y) + num_attr(
        " width=\""@,
        r.width,
    ) + num_attr(" height=\""@, r.height) + opt_num_attr(" rx=\""@, r.rx) + opt_num_attr(
        " ry=\""@,
        r.ry,
    ) + style_attr(r.style@) + rotation_attr(r) + " />"@
}

fn half_down(v: i64) -> (r: i128)
    ensures
        r == v / 2,
{
    if v >= 0 {
        (v / 2) as i128
    } else {
        let m: i128 = 0 - v as i128;
        0 - (m + 1) / 2
    }
}

fn push_opt_num_attr(s: &mut String, key: &str, n: Option<Num>)
    ensures
        final(s)@ == old(s)@ + opt_num_attr(key@, n),
{
    match n {
        Some(v) => push_num_attr(s, key, v),
        None => {},
    }
    assert(final(s)@ =~= old(s)@ + opt_num_attr(key@, n));
}

impl Rect {
    /// A rectangle with no corner radii and no decoration.
    pub fn new(id: &str, x: Num, y: Num, width: Num, height: Num) -> (r: Rect)
        ensures
            r.id@ == id@,
            r.x == x,
            r.y == y,
            r.width == width,
            r.height == height,
            r.rx is None,
            r.ry is None,
            r.style@ == empty_style(),
    {
        Rect { id: id.to_string(), x, y, width, height, rx: None, ry: None, style: Style::new() }
    }

    pub fn set_rx(&mut self, rx: Num)
        ensures
            final(self).rx == Some(rx),
            final(self).id == old(self).id,
            final(self).x == old(self).x,
            final(self).y == old(self).y,
            final(self).width == old(self).width,
            final(self).height == old(self).height,
            final(self).ry == old(self).ry,
            final(self).style == old(self).style,
    {
        self.rx = Some(rx);
    }

    pub fn set_ry(&mut self, ry: Num)
        ensures
            final(self).ry == Some(ry),
            final(self).id == old(self).id,
            final(self).x == old(self).x,
            final(self).y == old(self).y,
            final(self).width == old(self).width,
            final(self).height == old(self).height,
            final(self).rx == old(self).rx,
            final(self).style == old(self).style,
    {
        self.ry = Some(ry);
    }
}

impl ToSvg for Rect {
    open spec fn svg_text(&self) -> Seq<char> {
        rect_text(*self)
    }

    fn to_svg(&self) -> (r: String) {
        let mut s = String::new();
        push_str(&mut s, "<rect id=\"");
        push_string(&mut s, &self.id);
        push_str(&mut s, "\"");
        push_num_attr(&mut s, " x=\"", self.x);
        push_num_attr(&mut s, " y=\"", self.y);
        push_num_attr(&mut s, " width=\"", self.width);
        push_num_attr(&mut s, " height=\"", self.height);
        push_opt_num_attr(&mut s, " rx=\"", self.rx);
        push_opt_num_attr(&mut s, " ry=\"", self.ry);
        push_style_attr(&mut s, &self.style);
        let ghost before = s@;
        if self.style.angle.micros != 0 {
            push_str(&mut s, " transform=\"rotate(");
            self.style.angle.write_to(&mut s);
            push_str(&mut s, " ");
            push_micros(&mut s, self.x.micros as i128 + half_down(self.width.micros));
            push_str(&mut s, " ");
            push_micros(&mut s, self.y.micros as i128 + half_down(self.height.micros));
            push_str(&mut s, ")\"");
        }
        assert(s@ =~= before + rotation_attr(*self));
        push_str(&mut s, " />");
        assert(s@ =~= rect_text(*self));
        s
    }
}

} // verus!
