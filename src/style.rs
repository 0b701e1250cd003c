//! Decorations: the optional visual attributes of a shape and their text.
use vstd::prelude::*;
use crate::num::{Num, num_text};
use crate::text::{push_str, push_string, hex_color, hex_color_text};

verus! {

/// Writes the three channels as `#RRGGBB`: at least two upper-case hex
/// digits each, more for a channel above 255.
pub fn rgb_to_hex(r: u16, g: u16, b: u16) -> (s: String)
    ensures
        s@ == hex_color_text(r as nat, g as nat, b as nat),
{
    hex_color(r, g, b)
}

/// The attributes of a decoration, each set or not, and a rotation angle in
/// degrees (zero when not rotated).
#[derive(Debug, Clone)]
pub struct Style {
    pub fill: Option<String>,
    pub stroke: Option<String>,
    pub stroke_width: Option<Num>,
    pub opacity: Option<Num>,
    pub fill_opacity: Option<Num>,
    pub stroke_opacity: Option<Num>,
    pub angle: Num,
}

/// What a decoration holds, with its text attributes as character sequences.
pub struct StyleView {
    pub fill: Option<Seq<char>>,
    pub stroke: Option<Seq<char>>,
    pub stroke_width: Option<Num>,
    pub opacity: Option<Num>,
    pub fill_opacity: Option<Num>,
    pub stroke_opacity: Option<Num>,
    pub angle: Num,
}

pub open spec fn text_view(o: Option<String>) -> Option<Seq<char>> {
    match o {
        Some(t) => Some(t@),
        None => None,
    }
}

impl View for Style {
    type V = StyleView;

    open spec fn view(&self) -> StyleView {
        StyleView {
            fill: text_view(self.fill),
            stroke: text_view(self.stroke),
            stroke_width: self.stroke_width,
            opacity: self.opacity,
            fill_opacity: self.fill_opacity,
            stroke_opacity: self.stroke_opacity,
            angle: self.angle,
        }
    }
}

/// The decoration with nothing set.
pub open spec fn empty_style() -> StyleView {
    StyleView {
        fill: None,
        stroke: None,
        stroke_width: None,
        opacity: None,
        fill_opacity: None,
        stroke_opacity: None,
        angle: Num { micros: 0 },
    }
}

/// Whether no attribute is set (the angle is not an attribute).
pub open spec fn no_attributes(v: StyleView) -> bool {
    v.fill is None && v.stroke is None && v.stroke_width is None && v.opacity is None
        && v.fill_opacity is None && v.stroke_opacity is None
}

/// `key:value;` for a text attribute that is set, else nothing.
pub open spec fn text_entry(key: Seq<char>, v: Option<Seq<char>>) -> Seq<char> {
    match v {
        Some(t) => key + t + ";"@,
        None => seq![],
    }
}

/// `key:value;` for a numeric attribute that is set, else nothing.
pub open spec fn num_entry(key: Seq<char>, v: Option<Num>) -> Seq<char> {
    match v {
        Some(n) => key + num_text(n.micros as int) + ";"@,
        None => seq![],
    }
}

/// The decoration text: the attributes that are set, in the fixed order
/// fill, stroke, stroke-width, opacity, fill-opacity, stroke-opacity.
pub open spec fn style_text(v: StyleView) -> Seq<char> {
    text_entry("fill:"@, v.fill) + text_entry("stroke:"@, v.stroke) + num_entry(
        "stroke-width:"@,
        v.stroke_width,
    ) + num_entry("opacity:"@, v.opacity) + num_entry("fill-opacity:"@, v.fill_opacity)
        + num_entry("stroke-opacity:"@, v.stroke_opacity)
}

fn push_text_entry(s: &mut String, key: &str, v: &Option<String>)
    ensures
        final(s)@ == old(s)@ + text_entry(key@, text_view(*v)),
{
    match v {
        Some(t) => {
            push_str(s, key);
            push_string(s, t);
            push_str(s, ";");
        },
        None => {},
    }
    assert(final(s)@ =~= old(s)@ + text_entry(key@, text_view(*v)));
}

fn push_num_entry(s: &mut String, key: &str, v: Option<Num>)
    ensures
        final(s)@ == old(s)@ + num_entry(key@, v),
{
    match v {
        Some(n) => {
            push_str(s, key);
            n.write_to(s);
            push_str(s, ";");
        },
        None => {},
    }
    assert(final(s)@ =~= old(s)@ + num_entry(key@, v));
}

impl Style {
    /// A decoration with nothing set and no rotation.
    pub fn new() -> (r: Style)
        ensures
            r@ == empty_style(),
    {
        Style {
            fill: None,
            stroke: None,
            stroke_width: None,
            opacity: None,
            fill_opacity: None,
            stroke_opacity: None,
            angle: Num::from_micros(0),
        }
    }

    pub fn set_fill(&mut self, fill: &str)
        ensures
            final(self)@ == (StyleView { fill: Some(fill@), ..old(self)@ }),
    {
        self.fill = Some(fill.to_string());
    }

    pub fn set_stroke(&mut self, stroke: &str)
        ensures
            final(self)@ == (StyleView { stroke: Some(stroke@), ..old(self)@ }),
    {
        self.stroke = Some(stroke.to_string());
    }

    pub fn set_stroke_width(&mut self, stroke_width: Num)
        ensures
            final(self)@ == (StyleView { stroke_width: Some(stroke_width), ..old(self)@ }),
    {
        self.stroke_width = Some(stroke_width);
    }

    pub fn set_opacity(&mut self, opacity: Num)
        ensures
            final(self)@ == (StyleView { opacity: Some(opacity), ..old(self)@ }),
    {
        self.opacity = Some(opacity);
    }

    pub fn set_fill_opacity(&mut self, fill_opacity: Num)
        ensures
            final(self)@ == (StyleView { fill_opacity: Some(fill_opacity), ..old(self)@ }),
    {
        self.fill_opacity = Some(fill_opacity);
    }

    pub fn set_stroke_opacity(&mut self, stroke_opacity: Num)
        ensures
            final(self)@ == (StyleView { stroke_opacity: Some(stroke_opacity), ..old(self)@ }),
    {
        self.stroke_opacity = Some(stroke_opacity);
    }

    /// Sets the rotation, in degrees.
    pub fn set_angle(&mut self, angle_deg: Num)
        ensures
            final(self)@ == (StyleView { angle: angle_deg, ..old(self)@ }),
    {
        self.angle = angle_deg;
    }

    /// Whether no attribute is set.
    pub fn is_empty(&self) -> (r: bool)
        ensures
            r == no_attributes(self@),
    {
        self.fill.is_none() && self.stroke.is_none() && self.stroke_width.is_none()
            && self.opacity.is_none() && self.fill_opacity.is_none()
            && self.stroke_opacity.is_none()
    }

    /// The decoration text (`fill:#FF0000;stroke-width:1.5;`); empty when
    /// nothing is set.
    pub fn to_string(&self) -> (r: String)
        ensures
            r@ == style_text(self@),
    {
        let mut s = String::new();
        push_text_entry(&mut s, "fill:", &self.fill);
        push_text_entry(&mut s, "stroke:", &self.stroke);
        push_num_entry(&mut s, "stroke-width:", self.stroke_width);
        push_num_entry(&mut s, "opacity:", self.opacity);
        push_num_entry(&mut s, "fill-opacity:", self.fill_opacity);
        push_num_entry(&mut s, "stroke-opacity:", self.stroke_opacity);
        assert(s@ =~= style_text(self@));
        s
    }
}

/// A decoration with no attribute set writes no text.
pub proof fn lemma_empty_style_text(v: StyleView)
    requires
        no_attributes(v),
    ensures
        style_text(v) == Seq::<char>::empty(),
{
    assert(style_text(v) =~= Seq::<char>::empty());
}

/// The order in which fill and stroke are set does not matter: either way,
/// on an otherwise empty decoration, the text is `fill:<fill>;stroke:<stroke>;`.
pub proof fn lemma_fill_stroke_order(v: StyleView, fill: Seq<char>, stroke: Seq<char>)
    requires
        no_attributes(v),
    ensures
        (StyleView { fill: Some(fill), ..(StyleView { stroke: Some(stroke), ..v }) }) == (
        StyleView { stroke: Some(stroke), ..(StyleView { fill: Some(fill), ..v }) }),
        style_text(StyleView { fill: Some(fill), ..(StyleView { stroke: Some(stroke), ..v }) })
            == "fill:"@ + fill + ";"@ + "stroke:"@ + stroke + ";"@,
{
    let w = StyleView { fill: Some(fill), ..(StyleView { stroke: Some(stroke), ..v }) };
    assert(style_text(w) =~= "fill:"@ + fill + ";"@ + "stroke:"@ + stroke + ";"@);
}

} // verus!
