//! The markup capability shared by all shapes, and the closing of a tag.
use vstd::prelude::*;
use crate::num::{Num, num_text};
use crate::style::{Style, StyleView, empty_style, no_attributes, style_text};
use crate::text::push_str;

verus! {

/// Anything that renders itself as markup text.
pub trait ToSvg {
    /// The markup text of the value.
    spec fn svg_text(&self) -> Seq<char>;

    fn to_svg(&self) -> (r: String)
        ensures
            r@ == self.svg_text(),
    ;
}

/// The decoration attribute of a tag: nothing when no attribute is set.
pub open spec fn style_attr(v: StyleView) -> Seq<char> {
    if no_attributes(v) {
        seq![]
    } else {
        " style=\""@ + style_text(v) + "\""@
    }
}

/// The end of a self-closing tag: its decoration attribute, then `/>`.
pub open spec fn closing_text(v: StyleView) -> Seq<char> {
    style_attr(v) + " />"@
}

/// A numeric attribute: `key` (such as ` cx="`), the number and a quote.
pub open spec fn num_attr(key: Seq<char>, n: Num) -> Seq<char> {
    key + num_text(n.micros as int) + "\""@
}

pub(crate) fn push_num_attr(s: &mut String, key: &str, n: Num)
    ensures
        final(s)@ == old(s)@ + num_attr(key@, n),
{
    push_str(s, key);
    n.write_to(s);
    push_str(s, "\"");
    assert(final(s)@ =~= old(s)@ + num_attr(key@, n));
}

pub(crate) fn push_style_attr(s: &mut String, style: &Style)
    ensures
        final(s)@ == old(s)@ + style_attr(style@),
{
    if !style.is_empty() {
        push_str(s, " style=\"");
        let t = style.to_string();
        push_str(s, t.as_str());
        push_str(s, "\"");
    }
    assert(final(s)@ =~= old(s)@ + style_attr(style@));
}

/// Appends the decoration attribute, if any, and closes the tag.
pub fn close_element(style: &Style, svg_string: &mut String)
    ensures
        final(svg_string)@ == old(svg_string)@ + closing_text(style@),
{
    push_style_attr(svg_string, style);
    push_str(svg_string, " />");
    assert(final(svg_string)@ =~= old(svg_string)@ + closing_text(style@));
}

/// A shape with no decoration set closes its tag with no decoration
/// attribute at all: nothing but ` />`.
pub proof fn lemma_undecorated_closing(v: StyleView)
    requires
        no_attributes(v),
    ensures
        style_attr(v) == Seq::<char>::empty(),
        closing_text(v) == " />"@,
        closing_text(empty_style()) == " />"@,
{
    assert(closing_text(v) =~= " />"@);
    assert(closing_text(empty_style()) =~= " />"@);
}

} // verus!
