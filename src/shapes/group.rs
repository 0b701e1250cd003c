//! Groups of shapes, nested to any depth, and the closed set of drawable
//! elements.
use vstd::prelude::*;
use crate::draw_svg::{ToSvg, style_attr, push_style_attr};
use crate::shapes::circle::{Circle, circle_text};
use crate::shapes::path::{Path, path_text};
use crate::shapes::rect::{Rect, rect_text};
use crate::style::{Style, empty_style};
use crate::text::{push_str, push_string};

verus! {

/// A drawable element: one of the shapes, or a group of elements.
#[derive(Debug)]
pub enum Element {
    Circle(Circle),
    Rect(Rect),
    Path(Path),
    Group(Group),
}

/// A `<g>` element: an ordered list of owned children and a decoration.
#[derive(Debug)]
pub struct Group {
    pub id: String,
    pub children: Vec<Element>,
    pub style: Style,
}

/// The opening tag of a group, ending its line.
pub open spec fn group_head(g: Group) -> Seq<char> {
    "<g id=\""@ + g.id@ + "\""@ + style_attr(g.style@) + ">\n"@
}

/// The markup of an element. A group writes its opening tag, then each
/// child on a line of its own indented by one tab, then its closing tag.
pub open spec fn element_text(e: Element) -> Seq<char>
    decreases e,
{
    match e {
        Element::Circle(c) => circle_text(c),
        Element::Rect(r) => rect_text(r),
        Element::Path(p) => path_text(p),
        Element::Group(g) => group_head(g) + children_text(g.children@) + "</g>"@,
    }
}

/// The children of a group, each after a tab and before a line break.
pub open spec fn children_text(cs: Seq<Element>) -> Seq<char>
    decreases cs,
{
    if cs.len() == 0 {
        seq![]
    } else {
        children_text(cs.drop_last()) + "\t"@ + element_text(cs.last()) + "\n"@
    }
}

/// The markup of a group.
pub open spec fn group_text(g: Group) -> Seq<char> {
    element_text(Element::Group(g))
}

/// Children with equal markup, one by one, have equal markup together.
pub proof fn lemma_children_text_eq(c1: Seq<Element>, c2: Seq<Element>)
    requires
        c1.len() == c2.len(),
        forall|k: int| 0 <= k < c1.len() ==> element_text(#[trigger] c1[k]) == element_text(c2[k]),
    ensures
        children_text(c1) == children_text(c2),
    decreases c1.len(),
{
    if c1.len() > 0 {
        let d1 = c1.drop_last();
        let d2 = c2.drop_last();
        assert forall|k: int| 0 <= k < d1.len() implies element_text(#[trigger] d1[k]) == element_text(
            d2[k],
        ) by {
            assert(d1[k] == c1[k]);
            assert(d2[k] == c2[k]);
        }
        lemma_children_text_eq(d1, d2);
        assert(element_text(c1.last()) == element_text(c2.last()));
    }
}

fn element_svg(e: &Element) -> (r: String)
    ensures
        r@ == element_text(*e),
    decreases e,
{
    match e {
        Element::Circle(c) => c.to_svg(),
        Element::Rect(r) => r.to_svg(),
        Element::Path(p) => p.to_svg(),
        Element::Group(g) => group_svg(g),
    }
}

fn group_svg(g: &Group) -> (r: String)
    ensures
        r@ == group_text(*g),
    decreases g,
{
    let mut s = String::new();
    push_str(&mut s, "<g id=\"");
    push_string(&mut s, &g.id);
    push_str(&mut s, "\"");
    push_style_attr(&mut s, &g.style);
    push_str(&mut s, ">\n");
    let ghost head = s@;
    assert(head =~= group_head(*g));
    let mut i: usize = 0;
    while i < g.children.len()
        invariant
            i <= g.children@.len(),
            s@ == head + children_text(g.children@.subrange(0, i as int)),
        decreases g.children@.len() - i,
    {
        let ghost prefix = g.children@.subrange(0, i + 1);
        assert(prefix.drop_last() =~= g.children@.subrange(0, i as int));
        assert(prefix.last() == g.children@[i as int]);
        proof {
            assert(decreases_to!(g => g.children));
            vstd::std_specs::vec::axiom_vec_index_decreases(g.children, i as int);
        }
        let t = element_svg(&g.children[i]);
        push_str(&mut s, "\t");
        push_string(&mut s, &t);
        push_str(&mut s, "\n");
        i = i + 1;
        assert(s@ =~= head + children_text(g.children@.subrange(0, i as int)));
    }
    assert(g.children@.subrange(0, i as int) =~= g.children@);
    push_str(&mut s, "</g>");
    assert(s@ =~= group_text(*g));
    s
}

impl Group {
    /// An empty group with no decoration.
    pub fn new(id: &str) -> (r: Group)
        ensures
            r.id@ == id@,
            r.children@ == Seq::<Element>::empty(),
            r.style@ == empty_style(),
    {
        Group { id: id.to_string(), children: Vec::new(), style: Style::new() }
    }

    /// Appends a child; children render in the order they were added.
    pub fn add_element(&mut self, child: Element)
        ensures
            final(self).children@ == old(self).children@.push(child),
            final(self).id == old(self).id,
            final(self).style == old(self).style,
    {
        self.children.push(child);
    }
}

impl ToSvg for Group {
    open spec fn svg_text(&self) -> Seq<char> {
        group_text(*self)
    }

    fn to_svg(&self) -> (r: String) {
        group_svg(self)
    }
}

impl ToSvg for Element {
    open spec fn svg_text(&self) -> Seq<char> {
        element_text(*self)
    }

    fn to_svg(&self) -> (r: String) {
        element_svg(self)
    }
}

} // verus!
