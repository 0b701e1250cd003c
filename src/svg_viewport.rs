//! A drawing: a sized canvas holding top-level elements.
use vstd::prelude::*;
use crate::draw_svg::{ToSvg, num_attr, push_num_attr};
use crate::num::Num;
use crate::shapes::group::{Element, element_text};
use crate::text::{push_str, push_string};

verus! {

/// A canvas of the given size and the elements drawn on it, in order.
#[derive(Debug)]
pub struct SvgDrawing {
    pub width: Num,
    pub height: Num,
    pub elements: Vec<Element>,
}

/// The opening tag of the canvas.
pub open spec fn header_text(width: Num, height: Num) -> Seq<char> {
    "<svg"@ + num_attr(" width=\""@, width) + num_attr(" height=\""@, height)
        + " xmlns=\"http://www.w3.org/2000/svg\">"@
}

/// Each element on a line of its own.
pub open spec fn element_lines(es: Seq<Element>) -> Seq<char>
    decreases es.len(),
{
    if es.len() == 0 {
        seq![]
    } else {
        element_lines(es.drop_last()) + element_text(es.last()) + "\n"@
    }
}

/// The whole document: the opening tag, each element, the closing tag,
/// each on a line of its own.
pub open spec fn document_text(d: SvgDrawing) -> Seq<char> {
    header_text(d.width, d.height) + "\n"@ + element_lines(d.elements@) + "</svg>\n"@
}

impl SvgDrawing {
    /// An empty canvas.
    pub fn new(width: Num, height: Num) -> (r: SvgDrawing)
        ensures
            r.width == width,
            r.height == height,
            r.elements@ == Seq::<Element>::empty(),
    {
        SvgDrawing { width, height, elements: Vec::new() }
    }

    /// Appends an element; elements are drawn in the order they were added.
    pub fn add_element(&mut self, el: Element)
        ensures
            final(self).elements@ == old(self).elements@.push(el),
            final(self).width == old(self).width,
            final(self).height == old(self).height,
    {
        self.elements.push(el);
    }

    /// The opening tag of the canvas, with its size.
    pub fn svg_header(&self) -> (r: String)
        ensures
            r@ == header_text(self.width, self.height),
    {
        let mut s = String::new();
        push_str(&mut s, "<svg");
        push_num_attr(&mut s, " width=\"", self.width);
        push_num_attr(&mut s, " height=\"", self.height);
        push_str(&mut s, " xmlns=\"http://www.w3.org/2000/svg\">");
        assert(s@ =~= header_text(self.width, self.height));
        s
    }

    /// The whole document, as it is printed.
    pub fn document(&self) -> (r: String)
        ensures
            r@ == document_text(*self),
    {
        let mut s = self.svg_header();
        push_str(&mut s, "\n");
        let ghost head = s@;
        let mut i: usize = 0;
        while i < self.elements.len()
            invariant
                i <= self.elements@.len(),
                s@ == head + element_lines(self.elements@.subrange(0, i as int)),
            decreases self.elements@.len() - i,
        {
            let ghost next = self.elements@.subrange(0, i + 1);
            assert(next.drop_last() =~= self.elements@.subrange(0, i as int));
            let t = self.elements[i].to_svg();
            push_string(&mut s, &t);
            push_str(&mut s, "\n");
            i = i + 1;
            assert(s@ =~= head + element_lines(self.elements@.subrange(0, i as int)));
        }
        assert(self.elements@.subrange(0, i as int) =~= self.elements@);
        push_str(&mut s, "</svg>\n");
        assert(s@ =~= document_text(*self));
        s
    }
}

} // verus!
