use vstd::prelude::*;

use crate::geometry::Coord;
use crate::scalar::{attr_num_seq, Scalar};
use crate::style::{Style, StyleModel};
use crate::to_svg_str::ToSvgStr;
use crate::viewbox::{vb_empty, ViewBox};

verus! {

/// A text element placed at rough coordinates, for labelling shapes.
/// Text contributes no bounds: the automatic viewport does not grow to
/// hold it.
#[derive(Debug, PartialEq)]
pub struct Text {
    /// What the element displays.
    pub text: String,
    /// The rough coordinates of the text.
    pub position: Coord,
    /// The font size of the text.
    pub font_size: Scalar,
}

/// The markup of a text element.  The active style plays no part.
pub open spec fn text_seq(text: Seq<char>, position: Coord, font_size: Scalar) -> Seq<char> {
    "<text font-size=\""@ + attr_num_seq(font_size@) + "\" x=\""@ + attr_num_seq(position.x@)
        + "\" y=\""@ + attr_num_seq(position.y@) + "\">"@ + text + "</text>"@
}

impl Text {
    /// A text element at a position, with the default font size 10.
    pub fn new(text: String, position: Coord) -> (r: Text)
        ensures
            r.text@ == text@,
            r.position == position,
            r.font_size@ == 1000,
    {
        Text { text, position, font_size: Scalar { centi: 1000 } }
    }

    /// The same text with another font size.
    pub fn with_font_size(self, font_size: Scalar) -> (r: Text)
        ensures
            r.text@ == self.text@,
            r.position == self.position,
            r.font_size == font_size,
    {
        Text { font_size, ..self }
    }
}

impl ToSvgStr for Text {
    open spec fn spec_svg_str(&self, style: StyleModel) -> Seq<char> {
        text_seq(self.text@, self.position, self.font_size)
    }

    open spec fn spec_viewbox(&self, style: StyleModel) -> ViewBox {
        vb_empty()
    }

    fn to_svg_str(&self, style: &Style) -> (r: String) {
        let mut out: String = String::new();
        out.append("<text font-size=\"");
        self.font_size.push_attr_num(&mut out);
        out.append("\" x=\"");
        self.position.x.push_attr_num(&mut out);
        out.append("\" y=\"");
        self.position.y.push_attr_num(&mut out);
        out.append("\">");
        out.append(self.text.as_str());
        out.append("</text>");
        proof {
            assert(out@ =~= text_seq(self.text@, self.position, self.font_size));
        }
        out
    }

    fn viewbox(&self, style: &Style) -> (r: ViewBox) {
        ViewBox::empty()
    }
}

} // verus!
