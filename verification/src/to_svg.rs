use vstd::prelude::*;

use crate::document::{DocModel, PartModel, SVGDocument};
use crate::style::empty_style;
use crate::to_svg_str::ToSvgStr;
use crate::viewbox::lemma_union_empty;

verus! {

/// The one-part document a lone shape converts to: the shape rendered
/// at the default style, with its own bounds.
pub open spec fn single_doc_model<S: ToSvgStr>(s: S) -> DocModel {
    DocModel {
        style: empty_style(),
        viewbox: s.spec_viewbox(empty_style()),
        parts: seq![
            PartModel {
                style: empty_style(),
                viewbox: s.spec_viewbox(empty_style()),
                shapes: seq![s.spec_svg_str(empty_style())],
            },
        ],
        width: None,
        height: None,
    }
}

/// Anything renderable can stand alone as a document of its own.
pub trait ToSvg {
    /// The document this value converts to.
    spec fn spec_to_svg(&self) -> DocModel;

    /// Wrap this value in a document of its own, at the default style.
    fn to_svg(&self) -> (r: SVGDocument)
        ensures
            r@ == self.spec_to_svg(),
    ;
}

impl<T: ToSvgStr> ToSvg for T {
    open spec fn spec_to_svg(&self) -> DocModel {
        single_doc_model(*self)
    }

    fn to_svg(&self) -> (r: SVGDocument) {
        let r: SVGDocument = SVGDocument::style_builder().finish_style().add_shape(
            self,
        ).finish_shapes();
        proof {
            lemma_union_empty(self.spec_viewbox(empty_style()));
            assert(r@.parts[0].shapes =~= single_doc_model(*self).parts[0].shapes);
            assert(r@.parts =~= single_doc_model(*self).parts);
            assert(r@ == single_doc_model(*self));
        }
        r
    }
}

} // verus!
