use vstd::prelude::*;

use crate::document::{DocModel, SVGDocument};
use crate::style::or_merge;
use crate::to_svg::{single_doc_model, ToSvg};
use crate::to_svg_str::ToSvgStr;
use crate::viewbox::vb_union;

verus! {

/// What combining two documents produces: bounds united, styles
/// fallback-merged with the left side winning, parts concatenated.
pub open spec fn doc_and_model(a: DocModel, b: DocModel) -> DocModel {
    DocModel {
        style: or_merge(a.style, b.style),
        viewbox: vb_union(a.viewbox, b.viewbox),
        parts: a.parts + b.parts,
        width: a.width,
        height: a.height,
    }
}

/// The compound document of a nonempty run of shapes, each wrapped as
/// its own default-styled document and combined left to right.
pub open spec fn combined_model<S: ToSvgStr>(items: Seq<S>) -> DocModel
    recommends
        items.len() >= 1,
    decreases items.len(),
{
    if items.len() <= 1 {
        single_doc_model(items[0])
    } else {
        doc_and_model(combined_model(items.drop_last()), single_doc_model(items.last()))
    }
}

/// Combining a run of renderable values into one compound document.
pub trait CombineToSVG {
    /// The compound document this run combines to, if it holds
    /// anything at all.
    spec fn spec_combined(&self) -> Option<DocModel>;

    /// Combine every member into one compound document; an empty run
    /// combines to nothing.
    fn combine_to_svg(&self) -> (r: Option<SVGDocument>)
        ensures
            r is Some <==> self.spec_combined() is Some,
            r matches Some(d) ==> self.spec_combined() == Some(d@),
    ;
}

impl<S: ToSvgStr> CombineToSVG for Vec<S> {
    open spec fn spec_combined(&self) -> Option<DocModel> {
        if self@.len() == 0 {
            None
        } else {
            Some(combined_model(self@))
        }
    }

    fn combine_to_svg(&self) -> (r: Option<SVGDocument>) {
        if self.len() == 0 {
            return None;
        }
        let mut acc: SVGDocument = self[0].to_svg();
        proof {
            assert(self@.take(1)[0] == self@[0]);
            assert(acc@ == combined_model(self@.take(1)));
        }
        let mut i: usize = 1;
        while i < self.len()
            invariant
                1 <= i <= self.len(),
                acc@ == combined_model(self@.take(i as int)),
            decreases self.len() - i,
        {
            let next: SVGDocument = self[i].to_svg();
            acc = acc.and(next);
            i = i + 1;
            proof {
                assert(self@.take(i as int).drop_last() =~= self@.take(i - 1 as int));
                assert(self@.take(i as int).last() == self@[i - 1 as int]);
                assert(acc@.parts =~= doc_and_model(
                    combined_model(self@.take(i - 1 as int)),
                    single_doc_model(self@[i - 1 as int]),
                ).parts);
                assert(acc@ == combined_model(self@.take(i as int)));
            }
        }
        proof {
            assert(self@.take(self.len() as int) =~= self@);
        }
        Some(acc)
    }
}

} // verus!
