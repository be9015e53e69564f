use vstd::prelude::*;

use crate::color::Color;
use crate::scalar::Scalar;
use crate::style::{
    apply_update, or_merge, LineCap, LineJoin, Style, StyleModel, StyleUpdate, StyleUpdateModel,
};

verus! {

/// The style cascade.  A stylable value carries one style record of its
/// own and one for each constituent group; assigning an attribute
/// writes the same value into every one of those records and changes
/// nothing else, so a setting made on a combined document reaches all
/// of its groups identically.
pub trait Stylable: Sized {
    /// The style records this value carries: its own first, then one
    /// for each constituent group.
    spec fn styles(&self) -> Seq<StyleModel>;

    /// Everything except the style records is equal in `self` and
    /// `other`.
    spec fn same_but_styles(&self, other: &Self) -> bool;

    /// Apply one attribute assignment to every carried style record.
    fn styled(self, update: &StyleUpdate) -> (r: Self)
        ensures
            r.styles() == self.styles().map_values(
                |m: StyleModel| apply_update(m, update@),
            ),
            self.same_but_styles(&r),
    ;

    /// Replace every carried style record wholesale with `other`.
    fn use_style(self, other: &Style) -> (r: Self)
        ensures
            r.styles() == Seq::new(self.styles().len(), |i: int| other@),
            self.same_but_styles(&r),
    ;

    /// Fallback-merge `other` into the own style record: own settings
    /// win and unset attributes fall back to `other`'s.  There is no
    /// guarantee that any attribute is set afterwards.
    fn or_style(self, other: &Style) -> (r: Self)
        requires
            self.styles().len() >= 1,
        ensures
            r.styles() == self.styles().update(0, or_merge(self.styles()[0], other@)),
            self.same_but_styles(&r),
    ;

    fn with_opacity(self, opacity: Scalar) -> (r: Self)
        ensures
            r.styles() == self.styles().map_values(
                |m: StyleModel| apply_update(m, StyleUpdateModel::Opacity(opacity)),
            ),
            self.same_but_styles(&r),
    {
        let ghost pre: Seq<StyleModel> = self.styles();
        let r: Self = self.styled(&StyleUpdate::Opacity(opacity));
        proof {
            assert(r.styles() =~= pre.map_values(
                |m: StyleModel| apply_update(m, StyleUpdateModel::Opacity(opacity)),
            ));
        }
        r
    }

    /// Assign the fill and the stroke color together.
    fn with_color(self, color: Color) -> (r: Self)
        ensures
            r.styles() == self.styles().map_values(
                |m: StyleModel| apply_update(m, StyleUpdateModel::Color(color)),
            ),
            self.same_but_styles(&r),
    {
        let ghost pre: Seq<StyleModel> = self.styles();
        let r: Self = self.styled(&StyleUpdate::Color(color));
        proof {
            assert(r.styles() =~= pre.map_values(
                |m: StyleModel| apply_update(m, StyleUpdateModel::Color(color)),
            ));
        }
        r
    }

    fn with_fill_color(self, color: Color) -> (r: Self)
        ensures
            r.styles() == self.styles().map_values(
                |m: StyleModel| apply_update(m, StyleUpdateModel::FillColor(color)),
            ),
            self.same_but_styles(&r),
    {
        let ghost pre: Seq<StyleModel> = self.styles();
        let r: Self = self.styled(&StyleUpdate::FillColor(color));
        proof {
            assert(r.styles() =~= pre.map_values(
                |m: StyleModel| apply_update(m, StyleUpdateModel::FillColor(color)),
            ));
        }
        r
    }

    fn with_fill_opacity(self, opacity: Scalar) -> (r: Self)
        ensures
            r.styles() == self.styles().map_values(
                |m: StyleModel| apply_update(m, StyleUpdateModel::FillOpacity(opacity)),
            ),
            self.same_but_styles(&r),
    {
        let ghost pre: Seq<StyleModel> = self.styles();
        let r: Self = self.styled(&StyleUpdate::FillOpacity(opacity));
        proof {
            assert(r.styles() =~= pre.map_values(
                |m: StyleModel| apply_update(m, StyleUpdateModel::FillOpacity(opacity)),
            ));
        }
        r
    }

    fn with_stroke_color(self, color: Color) -> (r: Self)
        ensures
            r.styles() == self.styles().map_values(
                |m: StyleModel| apply_update(m, StyleUpdateModel::StrokeColor(color)),
            ),
            self.same_but_styles(&r),
    {
        let ghost pre: Seq<StyleModel> = self.styles();
        let r: Self = self.styled(&StyleUpdate::StrokeColor(color));
        proof {
            assert(r.styles() =~= pre.map_values(
                |m: StyleModel| apply_update(m, StyleUpdateModel::StrokeColor(color)),
            ));
        }
        r
    }

    fn with_stroke_width(self, width: Scalar) -> (r: Self)
        ensures
            r.styles() == self.styles().map_values(
                |m: StyleModel| apply_update(m, StyleUpdateModel::StrokeWidth(width)),
            ),
            self.same_but_styles(&r),
    {
        let ghost pre: Seq<StyleModel> = self.styles();
        let r: Self = self.styled(&StyleUpdate::StrokeWidth(width));
        proof {
            assert(r.styles() =~= pre.map_values(
                |m: StyleModel| apply_update(m, StyleUpdateModel::StrokeWidth(width)),
            ));
        }
        r
    }

    fn with_stroke_opacity(self, opacity: Scalar) -> (r: Self)
        ensures
            r.styles() == self.styles().map_values(
                |m: StyleModel| apply_update(m, StyleUpdateModel::StrokeOpacity(opacity)),
            ),
            self.same_but_styles(&r),
    {
        let ghost pre: Seq<StyleModel> = self.styles();
        let r: Self = self.styled(&StyleUpdate::StrokeOpacity(opacity));
        proof {
            assert(r.styles() =~= pre.map_values(
                |m: StyleModel| apply_update(m, StyleUpdateModel::StrokeOpacity(opacity)),
            ));
        }
        r
    }

    fn with_stroke_dasharray(self, dasharray: Vec<Scalar>) -> (r: Self)
        ensures
            r.styles() == self.styles().map_values(
                |m: StyleModel| apply_update(m, StyleUpdateModel::StrokeDasharray(dasharray@)),
            ),
            self.same_but_styles(&r),
    {
        let ghost pre: Seq<StyleModel> = self.styles();
        let ghost pattern: Seq<Scalar> = dasharray@;
        let r: Self = self.styled(&StyleUpdate::StrokeDasharray(dasharray));
        proof {
            assert(r.styles() =~= pre.map_values(
                |m: StyleModel| apply_update(m, StyleUpdateModel::StrokeDasharray(pattern)),
            ));
        }
        r
    }

    fn with_stroke_linecap(self, linecap: LineCap) -> (r: Self)
        ensures
            r.styles() == self.styles().map_values(
                |m: StyleModel| apply_update(m, StyleUpdateModel::StrokeLinecap(linecap)),
            ),
            self.same_but_styles(&r),
    {
        let ghost pre: Seq<StyleModel> = self.styles();
        let r: Self = self.styled(&StyleUpdate::StrokeLinecap(linecap));
        proof {
            assert(r.styles() =~= pre.map_values(
                |m: StyleModel| apply_update(m, StyleUpdateModel::StrokeLinecap(linecap)),
            ));
        }
        r
    }

    fn with_stroke_linejoin(self, linejoin: LineJoin) -> (r: Self)
        ensures
            r.styles() == self.styles().map_values(
                |m: StyleModel| apply_update(m, StyleUpdateModel::StrokeLinejoin(linejoin)),
            ),
            self.same_but_styles(&r),
    {
        let ghost pre: Seq<StyleModel> = self.styles();
        let r: Self = self.styled(&StyleUpdate::StrokeLinejoin(linejoin));
        proof {
            assert(r.styles() =~= pre.map_values(
                |m: StyleModel| apply_update(m, StyleUpdateModel::StrokeLinejoin(linejoin)),
            ));
        }
        r
    }

    fn with_radius(self, radius: Scalar) -> (r: Self)
        ensures
            r.styles() == self.styles().map_values(
                |m: StyleModel| apply_update(m, StyleUpdateModel::Radius(radius)),
            ),
            self.same_but_styles(&r),
    {
        let ghost pre: Seq<StyleModel> = self.styles();
        let r: Self = self.styled(&StyleUpdate::Radius(radius));
        proof {
            assert(r.styles() =~= pre.map_values(
                |m: StyleModel| apply_update(m, StyleUpdateModel::Radius(radius)),
            ));
        }
        r
    }
}

impl Stylable for Style {
    open spec fn styles(&self) -> Seq<StyleModel> {
        seq![self@]
    }

    open spec fn same_but_styles(&self, other: &Self) -> bool {
        true
    }

    fn styled(self, update: &StyleUpdate) -> (r: Self) {
        let r: Style = self.updated(update);
        proof {
            assert(r.styles() =~= self.styles().map_values(
                |m: StyleModel| apply_update(m, update@),
            ));
        }
        r
    }

    fn use_style(self, other: &Style) -> (r: Self) {
        let r: Style = other.clone();
        proof {
            assert(r.styles() =~= Seq::new(self.styles().len(), |i: int| other@));
        }
        r
    }

    fn or_style(self, other: &Style) -> (r: Self) {
        let r: Style = self.or_merged(other);
        proof {
            assert(r.styles() =~= self.styles().update(0, or_merge(self.styles()[0], other@)));
        }
        r
    }
}

} // verus!
