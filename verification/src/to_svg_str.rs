use vstd::prelude::*;

use crate::geometry::{
    rect_poly_model, tri_poly_model, Coord, Geometry, GeometryCollection, Line, LineString,
    MultiLineString, MultiPoint, MultiPolygon, Point, Polygon, PolygonModel, Rect, Triangle,
};
use crate::scalar::{attr_num_seq, coord_num_seq, sc_add_clip, sc_sub_clip, Scalar};
use crate::style::{eff_radius, stroke_or_default, style_seq, zero_radius, Style, StyleModel};
use crate::viewbox::{vb_empty, vb_union, ViewBox};

verus! {

/// The rendering capability: a shape can produce its markup fragment
/// and report its bounds contribution under a given style, and the two
/// exec results are pinned to the same mathematical functions of the
/// shape data, so the two passes cannot diverge.
pub trait ToSvgStr {
    /// The markup fragment this shape renders to.
    spec fn spec_svg_str(&self, style: StyleModel) -> Seq<char>;

    /// The bounds this shape contributes.
    spec fn spec_viewbox(&self, style: StyleModel) -> ViewBox;

    /// Render the markup fragment.
    fn to_svg_str(&self, style: &Style) -> (r: String)
        ensures
            r@ == self.spec_svg_str(style@),
    ;

    /// Compute the bounds contribution, without rendering.
    fn viewbox(&self, style: &Style) -> (r: ViewBox)
        ensures
            r == self.spec_viewbox(style@),
    ;
}

/// A coordinate pair as path data writes it: `x y`.
pub open spec fn coord_pair_seq(c: Coord) -> Seq<char> {
    coord_num_seq(c.x@) + " "@ + coord_num_seq(c.y@)
}

/// The circle element a point renders to.
pub open spec fn circle_seq(c: Coord, m: StyleModel) -> Seq<char> {
    "<circle cx=\""@ + coord_num_seq(c.x@) + "\" cy=\""@ + coord_num_seq(c.y@) + "\" r=\""@
        + attr_num_seq(eff_radius(m)@) + "\""@ + style_seq(m) + "/>"@
}

/// The path element a single segment renders to.
pub open spec fn line_seq(a: Coord, b: Coord, m: StyleModel) -> Seq<char> {
    "<path d=\"M "@ + coord_pair_seq(a) + " L "@ + coord_pair_seq(b) + "\""@ + style_seq(m)
        + "/>"@
}

/// A line string's markup: one path element per consecutive segment.
pub open spec fn lstring_seq(ps: Seq<Coord>, m: StyleModel) -> Seq<char>
    decreases ps.len(),
{
    if ps.len() < 2 {
        Seq::<char>::empty()
    } else {
        lstring_seq(ps.drop_last(), m) + line_seq(ps[ps.len() - 2], ps[ps.len() - 1], m)
    }
}

/// The bounds of a point: a square centered on it, inflated by the
/// effective radius plus the stroke width's bound default.
pub open spec fn point_box(c: Coord, m: StyleModel) -> ViewBox {
    let infl = sc_add_clip(eff_radius(m), stroke_or_default(m));
    ViewBox {
        min_x: Some(sc_sub_clip(c.x, infl)),
        min_y: Some(sc_sub_clip(c.y, infl)),
        max_x: Some(sc_add_clip(c.x, infl)),
        max_y: Some(sc_add_clip(c.y, infl)),
    }
}

/// The bounds of a segment: both endpoints' point bounds under a style
/// whose radius is forced to zero, so lines inflate only by stroke.
pub open spec fn line_box(a: Coord, b: Coord, m: StyleModel) -> ViewBox {
    vb_union(point_box(a, zero_radius(m)), point_box(b, zero_radius(m)))
}

/// The bounds of a line string: the union over its segments.
pub open spec fn lstring_box(ps: Seq<Coord>, m: StyleModel) -> ViewBox
    decreases ps.len(),
{
    if ps.len() < 2 {
        vb_empty()
    } else {
        vb_union(lstring_box(ps.drop_last(), m), line_box(ps[ps.len() - 2], ps[ps.len() - 1], m))
    }
}

/// A multi-point's markup: each member's circle, in order.
pub open spec fn multipoint_seq(pts: Seq<Point>, m: StyleModel) -> Seq<char>
    decreases pts.len(),
{
    if pts.len() == 0 {
        Seq::<char>::empty()
    } else {
        multipoint_seq(pts.drop_last(), m) + circle_seq(pts.last().0, m)
    }
}

/// A multi-point's bounds: the union over its members.
pub open spec fn multipoint_box(pts: Seq<Point>, m: StyleModel) -> ViewBox
    decreases pts.len(),
{
    if pts.len() == 0 {
        vb_empty()
    } else {
        vb_union(multipoint_box(pts.drop_last(), m), point_box(pts.last().0, m))
    }
}

/// Append a coordinate pair to path data.
fn push_coord_pair(out: &mut String, c: Coord)
    ensures
        final(out)@ == old(out)@ + coord_pair_seq(c),
{
    c.x.push_coord_num(out);
    out.append(" ");
    c.y.push_coord_num(out);
    proof {
        assert(final(out)@ =~= old(out)@ + coord_pair_seq(c));
    }
}

/// Append the circle element for a point.
fn push_circle(out: &mut String, c: Coord, style: &Style)
    ensures
        final(out)@ == old(out)@ + circle_seq(c, style@),
{
    let ghost base: Seq<char> = out@;
    out.append("<circle cx=\"");
    c.x.push_coord_num(out);
    out.append("\" cy=\"");
    c.y.push_coord_num(out);
    proof {
        assert(out@ =~= base + ("<circle cx=\""@ + coord_num_seq(c.x@) + "\" cy=\""@
            + coord_num_seq(c.y@)));
    }
    out.append("\" r=\"");
    let r: Scalar = style.effective_radius();
    r.push_attr_num(out);
    out.append("\"");
    proof {
        assert(out@ =~= base + ("<circle cx=\""@ + coord_num_seq(c.x@) + "\" cy=\""@
            + coord_num_seq(c.y@) + "\" r=\""@ + attr_num_seq(eff_radius(style@)@) + "\""@));
    }
    style.push_attrs(out);
    out.append("/>");
    proof {
        assert(final(out)@ =~= old(out)@ + circle_seq(c, style@));
    }
}

/// Append the path element for a single segment.
pub(crate) fn push_line_path(out: &mut String, a: Coord, b: Coord, style: &Style)
    ensures
        final(out)@ == old(out)@ + line_seq(a, b, style@),
{
    out.append("<path d=\"M ");
    push_coord_pair(out, a);
    out.append(" L ");
    push_coord_pair(out, b);
    out.append("\"");
    style.push_attrs(out);
    out.append("/>");
    proof {
        assert(final(out)@ =~= old(out)@ + line_seq(a, b, style@));
    }
}

/// The bounds contribution of one point.
fn point_viewbox(c: Coord, style: &Style) -> (r: ViewBox)
    ensures
        r == point_box(c, style@),
{
    let infl: Scalar = style.effective_radius().add(style.bound_stroke());
    ViewBox::new(c.x.sub(infl), c.y.sub(infl), c.x.add(infl), c.y.add(infl))
}

/// The bounds contribution of one segment: endpoint bounds with the
/// point radius forced to zero.
fn line_viewbox(a: Coord, b: Coord, style: &Style) -> (r: ViewBox)
    ensures
        r == line_box(a, b, style@),
{
    let mut zeroed: Style = style.clone();
    zeroed.radius = Some(Scalar::zero());
    proof {
        assert(zeroed@ == zero_radius(style@));
    }
    point_viewbox(a, &zeroed).and(&point_viewbox(b, &zeroed))
}

impl ToSvgStr for Coord {
    open spec fn spec_svg_str(&self, style: StyleModel) -> Seq<char> {
        circle_seq(*self, style)
    }

    open spec fn spec_viewbox(&self, style: StyleModel) -> ViewBox {
        point_box(*self, style)
    }

    fn to_svg_str(&self, style: &Style) -> (r: String) {
        let mut out: String = String::new();
        push_circle(&mut out, *self, style);
        proof {
            assert(out@ =~= circle_seq(*self, style@));
        }
        out
    }

    fn viewbox(&self, style: &Style) -> (r: ViewBox) {
        point_viewbox(*self, style)
    }
}

impl ToSvgStr for Point {
    open spec fn spec_svg_str(&self, style: StyleModel) -> Seq<char> {
        circle_seq(self.0, style)
    }

    open spec fn spec_viewbox(&self, style: StyleModel) -> ViewBox {
        point_box(self.0, style)
    }

    fn to_svg_str(&self, style: &Style) -> (r: String) {
        let mut out: String = String::new();
        push_circle(&mut out, self.0, style);
        proof {
            assert(out@ =~= circle_seq(self.0, style@));
        }
        out
    }

    fn viewbox(&self, style: &Style) -> (r: ViewBox) {
        point_viewbox(self.0, style)
    }
}

impl ToSvgStr for Line {
    open spec fn spec_svg_str(&self, style: StyleModel) -> Seq<char> {
        line_seq(self.start, self.end, style)
    }

    open spec fn spec_viewbox(&self, style: StyleModel) -> ViewBox {
        line_box(self.start, self.end, style)
    }

    fn to_svg_str(&self, style: &Style) -> (r: String) {
        let mut out: String = String::new();
        push_line_path(&mut out, self.start, self.end, style);
        proof {
            assert(out@ =~= line_seq(self.start, self.end, style@));
        }
        out
    }

    fn viewbox(&self, style: &Style) -> (r: ViewBox) {
        line_viewbox(self.start, self.end, style)
    }
}

impl ToSvgStr for LineString {
    open spec fn spec_svg_str(&self, style: StyleModel) -> Seq<char> {
        lstring_seq(self@, style)
    }

    open spec fn spec_viewbox(&self, style: StyleModel) -> ViewBox {
        lstring_box(self@, style)
    }

    fn to_svg_str(&self, style: &Style) -> (r: String) {
        let mut out: String = String::new();
        push_lstring(&mut out, self, style);
        proof {
            assert(out@ =~= lstring_seq(self@, style@));
        }
        out
    }

    fn viewbox(&self, style: &Style) -> (r: ViewBox) {
        lstring_viewbox(self, style)
    }
}

/// Append every segment path of a line string.
fn push_lstring(out: &mut String, ls: &LineString, style: &Style)
    ensures
        final(out)@ == old(out)@ + lstring_seq(ls@, style@),
{
    let ghost base: Seq<char> = out@;
    let mut i: usize = 1;
    if ls.0.len() < 2 {
        proof {
            assert(final(out)@ =~= old(out)@ + lstring_seq(ls@, style@));
        }
        return ;
    }
    while i < ls.0.len()
        invariant
            1 <= i <= ls.0.len(),
            ls.0.len() >= 2,
            out@ == base + lstring_seq(ls@.take(i as int), style@),
        decreases ls.0.len() - i,
    {
        push_line_path(out, ls.0[i - 1], ls.0[i], style);
        i = i + 1;
        proof {
            assert(ls@.take(i as int).drop_last() =~= ls@.take(i - 1 as int));
            assert(out@ =~= base + lstring_seq(ls@.take(i as int), style@));
        }
    }
    proof {
        assert(ls@.take(ls.0.len() as int) =~= ls@);
    }
}

/// The union of the segment bounds of a line string.
fn lstring_viewbox(ls: &LineString, style: &Style) -> (r: ViewBox)
    ensures
        r == lstring_box(ls@, style@),
{
    let mut acc: ViewBox = ViewBox::empty();
    if ls.0.len() < 2 {
        return acc;
    }
    let mut i: usize = 1;
    while i < ls.0.len()
        invariant
            1 <= i <= ls.0.len(),
            ls.0.len() >= 2,
            acc == lstring_box(ls@.take(i as int), style@),
        decreases ls.0.len() - i,
    {
        acc = acc.and(&line_viewbox(ls.0[i - 1], ls.0[i], style));
        i = i + 1;
        proof {
            assert(ls@.take(i as int).drop_last() =~= ls@.take(i - 1 as int));
        }
    }
    proof {
        assert(ls@.take(ls.0.len() as int) =~= ls@);
    }
    acc
}

impl ToSvgStr for MultiPoint {
    open spec fn spec_svg_str(&self, style: StyleModel) -> Seq<char> {
        multipoint_seq(self@, style)
    }

    open spec fn spec_viewbox(&self, style: StyleModel) -> ViewBox {
        multipoint_box(self@, style)
    }

    fn to_svg_str(&self, style: &Style) -> (r: String) {
        let mut out: String = String::new();
        let mut i: usize = 0;
        while i < self.0.len()
            invariant
                i <= self.0.len(),
                out@ == multipoint_seq(self@.take(i as int), style@),
            decreases self.0.len() - i,
        {
            push_circle(&mut out, self.0[i].0, style);
            i = i + 1;
            proof {
                assert(self@.take(i as int).drop_last() =~= self@.take(i - 1 as int));
                assert(out@ =~= multipoint_seq(self@.take(i as int), style@));
            }
        }
        proof {
            assert(self@.take(self.0.len() as int) =~= self@);
        }
        out
    }

    fn viewbox(&self, style: &Style) -> (r: ViewBox) {
        let mut acc: ViewBox = ViewBox::empty();
        let mut i: usize = 0;
        while i < self.0.len()
            invariant
                i <= self.0.len(),
                acc == multipoint_box(self@.take(i as int), style@),
            decreases self.0.len() - i,
        {
            acc = acc.and(&point_viewbox(self.0[i].0, style));
            i = i + 1;
            proof {
                assert(self@.take(i as int).drop_last() =~= self@.take(i - 1 as int));
            }
        }
        proof {
            assert(self@.take(self.0.len() as int) =~= self@);
        }
        acc
    }
}

/// Path data for the positions of one ring after the first: ` L x y`
/// for each.
pub open spec fn ring_tail_seq(q: Seq<Coord>) -> Seq<char>
    decreases q.len(),
{
    if q.len() == 0 {
        Seq::<char>::empty()
    } else {
        ring_tail_seq(q.drop_last()) + " L "@ + coord_pair_seq(q.last())
    }
}

/// Path data for one ring: a move to its first position, a line to each
/// further one, and a close; an empty ring leaves only the close.
pub open spec fn ring_seq(ps: Seq<Coord>) -> Seq<char> {
    if ps.len() == 0 {
        " Z "@
    } else {
        "M "@ + coord_pair_seq(ps[0]) + ring_tail_seq(ps.subrange(1, ps.len() as int)) + " Z "@
    }
}

/// Path data for several rings, in order.
pub open spec fn rings_seq(rings: Seq<Seq<Coord>>) -> Seq<char>
    decreases rings.len(),
{
    if rings.len() == 0 {
        Seq::<char>::empty()
    } else {
        rings_seq(rings.drop_last()) + ring_seq(rings.last())
    }
}

/// The single path element a polygon renders to: every ring's path
/// data under the even-odd fill rule, so holes subtract.
pub open spec fn polygon_seq(p: PolygonModel, m: StyleModel) -> Seq<char> {
    "<path fill-rule=\"evenodd\" d=\""@ + ring_seq(p.exterior) + rings_seq(p.interiors) + "\""@
        + style_seq(m) + "/>"@
}

/// The union of the segment bounds of several rings.
pub open spec fn rings_box(rings: Seq<Seq<Coord>>, m: StyleModel) -> ViewBox
    decreases rings.len(),
{
    if rings.len() == 0 {
        vb_empty()
    } else {
        vb_union(rings_box(rings.drop_last(), m), lstring_box(rings.last(), m))
    }
}

/// The bounds of a polygon: the union over every ring's segments,
/// closing edges included.
pub open spec fn polygon_box(p: PolygonModel, m: StyleModel) -> ViewBox {
    rings_box(seq![p.exterior] + p.interiors, m)
}

/// Append the path data of one ring.
fn push_ring(out: &mut String, ring: &LineString)
    ensures
        final(out)@ == old(out)@ + ring_seq(ring@),
{
    let ghost base: Seq<char> = out@;
    if ring.0.len() > 0 {
        out.append("M ");
        push_coord_pair(out, ring.0[0]);
        let mut i: usize = 1;
        while i < ring.0.len()
            invariant
                1 <= i <= ring.0.len(),
                out@ == base + "M "@ + coord_pair_seq(ring@[0]) + ring_tail_seq(
                    ring@.subrange(1, i as int),
                ),
            decreases ring.0.len() - i,
        {
            out.append(" L ");
            push_coord_pair(out, ring.0[i]);
            i = i + 1;
            proof {
                assert(ring@.subrange(1, i as int).drop_last() =~= ring@.subrange(
                    1,
                    i - 1 as int,
                ));
                assert(out@ =~= base + "M "@ + coord_pair_seq(ring@[0]) + ring_tail_seq(
                    ring@.subrange(1, i as int),
                ));
            }
        }
    }
    out.append(" Z ");
    proof {
        assert(final(out)@ =~= old(out)@ + ring_seq(ring@));
    }
}

/// Append the path element for a polygon.
#[verifier::rlimit(30)]
fn push_polygon(out: &mut String, p: &Polygon, style: &Style)
    ensures
        final(out)@ == old(out)@ + polygon_seq(p@, style@),
{
    let ghost base: Seq<char> = out@;
    out.append("<path fill-rule=\"evenodd\" d=\"");
    push_ring(out, p.exterior());
    proof {
        assert(out@ =~= base + ("<path fill-rule=\"evenodd\" d=\""@ + ring_seq(p@.exterior)));
    }
    let ghost head: Seq<char> = out@;
    let interiors: &Vec<LineString> = p.interiors();
    let mut i: usize = 0;
    while i < interiors.len()
        invariant
            i <= interiors.len(),
            interiors@.len() == p@.interiors.len(),
            forall|j: int| 0 <= j < interiors@.len() ==> #[trigger] interiors@[j]@
                == p@.interiors[j],
            out@ == head + rings_seq(p@.interiors.take(i as int)),
        decreases interiors.len() - i,
    {
        push_ring(out, &interiors[i]);
        i = i + 1;
        proof {
            assert(p@.interiors.take(i as int).drop_last() =~= p@.interiors.take(i - 1 as int));
            assert(out@ =~= head + rings_seq(p@.interiors.take(i as int)));
        }
    }
    proof {
        assert(p@.interiors.take(interiors@.len() as int) =~= p@.interiors);
        assert(out@ =~= base + ("<path fill-rule=\"evenodd\" d=\""@ + ring_seq(p@.exterior)
            + rings_seq(p@.interiors)));
    }
    out.append("\"");
    proof {
        assert(out@ =~= base + ("<path fill-rule=\"evenodd\" d=\""@ + ring_seq(p@.exterior)
            + rings_seq(p@.interiors) + "\""@));
    }
    style.push_attrs(out);
    out.append("/>");
    proof {
        assert(final(out)@ =~= old(out)@ + polygon_seq(p@, style@));
    }
}

/// The union of the ring bounds of a polygon.
fn polygon_viewbox(p: &Polygon, style: &Style) -> (r: ViewBox)
    ensures
        r == polygon_box(p@, style@),
{
    let mut acc: ViewBox = ViewBox::empty();
    acc = acc.and(&lstring_viewbox(p.exterior(), style));
    proof {
        assert(seq![p@.exterior].drop_last() =~= Seq::<Seq<Coord>>::empty());
        assert(seq![p@.exterior].last() == p@.exterior);
        assert(rings_box(seq![p@.exterior], style@) == vb_union(
            rings_box(Seq::<Seq<Coord>>::empty(), style@),
            lstring_box(p@.exterior, style@),
        ));
        assert(acc == rings_box(seq![p@.exterior], style@));
        assert(seq![p@.exterior] + p@.interiors.take(0) =~= seq![p@.exterior]);
    }
    let interiors: &Vec<LineString> = p.interiors();
    let mut i: usize = 0;
    while i < interiors.len()
        invariant
            i <= interiors.len(),
            interiors@.len() == p@.interiors.len(),
            forall|j: int| 0 <= j < interiors@.len() ==> #[trigger] interiors@[j]@
                == p@.interiors[j],
            acc == rings_box(seq![p@.exterior] + p@.interiors.take(i as int), style@),
        decreases interiors.len() - i,
    {
        acc = acc.and(&lstring_viewbox(&interiors[i], style));
        i = i + 1;
        proof {
            let ghost pre: Seq<Seq<Coord>> = seq![p@.exterior] + p@.interiors.take(i - 1 as int);
            let ghost cur: Seq<Seq<Coord>> = seq![p@.exterior] + p@.interiors.take(i as int);
            assert(cur.drop_last() =~= pre);
            assert(cur.last() == p@.interiors[i - 1 as int]);
        }
    }
    proof {
        assert(seq![p@.exterior] + p@.interiors.take(interiors@.len() as int) =~= seq![
            p@.exterior,
        ] + p@.interiors);
    }
    acc
}

impl ToSvgStr for Polygon {
    open spec fn spec_svg_str(&self, style: StyleModel) -> Seq<char> {
        polygon_seq(self@, style)
    }

    open spec fn spec_viewbox(&self, style: StyleModel) -> ViewBox {
        polygon_box(self@, style)
    }

    fn to_svg_str(&self, style: &Style) -> (r: String) {
        let mut out: String = String::new();
        push_polygon(&mut out, self, style);
        proof {
            assert(out@ =~= polygon_seq(self@, style@));
        }
        out
    }

    fn viewbox(&self, style: &Style) -> (r: ViewBox) {
        polygon_viewbox(self, style)
    }
}

impl ToSvgStr for Rect {
    open spec fn spec_svg_str(&self, style: StyleModel) -> Seq<char> {
        polygon_seq(rect_poly_model(*self), style)
    }

    open spec fn spec_viewbox(&self, style: StyleModel) -> ViewBox {
        polygon_box(rect_poly_model(*self), style)
    }

    fn to_svg_str(&self, style: &Style) -> (r: String) {
        let p: Polygon = self.to_polygon();
        p.to_svg_str(style)
    }

    fn viewbox(&self, style: &Style) -> (r: ViewBox) {
        let p: Polygon = self.to_polygon();
        p.viewbox(style)
    }
}

impl ToSvgStr for Triangle {
    open spec fn spec_svg_str(&self, style: StyleModel) -> Seq<char> {
        polygon_seq(tri_poly_model(*self), style)
    }

    open spec fn spec_viewbox(&self, style: StyleModel) -> ViewBox {
        polygon_box(tri_poly_model(*self), style)
    }

    fn to_svg_str(&self, style: &Style) -> (r: String) {
        let p: Polygon = self.to_polygon();
        p.to_svg_str(style)
    }

    fn viewbox(&self, style: &Style) -> (r: ViewBox) {
        let p: Polygon = self.to_polygon();
        p.viewbox(style)
    }
}

/// A multi-line-string's markup: each member's segments, in order.
pub open spec fn mlstring_seq(ss: Seq<Seq<Coord>>, m: StyleModel) -> Seq<char>
    decreases ss.len(),
{
    if ss.len() == 0 {
        Seq::<char>::empty()
    } else {
        mlstring_seq(ss.drop_last(), m) + lstring_seq(ss.last(), m)
    }
}

/// A multi-line-string's bounds: the union over its members.
pub open spec fn mlstring_box(ss: Seq<Seq<Coord>>, m: StyleModel) -> ViewBox
    decreases ss.len(),
{
    if ss.len() == 0 {
        vb_empty()
    } else {
        vb_union(mlstring_box(ss.drop_last(), m), lstring_box(ss.last(), m))
    }
}

impl ToSvgStr for MultiLineString {
    open spec fn spec_svg_str(&self, style: StyleModel) -> Seq<char> {
        mlstring_seq(self@, style)
    }

    open spec fn spec_viewbox(&self, style: StyleModel) -> ViewBox {
        mlstring_box(self@, style)
    }

    fn to_svg_str(&self, style: &Style) -> (r: String) {
        let mut out: String = String::new();
        let mut i: usize = 0;
        while i < self.0.len()
            invariant
                i <= self.0.len(),
                out@ == mlstring_seq(self@.take(i as int), style@),
            decreases self.0.len() - i,
        {
            push_lstring(&mut out, &self.0[i], style);
            i = i + 1;
            proof {
                assert(self@.take(i as int).drop_last() =~= self@.take(i - 1 as int));
                assert(self@.take(i as int).last() == self.0@[i - 1 as int]@);
                assert(out@ =~= mlstring_seq(self@.take(i as int), style@));
            }
        }
        proof {
            assert(self@.take(self.0.len() as int) =~= self@);
        }
        out
    }

    fn viewbox(&self, style: &Style) -> (r: ViewBox) {
        let mut acc: ViewBox = ViewBox::empty();
        let mut i: usize = 0;
        while i < self.0.len()
            invariant
                i <= self.0.len(),
                acc == mlstring_box(self@.take(i as int), style@),
            decreases self.0.len() - i,
        {
            acc = acc.and(&lstring_viewbox(&self.0[i], style));
            i = i + 1;
            proof {
                assert(self@.take(i as int).drop_last() =~= self@.take(i - 1 as int));
                assert(self@.take(i as int).last() == self.0@[i - 1 as int]@);
            }
        }
        proof {
            assert(self@.take(self.0.len() as int) =~= self@);
        }
        acc
    }
}

/// A multi-polygon's markup: each member's path element, in order.
pub open spec fn mpolygon_seq(ps: Seq<PolygonModel>, m: StyleModel) -> Seq<char>
    decreases ps.len(),
{
    if ps.len() == 0 {
        Seq::<char>::empty()
    } else {
        mpolygon_seq(ps.drop_last(), m) + polygon_seq(ps.last(), m)
    }
}

/// A multi-polygon's bounds: the union over its members.
pub open spec fn mpolygon_box(ps: Seq<PolygonModel>, m: StyleModel) -> ViewBox
    decreases ps.len(),
{
    if ps.len() == 0 {
        vb_empty()
    } else {
        vb_union(mpolygon_box(ps.drop_last(), m), polygon_box(ps.last(), m))
    }
}

impl ToSvgStr for MultiPolygon {
    open spec fn spec_svg_str(&self, style: StyleModel) -> Seq<char> {
        mpolygon_seq(self@, style)
    }

    open spec fn spec_viewbox(&self, style: StyleModel) -> ViewBox {
        mpolygon_box(self@, style)
    }

    fn to_svg_str(&self, style: &Style) -> (r: String) {
        let mut out: String = String::new();
        let mut i: usize = 0;
        while i < self.0.len()
            invariant
                i <= self.0.len(),
                out@ == mpolygon_seq(self@.take(i as int), style@),
            decreases self.0.len() - i,
        {
            push_polygon(&mut out, &self.0[i], style);
            i = i + 1;
            proof {
                assert(self@.take(i as int).drop_last() =~= self@.take(i - 1 as int));
                assert(self@.take(i as int).last() == self.0@[i - 1 as int]@);
                assert(out@ =~= mpolygon_seq(self@.take(i as int), style@));
            }
        }
        proof {
            assert(self@.take(self.0.len() as int) =~= self@);
        }
        out
    }

    fn viewbox(&self, style: &Style) -> (r: ViewBox) {
        let mut acc: ViewBox = ViewBox::empty();
        let mut i: usize = 0;
        while i < self.0.len()
            invariant
                i <= self.0.len(),
                acc == mpolygon_box(self@.take(i as int), style@),
            decreases self.0.len() - i,
        {
            acc = acc.and(&polygon_viewbox(&self.0[i], style));
            i = i + 1;
            proof {
                assert(self@.take(i as int).drop_last() =~= self@.take(i - 1 as int));
                assert(self@.take(i as int).last() == self.0@[i - 1 as int]@);
            }
        }
        proof {
            assert(self@.take(self.0.len() as int) =~= self@);
        }
        acc
    }
}

/// Any shape's markup, by its variant's rule.
pub open spec fn geometry_seq(g: Geometry, m: StyleModel) -> Seq<char>
    decreases g,
{
    match g {
        Geometry::Point(p) => circle_seq(p.0, m),
        Geometry::Line(l) => line_seq(l.start, l.end, m),
        Geometry::LineString(ls) => lstring_seq(ls@, m),
        Geometry::Polygon(p) => polygon_seq(p@, m),
        Geometry::MultiPoint(mp) => multipoint_seq(mp@, m),
        Geometry::MultiLineString(mls) => mlstring_seq(mls@, m),
        Geometry::MultiPolygon(mp) => mpolygon_seq(mp@, m),
        Geometry::GeometryCollection(gc) => collection_seq(gc.0@, m),
        Geometry::Rect(r) => polygon_seq(rect_poly_model(r), m),
        Geometry::Triangle(t) => polygon_seq(tri_poly_model(t), m),
    }
}

/// A mixed collection's markup: each member's markup, in order.
pub open spec fn collection_seq(gs: Seq<Geometry>, m: StyleModel) -> Seq<char>
    decreases gs,
{
    if gs.len() == 0 {
        Seq::<char>::empty()
    } else {
        collection_seq(gs.drop_last(), m) + geometry_seq(gs.last(), m)
    }
}

/// Any shape's bounds, by its variant's rule.
pub open spec fn geometry_box(g: Geometry, m: StyleModel) -> ViewBox
    decreases g,
{
    match g {
        Geometry::Point(p) => point_box(p.0, m),
        Geometry::Line(l) => line_box(l.start, l.end, m),
        Geometry::LineString(ls) => lstring_box(ls@, m),
        Geometry::Polygon(p) => polygon_box(p@, m),
        Geometry::MultiPoint(mp) => multipoint_box(mp@, m),
        Geometry::MultiLineString(mls) => mlstring_box(mls@, m),
        Geometry::MultiPolygon(mp) => mpolygon_box(mp@, m),
        Geometry::GeometryCollection(gc) => collection_box(gc.0@, m),
        Geometry::Rect(r) => polygon_box(rect_poly_model(r), m),
        Geometry::Triangle(t) => polygon_box(tri_poly_model(t), m),
    }
}

/// A mixed collection's bounds: the union over its members.
pub open spec fn collection_box(gs: Seq<Geometry>, m: StyleModel) -> ViewBox
    decreases gs,
{
    if gs.len() == 0 {
        vb_empty()
    } else {
        vb_union(collection_box(gs.drop_last(), m), geometry_box(gs.last(), m))
    }
}

/// Render any shape's markup.
fn geometry_svg_string(g: &Geometry, style: &Style) -> (r: String)
    ensures
        r@ == geometry_seq(*g, style@),
    decreases *g,
{
    match g {
        Geometry::Point(p) => p.to_svg_str(style),
        Geometry::Line(l) => l.to_svg_str(style),
        Geometry::LineString(ls) => ls.to_svg_str(style),
        Geometry::Polygon(p) => p.to_svg_str(style),
        Geometry::MultiPoint(mp) => mp.to_svg_str(style),
        Geometry::MultiLineString(mls) => mls.to_svg_str(style),
        Geometry::MultiPolygon(mp) => mp.to_svg_str(style),
        Geometry::GeometryCollection(gc) => collection_svg_string(gc, style),
        Geometry::Rect(r) => r.to_svg_str(style),
        Geometry::Triangle(t) => t.to_svg_str(style),
    }
}

/// Render a mixed collection's markup.
fn collection_svg_string(gc: &GeometryCollection, style: &Style) -> (r: String)
    ensures
        r@ == collection_seq(gc.0@, style@),
    decreases *gc,
{
    let mut out: String = String::new();
    let mut i: usize = 0;
    while i < gc.0.len()
        invariant
            i <= gc.0.len(),
            out@ == collection_seq(gc.0@.take(i as int), style@),
        decreases gc.0.len() - i,
    {
        proof {
            assert(decreases_to!(*gc => gc.0));
            assert(decreases_to!(gc.0 => gc.0@));
            assert(decreases_to!(gc.0@ => gc.0@[i as int]));
        }
        let piece: String = geometry_svg_string(&gc.0[i], style);
        out.append(piece.as_str());
        i = i + 1;
        proof {
            assert(gc.0@.take(i as int).drop_last() =~= gc.0@.take(i - 1 as int));
            assert(out@ =~= collection_seq(gc.0@.take(i as int), style@));
        }
    }
    proof {
        assert(gc.0@.take(gc.0.len() as int) =~= gc.0@);
    }
    out
}

/// Compute any shape's bounds.
fn geometry_viewbox(g: &Geometry, style: &Style) -> (r: ViewBox)
    ensures
        r == geometry_box(*g, style@),
    decreases *g,
{
    match g {
        Geometry::Point(p) => p.viewbox(style),
        Geometry::Line(l) => l.viewbox(style),
        Geometry::LineString(ls) => ls.viewbox(style),
        Geometry::Polygon(p) => p.viewbox(style),
        Geometry::MultiPoint(mp) => mp.viewbox(style),
        Geometry::MultiLineString(mls) => mls.viewbox(style),
        Geometry::MultiPolygon(mp) => mp.viewbox(style),
        Geometry::GeometryCollection(gc) => collection_viewbox(gc, style),
        Geometry::Rect(r) => r.viewbox(style),
        Geometry::Triangle(t) => t.viewbox(style),
    }
}

/// Compute a mixed collection's bounds.
fn collection_viewbox(gc: &GeometryCollection, style: &Style) -> (r: ViewBox)
    ensures
        r == collection_box(gc.0@, style@),
    decreases *gc,
{
    let mut acc: ViewBox = ViewBox::empty();
    let mut i: usize = 0;
    while i < gc.0.len()
        invariant
            i <= gc.0.len(),
            acc == collection_box(gc.0@.take(i as int), style@),
        decreases gc.0.len() - i,
    {
        proof {
            assert(decreases_to!(*gc => gc.0));
            assert(decreases_to!(gc.0 => gc.0@));
            assert(decreases_to!(gc.0@ => gc.0@[i as int]));
        }
        acc = acc.and(&geometry_viewbox(&gc.0[i], style));
        i = i + 1;
        proof {
            assert(gc.0@.take(i as int).drop_last() =~= gc.0@.take(i - 1 as int));
        }
    }
    proof {
        assert(gc.0@.take(gc.0.len() as int) =~= gc.0@);
    }
    acc
}

impl ToSvgStr for Geometry {
    open spec fn spec_svg_str(&self, style: StyleModel) -> Seq<char> {
        geometry_seq(*self, style)
    }

    open spec fn spec_viewbox(&self, style: StyleModel) -> ViewBox {
        geometry_box(*self, style)
    }

    fn to_svg_str(&self, style: &Style) -> (r: String) {
        geometry_svg_string(self, style)
    }

    fn viewbox(&self, style: &Style) -> (r: ViewBox) {
        geometry_viewbox(self, style)
    }
}

impl ToSvgStr for GeometryCollection {
    open spec fn spec_svg_str(&self, style: StyleModel) -> Seq<char> {
        collection_seq(self.0@, style)
    }

    open spec fn spec_viewbox(&self, style: StyleModel) -> ViewBox {
        collection_box(self.0@, style)
    }

    fn to_svg_str(&self, style: &Style) -> (r: String) {
        collection_svg_string(self, style)
    }

    fn viewbox(&self, style: &Style) -> (r: ViewBox) {
        collection_viewbox(self, style)
    }
}

/// The concatenated markup of a run of shapes.
pub open spec fn items_seq<T: ToSvgStr>(items: Seq<T>, m: StyleModel) -> Seq<char>
    decreases items.len(),
{
    if items.len() == 0 {
        Seq::<char>::empty()
    } else {
        items_seq(items.drop_last(), m) + items.last().spec_svg_str(m)
    }
}

/// The union of the bounds of a run of shapes.
pub open spec fn items_box<T: ToSvgStr>(items: Seq<T>, m: StyleModel) -> ViewBox
    decreases items.len(),
{
    if items.len() == 0 {
        vb_empty()
    } else {
        vb_union(items_box(items.drop_last(), m), items.last().spec_viewbox(m))
    }
}

impl<T: ToSvgStr> ToSvgStr for Vec<T> {
    open spec fn spec_svg_str(&self, style: StyleModel) -> Seq<char> {
        items_seq(self@, style)
    }

    open spec fn spec_viewbox(&self, style: StyleModel) -> ViewBox {
        items_box(self@, style)
    }

    fn to_svg_str(&self, style: &Style) -> (r: String) {
        let mut out: String = String::new();
        let mut i: usize = 0;
        while i < self.len()
            invariant
                i <= self.len(),
                out@ == items_seq(self@.take(i as int), style@),
            decreases self.len() - i,
        {
            let piece: String = self[i].to_svg_str(style);
            out.append(piece.as_str());
            i = i + 1;
            proof {
                assert(self@.take(i as int).drop_last() =~= self@.take(i - 1 as int));
                assert(out@ =~= items_seq(self@.take(i as int), style@));
            }
        }
        proof {
            assert(self@.take(self.len() as int) =~= self@);
        }
        out
    }

    fn viewbox(&self, style: &Style) -> (r: ViewBox) {
        let mut acc: ViewBox = ViewBox::empty();
        let mut i: usize = 0;
        while i < self.len()
            invariant
                i <= self.len(),
                acc == items_box(self@.take(i as int), style@),
            decreases self.len() - i,
        {
            acc = acc.and(&self[i].viewbox(style));
            i = i + 1;
            proof {
                assert(self@.take(i as int).drop_last() =~= self@.take(i - 1 as int));
            }
        }
        proof {
            assert(self@.take(self.len() as int) =~= self@);
        }
        acc
    }
}

} // verus!
