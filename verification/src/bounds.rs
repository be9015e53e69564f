use vstd::prelude::*;

use crate::geometry::{
    rect_poly_model, tri_poly_model, Coord, Geometry, PolygonModel,
};
use crate::style::{zero_radius, StyleModel};
use crate::to_svg_str::{
    collection_box, geometry_box, line_box, lstring_box, mlstring_box, mpolygon_box,
    multipoint_box, point_box, polygon_box, rings_box,
};
use crate::viewbox::{
    lemma_union_associative, lemma_union_commutative, lemma_union_empty, lemma_union_idempotent,
    vb_empty, vb_union, ViewBox,
};

verus! {

// The bounds pass and the render pass walk the same shape data, and
// this module pins the bounds pass to the coordinates the markup
// carries: a shape's viewbox is exactly the union of one box per
// rendered coordinate, where a circle center inflates by the effective
// radius plus the stroke default and a path coordinate by the stroke
// default alone.  The one divergence is a polygon ring of exactly one
// position, which draws its coordinate yet spans no segment and so adds
// no bounds; the law excludes such rings.

/// One coordinate as the markup carries it: a circle center when
/// `pointlike`, else a path coordinate.
pub struct Mark {
    pub at: Coord,
    pub pointlike: bool,
}

/// The bounds one rendered coordinate accounts for.
pub open spec fn mark_box(mk: Mark, m: StyleModel) -> ViewBox {
    if mk.pointlike {
        point_box(mk.at, m)
    } else {
        point_box(mk.at, zero_radius(m))
    }
}

/// The union of the boxes of a run of rendered coordinates.
pub open spec fn marks_box(ms: Seq<Mark>, m: StyleModel) -> ViewBox
    decreases ms.len(),
{
    if ms.len() == 0 {
        vb_empty()
    } else {
        vb_union(marks_box(ms.drop_last(), m), mark_box(ms.last(), m))
    }
}

/// The coordinates a line string's markup carries: every position, as
/// path coordinates, or none at all when no segment exists.
pub open spec fn lstring_marks(ps: Seq<Coord>) -> Seq<Mark> {
    if ps.len() < 2 {
        Seq::<Mark>::empty()
    } else {
        ps.map_values(|c: Coord| Mark { at: c, pointlike: false })
    }
}

/// The coordinates a ring's path data carries: every position.
pub open spec fn ring_marks(ps: Seq<Coord>) -> Seq<Mark> {
    ps.map_values(|c: Coord| Mark { at: c, pointlike: false })
}

/// The coordinates several rings carry, in order.
pub open spec fn rings_marks(rings: Seq<Seq<Coord>>) -> Seq<Mark>
    decreases rings.len(),
{
    if rings.len() == 0 {
        Seq::<Mark>::empty()
    } else {
        rings_marks(rings.drop_last()) + ring_marks(rings.last())
    }
}

/// The coordinates a polygon's markup carries.
pub open spec fn polygon_marks(p: PolygonModel) -> Seq<Mark> {
    rings_marks(seq![p.exterior] + p.interiors)
}

/// The coordinates a run of line strings carries.
pub open spec fn mlstring_marks(ss: Seq<Seq<Coord>>) -> Seq<Mark>
    decreases ss.len(),
{
    if ss.len() == 0 {
        Seq::<Mark>::empty()
    } else {
        mlstring_marks(ss.drop_last()) + lstring_marks(ss.last())
    }
}

/// The coordinates a run of polygons carries.
pub open spec fn mpolygon_marks(ps: Seq<PolygonModel>) -> Seq<Mark>
    decreases ps.len(),
{
    if ps.len() == 0 {
        Seq::<Mark>::empty()
    } else {
        mpolygon_marks(ps.drop_last()) + polygon_marks(ps.last())
    }
}

/// The coordinates any shape's markup carries, in rendering order.
pub open spec fn geometry_marks(g: Geometry) -> Seq<Mark>
    decreases g,
{
    match g {
        Geometry::Point(p) => seq![Mark { at: p.0, pointlike: true }],
        Geometry::Line(l) => seq![
            Mark { at: l.start, pointlike: false },
            Mark { at: l.end, pointlike: false },
        ],
        Geometry::LineString(ls) => lstring_marks(ls@),
        Geometry::Polygon(p) => polygon_marks(p@),
        Geometry::MultiPoint(mp) => mp@.map_values(|p: crate::geometry::Point| Mark {
            at: p.0,
            pointlike: true,
        }),
        Geometry::MultiLineString(mls) => mlstring_marks(mls@),
        Geometry::MultiPolygon(mp) => mpolygon_marks(mp@),
        Geometry::GeometryCollection(gc) => collection_marks(gc.0@),
        Geometry::Rect(r) => polygon_marks(rect_poly_model(r)),
        Geometry::Triangle(t) => polygon_marks(tri_poly_model(t)),
    }
}

/// The coordinates a mixed collection's markup carries, in order.
pub open spec fn collection_marks(gs: Seq<Geometry>) -> Seq<Mark>
    decreases gs,
{
    if gs.len() == 0 {
        Seq::<Mark>::empty()
    } else {
        collection_marks(gs.drop_last()) + geometry_marks(gs.last())
    }
}

/// No ring of this polygon consists of exactly one position.
pub open spec fn polygon_rings_ok(p: PolygonModel) -> bool {
    &&& p.exterior.len() != 1
    &&& forall|i: int| 0 <= i < p.interiors.len() ==> (#[trigger] p.interiors[i]).len() != 1
}

/// No polygon ring anywhere in this shape consists of exactly one
/// position.
pub open spec fn rings_ok(g: Geometry) -> bool
    decreases g,
{
    match g {
        Geometry::Polygon(p) => polygon_rings_ok(p@),
        Geometry::MultiPolygon(mp) => forall|i: int|
            0 <= i < mp@.len() ==> polygon_rings_ok(#[trigger] mp@[i]),
        Geometry::GeometryCollection(gc) => forall|i: int|
            0 <= i < gc.0@.len() ==> rings_ok(#[trigger] gc.0@[i]),
        _ => true,
    }
}

/// Splitting a run of coordinates splits the union of their boxes.
proof fn lemma_marks_box_concat(a: Seq<Mark>, b: Seq<Mark>, m: StyleModel)
    ensures
        marks_box(a + b, m) == vb_union(marks_box(a, m), marks_box(b, m)),
    decreases b.len(),
{
    if b.len() == 0 {
        assert(a + b =~= a);
        lemma_union_empty(marks_box(a, m));
    } else {
        assert((a + b).drop_last() =~= a + b.drop_last());
        assert((a + b).last() == b.last());
        lemma_marks_box_concat(a, b.drop_last(), m);
        lemma_union_associative(marks_box(a, m), marks_box(b.drop_last(), m), mark_box(b.last(), m));
    }
}

/// A coordinate already merged in adds nothing when merged in again.
proof fn lemma_marks_box_absorbs(ms: Seq<Mark>, m: StyleModel, i: int)
    requires
        0 <= i < ms.len(),
    ensures
        vb_union(marks_box(ms, m), mark_box(ms[i], m)) == marks_box(ms, m),
    decreases ms.len(),
{
    let front: Seq<Mark> = ms.drop_last();
    let fb: ViewBox = marks_box(front, m);
    let lb: ViewBox = mark_box(ms.last(), m);
    if i == ms.len() - 1 {
        lemma_union_associative(fb, lb, lb);
        lemma_union_idempotent(lb);
    } else {
        let ib: ViewBox = mark_box(ms[i], m);
        assert(front[i] == ms[i]);
        lemma_marks_box_absorbs(front, m, i);
        lemma_union_associative(fb, lb, ib);
        lemma_union_commutative(lb, ib);
        lemma_union_associative(fb, ib, lb);
    }
}

/// A line string's bounds are the union of the boxes of the
/// coordinates its markup carries.
proof fn lemma_lstring_box_matches(ps: Seq<Coord>, m: StyleModel)
    ensures
        lstring_box(ps, m) == marks_box(lstring_marks(ps), m),
    decreases ps.len(),
{
    if ps.len() < 2 {
    } else {
        let ms: Seq<Mark> = lstring_marks(ps);
        let n: int = ps.len() as int;
        let pa: ViewBox = mark_box(ms[n - 2], m);
        let pb: ViewBox = mark_box(ms[n - 1], m);
        assert(line_box(ps[n - 2], ps[n - 1], m) == vb_union(pa, pb));
        if ps.len() == 2 {
            assert(ms[0] == (Mark { at: ps[0], pointlike: false }));
            assert(ms[1] == (Mark { at: ps[1], pointlike: false }));
            assert(ms.drop_last() =~= seq![ms[0]]);
            assert(ms.drop_last().drop_last() =~= Seq::<Mark>::empty());
            lemma_union_empty(pa);
            lemma_union_empty(vb_union(pa, pb));
            assert(marks_box(Seq::<Mark>::empty(), m) == vb_empty());
            assert(marks_box(ms.drop_last(), m) == vb_union(vb_empty(), pa));
            assert(marks_box(ms, m) == vb_union(vb_union(vb_empty(), pa), pb));
            assert(ps.drop_last() =~= seq![ps[0]]);
            assert(lstring_box(ps.drop_last(), m) == vb_empty());
            assert(lstring_box(ps, m) == vb_union(vb_empty(), vb_union(pa, pb)));
            lemma_union_associative(vb_empty(), pa, pb);
        } else {
            lemma_lstring_box_matches(ps.drop_last(), m);
            let msd: Seq<Mark> = lstring_marks(ps.drop_last());
            assert(msd =~= ms.drop_last());
            assert(msd[n - 2] == ms[n - 2]);
            lemma_marks_box_absorbs(msd, m, n - 2);
            lemma_union_associative(marks_box(msd, m), pa, pb);
            assert(lstring_box(ps, m) == vb_union(marks_box(msd, m), vb_union(pa, pb)));
            assert(vb_union(vb_union(marks_box(msd, m), pa), pb) == vb_union(marks_box(msd, m), pb));
            assert(marks_box(ms, m) == vb_union(marks_box(msd, m), pb));
        }
    }
}

/// A ring's bounds are the union of the boxes of the coordinates its
/// path data carries, provided it is not a single position.
proof fn lemma_ring_box_matches(ps: Seq<Coord>, m: StyleModel)
    requires
        ps.len() != 1,
    ensures
        lstring_box(ps, m) == marks_box(ring_marks(ps), m),
{
    assert(ring_marks(ps) =~= lstring_marks(ps));
    lemma_lstring_box_matches(ps, m);
}

/// Several rings' bounds are the union over the coordinates they carry.
proof fn lemma_rings_box_matches(rings: Seq<Seq<Coord>>, m: StyleModel)
    requires
        forall|i: int| 0 <= i < rings.len() ==> (#[trigger] rings[i]).len() != 1,
    ensures
        rings_box(rings, m) == marks_box(rings_marks(rings), m),
    decreases rings.len(),
{
    if rings.len() == 0 {
    } else {
        lemma_rings_box_matches(rings.drop_last(), m);
        lemma_ring_box_matches(rings.last(), m);
        lemma_marks_box_concat(rings_marks(rings.drop_last()), ring_marks(rings.last()), m);
    }
}

/// A polygon's bounds are the union over the coordinates it renders.
proof fn lemma_polygon_box_matches(p: PolygonModel, m: StyleModel)
    requires
        polygon_rings_ok(p),
    ensures
        polygon_box(p, m) == marks_box(polygon_marks(p), m),
{
    let rings: Seq<Seq<Coord>> = seq![p.exterior] + p.interiors;
    assert(forall|i: int| 0 <= i < rings.len() ==> (#[trigger] rings[i]).len() != 1) by {
        assert(rings[0] == p.exterior);
        assert(forall|i: int| 1 <= i < rings.len() ==> #[trigger] rings[i] == p.interiors[i - 1]);
    }
    lemma_rings_box_matches(rings, m);
}

/// A rectangle's rings are closed four-corner rings, never singletons.
proof fn lemma_rect_rings_ok(r: crate::geometry::Rect)
    ensures
        polygon_rings_ok(rect_poly_model(r)),
{
}

/// A triangle's rings are closed three-corner rings, never singletons.
proof fn lemma_tri_rings_ok(t: crate::geometry::Triangle)
    ensures
        polygon_rings_ok(tri_poly_model(t)),
{
}

/// The bounds of any shape whose polygon rings are not single
/// positions equal the union of one box per coordinate that its markup
/// carries: the bounds pass and the render pass never diverge.
pub proof fn lemma_bounds_match_rendered_marks(g: Geometry, m: StyleModel)
    requires
        rings_ok(g),
    ensures
        geometry_box(g, m) == marks_box(geometry_marks(g), m),
    decreases g,
{
    match g {
        Geometry::Point(p) => {
            let ms: Seq<Mark> = geometry_marks(g);
            assert(ms.drop_last() =~= Seq::<Mark>::empty());
            assert(marks_box(Seq::<Mark>::empty(), m) == vb_empty());
            lemma_union_empty(mark_box(ms.last(), m));
        },
        Geometry::Line(l) => {
            let ms: Seq<Mark> = geometry_marks(g);
            assert(ms.drop_last() =~= seq![ms[0]]);
            assert(ms.drop_last().drop_last() =~= Seq::<Mark>::empty());
            let pa: ViewBox = mark_box(ms[0], m);
            let pb: ViewBox = mark_box(ms[1], m);
            lemma_union_empty(pa);
            lemma_union_associative(vb_empty(), pa, pb);
            assert(marks_box(Seq::<Mark>::empty(), m) == vb_empty());
            assert(marks_box(ms.drop_last(), m) == vb_union(vb_empty(), pa));
            assert(marks_box(ms, m) == vb_union(vb_union(vb_empty(), pa), pb));
            assert(geometry_box(g, m) == vb_union(pa, pb));
        },
        Geometry::LineString(ls) => {
            lemma_lstring_box_matches(ls@, m);
        },
        Geometry::Polygon(p) => {
            lemma_polygon_box_matches(p@, m);
        },
        Geometry::MultiPoint(mp) => {
            lemma_multipoint_box_matches(mp@, m);
        },
        Geometry::MultiLineString(mls) => {
            lemma_mlstring_box_matches(mls@, m);
        },
        Geometry::MultiPolygon(mp) => {
            lemma_mpolygon_box_matches(mp@, m);
        },
        Geometry::GeometryCollection(gc) => {
            lemma_collection_box_matches(gc.0@, m);
        },
        Geometry::Rect(r) => {
            lemma_rect_rings_ok(r);
            lemma_polygon_box_matches(rect_poly_model(r), m);
        },
        Geometry::Triangle(t) => {
            lemma_tri_rings_ok(t);
            lemma_polygon_box_matches(tri_poly_model(t), m);
        },
    }
}

proof fn lemma_multipoint_box_matches(pts: Seq<crate::geometry::Point>, m: StyleModel)
    ensures
        multipoint_box(pts, m) == marks_box(
            pts.map_values(|p: crate::geometry::Point| Mark { at: p.0, pointlike: true }),
            m,
        ),
    decreases pts.len(),
{
    let ms: Seq<Mark> = pts.map_values(
        |p: crate::geometry::Point| Mark { at: p.0, pointlike: true },
    );
    if pts.len() == 0 {
        assert(ms =~= Seq::<Mark>::empty());
    } else {
        lemma_multipoint_box_matches(pts.drop_last(), m);
        assert(ms.drop_last() =~= pts.drop_last().map_values(
            |p: crate::geometry::Point| Mark { at: p.0, pointlike: true },
        ));
        assert(ms.last() == (Mark { at: pts.last().0, pointlike: true }));
    }
}

proof fn lemma_mlstring_box_matches(ss: Seq<Seq<Coord>>, m: StyleModel)
    ensures
        mlstring_box(ss, m) == marks_box(mlstring_marks(ss), m),
    decreases ss.len(),
{
    if ss.len() == 0 {
    } else {
        lemma_mlstring_box_matches(ss.drop_last(), m);
        lemma_lstring_box_matches(ss.last(), m);
        lemma_marks_box_concat(mlstring_marks(ss.drop_last()), lstring_marks(ss.last()), m);
    }
}

proof fn lemma_mpolygon_box_matches(ps: Seq<PolygonModel>, m: StyleModel)
    requires
        forall|i: int| 0 <= i < ps.len() ==> polygon_rings_ok(#[trigger] ps[i]),
    ensures
        mpolygon_box(ps, m) == marks_box(mpolygon_marks(ps), m),
    decreases ps.len(),
{
    if ps.len() == 0 {
    } else {
        lemma_mpolygon_box_matches(ps.drop_last(), m);
        lemma_polygon_box_matches(ps.last(), m);
        lemma_marks_box_concat(mpolygon_marks(ps.drop_last()), polygon_marks(ps.last()), m);
    }
}

proof fn lemma_collection_box_matches(gs: Seq<Geometry>, m: StyleModel)
    requires
        forall|i: int| 0 <= i < gs.len() ==> rings_ok(#[trigger] gs[i]),
    ensures
        collection_box(gs, m) == marks_box(collection_marks(gs), m),
    decreases gs,
{
    if gs.len() == 0 {
    } else {
        lemma_collection_box_matches(gs.drop_last(), m);
        lemma_bounds_match_rendered_marks(gs.last(), m);
        lemma_marks_box_concat(collection_marks(gs.drop_last()), geometry_marks(gs.last()), m);
    }
}

} // verus!
