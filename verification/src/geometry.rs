use vstd::prelude::*;

use crate::scalar::Scalar;

verus! {

/// A position in user space.
#[derive(Debug, Clone, Copy, PartialEq)]
pub struct Coord {
    pub x: Scalar,
    pub y: Scalar,
}

/// A single position, drawn as a filled circle.
#[derive(Debug, Clone, Copy, PartialEq)]
pub struct Point(pub Coord);

/// A straight segment between two positions.
#[derive(Debug, Clone, Copy, PartialEq)]
pub struct Line {
    pub start: Coord,
    pub end: Coord,
}

/// An ordered run of positions, drawn as consecutive segments.
#[derive(Debug, PartialEq)]
pub struct LineString(pub Vec<Coord>);

impl View for LineString {
    type V = Seq<Coord>;

    open spec fn view(&self) -> Seq<Coord> {
        self.0@
    }
}

/// The mathematical value of a polygon: its closed exterior ring and
/// its closed interior rings.
pub struct PolygonModel {
    pub exterior: Seq<Coord>,
    pub interiors: Seq<Seq<Coord>>,
}

/// A ring as constructing a polygon stores it: closed by repeating the
/// first position at the end where the two differ; an empty ring stays
/// empty.
pub open spec fn closed_ring(ps: Seq<Coord>) -> Seq<Coord> {
    if ps.len() == 0 || ps[0] == ps.last() {
        ps
    } else {
        ps.push(ps[0])
    }
}

/// An area bounded by an exterior ring, with zero or more interior
/// rings subtracted as holes.
#[derive(Debug, PartialEq)]
pub struct Polygon {
    exterior: LineString,
    interiors: Vec<LineString>,
}

impl View for Polygon {
    type V = PolygonModel;

    closed spec fn view(&self) -> PolygonModel {
        PolygonModel {
            exterior: self.exterior@,
            interiors: Seq::new(self.interiors@.len(), |i: int| self.interiors@[i]@),
        }
    }
}

/// Extend a ring so that it ends where it starts.
fn close_ring(ring: LineString) -> (r: LineString)
    ensures
        r@ == closed_ring(ring@),
{
    let mut ring: LineString = ring;
    let n: usize = ring.0.len();
    if n > 0 {
        let first: Coord = ring.0[0];
        let last: Coord = ring.0[n - 1];
        if !(first.x.centi == last.x.centi && first.y.centi == last.y.centi) {
            ring.0.push(first);
        }
    }
    ring
}

impl Polygon {
    /// A polygon from its rings; each ring is closed as it is taken.
    pub fn new(exterior: LineString, interiors: Vec<LineString>) -> (r: Polygon)
        ensures
            r@.exterior == closed_ring(exterior@),
            r@.interiors == Seq::new(interiors@.len(), |i: int| closed_ring(interiors@[i]@)),
    {
        let closed_exterior: LineString = close_ring(exterior);
        let mut closed_interiors: Vec<LineString> = Vec::new();
        let mut rest: Vec<LineString> = interiors;
        let ghost original: Seq<LineString> = rest@;
        let n0: usize = rest.len();
        proof {
            assert(original.len() == n0);
        }
        let mut i: usize = 0;
        while rest.len() > 0
            invariant
                original.len() <= usize::MAX,
                i + rest.len() == original.len(),
                closed_interiors.len() == i,
                rest@ == original.subrange(i as int, original.len() as int),
                forall|j: int|
                    0 <= j < i ==> closed_interiors@[j]@ == closed_ring(#[trigger] original[j]@),
            decreases rest.len(),
        {
            let ring: LineString = rest.remove(0);
            proof {
                assert(ring == original[i as int]);
            }
            closed_interiors.push(close_ring(ring));
            i = i + 1;
            proof {
                assert(rest@ =~= original.subrange(i as int, original.len() as int));
            }
        }
        let r: Polygon = Polygon { exterior: closed_exterior, interiors: closed_interiors };
        proof {
            assert(r@.interiors =~= Seq::new(original.len(), |j: int| closed_ring(original[j]@)));
        }
        r
    }

    /// The outer boundary ring.
    pub fn exterior(&self) -> (r: &LineString)
        ensures
            r@ == self@.exterior,
    {
        &self.exterior
    }

    /// The hole rings.
    pub fn interiors(&self) -> (r: &Vec<LineString>)
        ensures
            r@.len() == self@.interiors.len(),
            forall|i: int| 0 <= i < r@.len() ==> #[trigger] r@[i]@ == self@.interiors[i],
    {
        &self.interiors
    }
}

/// An axis-aligned rectangle, kept with its lower and upper corners.
#[derive(Debug, Clone, Copy, PartialEq)]
pub struct Rect {
    pub min: Coord,
    pub max: Coord,
}

impl Rect {
    /// A rectangle spanning two corners, normalized so that `min` holds
    /// the smaller and `max` the larger coordinate on each axis.
    pub fn new(c1: Coord, c2: Coord) -> (r: Rect)
        ensures
            r.min.x == crate::viewbox::sc_min(c1.x, c2.x),
            r.min.y == crate::viewbox::sc_min(c1.y, c2.y),
            r.max.x == crate::viewbox::sc_max(c1.x, c2.x),
            r.max.y == crate::viewbox::sc_max(c1.y, c2.y),
    {
        Rect {
            min: Coord { x: c1.x.min(c2.x), y: c1.y.min(c2.y) },
            max: Coord { x: c1.x.max(c2.x), y: c1.y.max(c2.y) },
        }
    }
}

/// A triangle from three corners.
#[derive(Debug, Clone, Copy, PartialEq)]
pub struct Triangle(pub Coord, pub Coord, pub Coord);

/// The polygon a rectangle is rendered as: its four corners walked
/// from the lower one, closed.
pub open spec fn rect_poly_model(r: Rect) -> PolygonModel {
    PolygonModel {
        exterior: seq![
            Coord { x: r.min.x, y: r.min.y },
            Coord { x: r.max.x, y: r.min.y },
            Coord { x: r.max.x, y: r.max.y },
            Coord { x: r.min.x, y: r.max.y },
            Coord { x: r.min.x, y: r.min.y },
        ],
        interiors: Seq::empty(),
    }
}

/// The polygon a triangle is rendered as: its three corners, closed.
pub open spec fn tri_poly_model(t: Triangle) -> PolygonModel {
    PolygonModel { exterior: seq![t.0, t.1, t.2, t.0], interiors: Seq::empty() }
}

impl Rect {
    /// The equivalent polygon.
    pub fn to_polygon(&self) -> (r: Polygon)
        ensures
            r@.exterior == rect_poly_model(*self).exterior,
            r@.interiors == rect_poly_model(*self).interiors,
    {
        let mut ring: Vec<Coord> = Vec::new();
        ring.push(Coord { x: self.min.x, y: self.min.y });
        ring.push(Coord { x: self.max.x, y: self.min.y });
        ring.push(Coord { x: self.max.x, y: self.max.y });
        ring.push(Coord { x: self.min.x, y: self.max.y });
        ring.push(Coord { x: self.min.x, y: self.min.y });
        let r: Polygon = Polygon::new(LineString(ring), Vec::new());
        proof {
            assert(r@.exterior =~= rect_poly_model(*self).exterior);
            assert(r@.interiors =~= rect_poly_model(*self).interiors);
        }
        r
    }
}

impl Triangle {
    /// The equivalent polygon.
    pub fn to_polygon(&self) -> (r: Polygon)
        ensures
            r@.exterior == tri_poly_model(*self).exterior,
            r@.interiors == tri_poly_model(*self).interiors,
    {
        let mut ring: Vec<Coord> = Vec::new();
        ring.push(self.0);
        ring.push(self.1);
        ring.push(self.2);
        ring.push(self.0);
        let r: Polygon = Polygon::new(LineString(ring), Vec::new());
        proof {
            assert(r@.exterior =~= tri_poly_model(*self).exterior);
            assert(r@.interiors =~= tri_poly_model(*self).interiors);
        }
        r
    }
}

/// An ordered collection of points.
#[derive(Debug, PartialEq)]
pub struct MultiPoint(pub Vec<Point>);

impl View for MultiPoint {
    type V = Seq<Point>;

    open spec fn view(&self) -> Seq<Point> {
        self.0@
    }
}

/// An ordered collection of line strings.
#[derive(Debug, PartialEq)]
pub struct MultiLineString(pub Vec<LineString>);

impl View for MultiLineString {
    type V = Seq<Seq<Coord>>;

    open spec fn view(&self) -> Seq<Seq<Coord>> {
        Seq::new(self.0@.len(), |i: int| self.0@[i]@)
    }
}

/// An ordered collection of polygons.
#[derive(Debug, PartialEq)]
pub struct MultiPolygon(pub Vec<Polygon>);

impl View for MultiPolygon {
    type V = Seq<PolygonModel>;

    open spec fn view(&self) -> Seq<PolygonModel> {
        Seq::new(self.0@.len(), |i: int| self.0@[i]@)
    }
}

/// Any single shape.
#[derive(Debug, PartialEq)]
pub enum Geometry {
    Point(Point),
    Line(Line),
    LineString(LineString),
    Polygon(Polygon),
    MultiPoint(MultiPoint),
    MultiLineString(MultiLineString),
    MultiPolygon(MultiPolygon),
    GeometryCollection(GeometryCollection),
    Rect(Rect),
    Triangle(Triangle),
}

/// An ordered, possibly mixed, collection of shapes.
#[derive(Debug, PartialEq)]
pub struct GeometryCollection(pub Vec<Geometry>);

} // verus!
