use vstd::prelude::*;

use crate::scalar::{sc_clip, Scalar};

verus! {

/// An axis-aligned bounding rectangle accumulator.  An absent bound
/// means that no content has been observed yet; union treats absent
/// bounds as absorbing, so the box only ever grows.
#[derive(Debug, Clone, Copy, PartialEq)]
pub struct ViewBox {
    pub min_x: Option<Scalar>,
    pub min_y: Option<Scalar>,
    pub max_x: Option<Scalar>,
    pub max_y: Option<Scalar>,
}

/// The box that has observed no content.
pub open spec fn vb_empty() -> ViewBox {
    ViewBox { min_x: None, min_y: None, max_x: None, max_y: None }
}

pub open spec fn sc_min(a: Scalar, b: Scalar) -> Scalar {
    if a@ <= b@ {
        a
    } else {
        b
    }
}

pub open spec fn sc_max(a: Scalar, b: Scalar) -> Scalar {
    if a@ >= b@ {
        a
    } else {
        b
    }
}

/// Smaller of two optional bounds, with an absent bound ignored.
pub open spec fn opt_min(a: Option<Scalar>, b: Option<Scalar>) -> Option<Scalar> {
    match (a, b) {
        (Some(x), Some(y)) => Some(sc_min(x, y)),
        (Some(x), None) => Some(x),
        (None, Some(y)) => Some(y),
        (None, None) => None,
    }
}

/// Larger of two optional bounds, with an absent bound ignored.
pub open spec fn opt_max(a: Option<Scalar>, b: Option<Scalar>) -> Option<Scalar> {
    match (a, b) {
        (Some(x), Some(y)) => Some(sc_max(x, y)),
        (Some(x), None) => Some(x),
        (None, Some(y)) => Some(y),
        (None, None) => None,
    }
}

/// The smallest box enclosing both arguments.
pub open spec fn vb_union(a: ViewBox, b: ViewBox) -> ViewBox {
    ViewBox {
        min_x: opt_min(a.min_x, b.min_x),
        min_y: opt_min(a.min_y, b.min_y),
        max_x: opt_max(a.max_x, b.max_x),
        max_y: opt_max(a.max_y, b.max_y),
    }
}

/// Every present bound moved outward by `m`; absent bounds stay absent.
pub open spec fn vb_margin(a: ViewBox, m: Scalar) -> ViewBox {
    ViewBox {
        min_x: match a.min_x {
            Some(v) => Some(Scalar { centi: sc_clip(v@ - m@) as i64 }),
            None => None,
        },
        min_y: match a.min_y {
            Some(v) => Some(Scalar { centi: sc_clip(v@ - m@) as i64 }),
            None => None,
        },
        max_x: match a.max_x {
            Some(v) => Some(Scalar { centi: sc_clip(v@ + m@) as i64 }),
            None => None,
        },
        max_y: match a.max_y {
            Some(v) => Some(Scalar { centi: sc_clip(v@ + m@) as i64 }),
            None => None,
        },
    }
}

/// A present bound, else the neutral fallback 0.
pub open spec fn bound_or_zero(b: Option<Scalar>) -> Scalar {
    match b {
        Some(v) => v,
        None => Scalar { centi: 0 },
    }
}

/// The horizontal span, 0 when either bound is absent.
pub open spec fn vb_width(a: ViewBox) -> Scalar {
    match (a.min_x, a.max_x) {
        (Some(lo), Some(hi)) => Scalar { centi: sc_clip(hi@ - lo@) as i64 },
        _ => Scalar { centi: 0 },
    }
}

/// The vertical span, 0 when either bound is absent.
pub open spec fn vb_height(a: ViewBox) -> Scalar {
    match (a.min_y, a.max_y) {
        (Some(lo), Some(hi)) => Scalar { centi: sc_clip(hi@ - lo@) as i64 },
        _ => Scalar { centi: 0 },
    }
}

impl ViewBox {
    /// A box with all four bounds present.
    pub fn new(min_x: Scalar, min_y: Scalar, max_x: Scalar, max_y: Scalar) -> (r: ViewBox)
        ensures
            r == (ViewBox {
                min_x: Some(min_x),
                min_y: Some(min_y),
                max_x: Some(max_x),
                max_y: Some(max_y),
            }),
    {
        ViewBox { min_x: Some(min_x), min_y: Some(min_y), max_x: Some(max_x), max_y: Some(max_y) }
    }

    /// A box that has observed no content.
    pub fn empty() -> (r: ViewBox)
        ensures
            r == vb_empty(),
    {
        ViewBox { min_x: None, min_y: None, max_x: None, max_y: None }
    }

    /// The smallest box enclosing this box and `other`.
    pub fn and(&self, other: &ViewBox) -> (r: ViewBox)
        ensures
            r == vb_union(*self, *other),
    {
        ViewBox {
            min_x: opt_min_exec(self.min_x, other.min_x),
            min_y: opt_min_exec(self.min_y, other.min_y),
            max_x: opt_max_exec(self.max_x, other.max_x),
            max_y: opt_max_exec(self.max_y, other.max_y),
        }
    }

    /// Every present bound moved outward by `margin`.
    pub fn with_margin(&self, margin: Scalar) -> (r: ViewBox)
        ensures
            r == vb_margin(*self, margin),
    {
        ViewBox {
            min_x: match self.min_x {
                Some(v) => Some(v.sub(margin)),
                None => None,
            },
            min_y: match self.min_y {
                Some(v) => Some(v.sub(margin)),
                None => None,
            },
            max_x: match self.max_x {
                Some(v) => Some(v.add(margin)),
                None => None,
            },
            max_y: match self.max_y {
                Some(v) => Some(v.add(margin)),
                None => None,
            },
        }
    }

    /// The left bound, 0 while absent.
    pub fn min_x(&self) -> (r: Scalar)
        ensures
            r == bound_or_zero(self.min_x),
    {
        match self.min_x {
            Some(v) => v,
            None => Scalar { centi: 0 },
        }
    }

    /// The top bound, 0 while absent.
    pub fn min_y(&self) -> (r: Scalar)
        ensures
            r == bound_or_zero(self.min_y),
    {
        match self.min_y {
            Some(v) => v,
            None => Scalar { centi: 0 },
        }
    }

    /// The horizontal span, 0 while either bound is absent.
    pub fn width(&self) -> (r: Scalar)
        ensures
            r == vb_width(*self),
    {
        match (self.min_x, self.max_x) {
            (Some(lo), Some(hi)) => hi.sub(lo),
            _ => Scalar { centi: 0 },
        }
    }

    /// The vertical span, 0 while either bound is absent.
    pub fn height(&self) -> (r: Scalar)
        ensures
            r == vb_height(*self),
    {
        match (self.min_y, self.max_y) {
            (Some(lo), Some(hi)) => hi.sub(lo),
            _ => Scalar { centi: 0 },
        }
    }
}

fn opt_min_exec(a: Option<Scalar>, b: Option<Scalar>) -> (r: Option<Scalar>)
    ensures
        r == opt_min(a, b),
{
    match (a, b) {
        (Some(x), Some(y)) => Some(x.min(y)),
        (Some(x), None) => Some(x),
        (None, Some(y)) => Some(y),
        (None, None) => None,
    }
}

fn opt_max_exec(a: Option<Scalar>, b: Option<Scalar>) -> (r: Option<Scalar>)
    ensures
        r == opt_max(a, b),
{
    match (a, b) {
        (Some(x), Some(y)) => Some(x.max(y)),
        (Some(x), None) => Some(x),
        (None, Some(y)) => Some(y),
        (None, None) => None,
    }
}

/// Union of view boxes is commutative.
pub proof fn lemma_union_commutative(a: ViewBox, b: ViewBox)
    ensures
        vb_union(a, b) == vb_union(b, a),
{
}

/// Union of view boxes is associative.
pub proof fn lemma_union_associative(a: ViewBox, b: ViewBox, c: ViewBox)
    ensures
        vb_union(vb_union(a, b), c) == vb_union(a, vb_union(b, c)),
{
}

/// The box that has observed nothing is the identity of union.
pub proof fn lemma_union_empty(a: ViewBox)
    ensures
        vb_union(vb_empty(), a) == a,
        vb_union(a, vb_empty()) == a,
{
}

/// Union of a box with itself changes nothing.
pub proof fn lemma_union_idempotent(a: ViewBox)
    ensures
        vb_union(a, a) == a,
{
}

} // verus!
