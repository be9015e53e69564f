use vstd::prelude::*;

use crate::geometry::{Coord, Line};
use crate::scalar::{clip128, iabs, sc_clip, sc_sub_clip, tdiv, Scalar, SC_MAX};
use crate::style::{eff_radius, Style, StyleModel};
use crate::to_svg_str::{line_box, line_seq, push_line_path, ToSvgStr};
use crate::viewbox::ViewBox;

verus! {

/// A directed segment drawn with a two-stroke arrowhead at its end.
/// The head strokes leave the endpoint at 135 degrees to either side of
/// the direction of travel, with the style's effective radius as their
/// length.  A zero-length arrow has no direction and renders nothing.
#[derive(Debug, Clone, Copy, PartialEq)]
pub struct Arrow {
    pub line: Line,
}

impl Arrow {
    pub fn new(line: Line) -> (r: Arrow)
        ensures
            r.line == line,
    {
        Arrow { line }
    }
}

/// `r` is the integer square root of `n`.
pub open spec fn is_sqrt(r: int, n: int) -> bool {
    0 <= r && r * r <= n && n < (r + 1) * (r + 1)
}

/// The integer square root.
pub open spec fn floor_sqrt(n: int) -> int {
    choose|r: int| #[trigger] is_sqrt(r, n)
}

proof fn lemma_sqrt_exists(n: int)
    requires
        n >= 0,
    ensures
        exists|r: int| #[trigger] is_sqrt(r, n),
    decreases n,
{
    if n == 0 {
        assert(is_sqrt(0, 0));
    } else {
        lemma_sqrt_exists(n - 1);
        let r: int = choose|r: int| #[trigger] is_sqrt(r, n - 1);
        if (r + 1) * (r + 1) <= n {
            assert(n == (r + 1) * (r + 1));
            assert(is_sqrt(r + 1, n)) by (nonlinear_arith)
                requires
                    r >= 0,
                    n == (r + 1) * (r + 1),
            ;
        } else {
            assert(is_sqrt(r, n));
        }
    }
}

proof fn lemma_sqrt_unique(a: int, b: int, n: int)
    requires
        is_sqrt(a, n),
        is_sqrt(b, n),
    ensures
        a == b,
{
    if a < b {
        assert(false) by (nonlinear_arith)
            requires
                0 <= a < b,
                n < (a + 1) * (a + 1),
                b * b <= n,
        ;
    }
    if b < a {
        assert(false) by (nonlinear_arith)
            requires
                0 <= b < a,
                n < (b + 1) * (b + 1),
                a * a <= n,
        ;
    }
}

/// `floor_sqrt` names the one integer square root.
pub proof fn lemma_floor_sqrt(n: int)
    requires
        n >= 0,
    ensures
        is_sqrt(floor_sqrt(n), n),
{
    lemma_sqrt_exists(n);
}

/// The integer square root, by bisection.
fn isqrt(n: u128) -> (r: u64)
    requires
        (n as int) < 1237940039285380274899124224,
    ensures
        r as int == floor_sqrt(n as int),
        is_sqrt(r as int, n as int),
{
    let mut lo: u64 = 0;
    let mut hi: u64 = 0x2000_0000_0000;
    proof {
        assert((0x2000_0000_0000u64 as int) * (0x2000_0000_0000u64 as int)
            == 1237940039285380274899124224) by (nonlinear_arith);
    }
    while lo + 1 < hi
        invariant
            lo < hi,
            hi <= 0x2000_0000_0000,
            (lo as int) * (lo as int) <= n as int,
            (n as int) < (hi as int) * (hi as int),
        decreases hi - lo,
    {
        let mid: u64 = lo + (hi - lo) / 2;
        proof {
            assert((mid as int) * (mid as int) < 0x100000000000000000000000000000000)
                by (nonlinear_arith)
                requires
                    mid <= 0x2000_0000_0000u64,
            ;
        }
        let m2: u128 = (mid as u128) * (mid as u128);
        if m2 <= n {
            lo = mid;
        } else {
            hi = mid;
        }
    }
    proof {
        assert(is_sqrt(lo as int, n as int));
        lemma_floor_sqrt(n as int);
        lemma_sqrt_unique(lo as int, floor_sqrt(n as int), n as int);
    }
    lo
}

/// The horizontal direction component of an arrow, clamped.
pub open spec fn arrow_dx(l: Line) -> Scalar {
    sc_sub_clip(l.end.x, l.start.x)
}

/// The vertical direction component of an arrow, clamped.
pub open spec fn arrow_dy(l: Line) -> Scalar {
    sc_sub_clip(l.end.y, l.start.y)
}

/// The unscaled head-stroke component: the direction rotated by 135
/// degrees to the left or to the right, times the square root of two.
pub open spec fn head_comb(dx: int, dy: int, left: bool, horizontal: bool) -> int {
    if left {
        if horizontal {
            -(dx + dy)
        } else {
            dx - dy
        }
    } else {
        if horizontal {
            dy - dx
        } else {
            -(dx + dy)
        }
    }
}

/// One offset component of a head stroke: the combination scaled by the
/// radius over the direction's length, with the square root of two
/// halved at eight decimal places.
pub open spec fn head_offset(comb: int, rc: int, len: int) -> int {
    sc_clip(tdiv(comb * rc * 70710678, len * 100000000))
}

/// Where a head stroke ends.
pub open spec fn arrow_head(l: Line, m: StyleModel, left: bool) -> Coord {
    let dx = arrow_dx(l)@;
    let dy = arrow_dy(l)@;
    let rc = sc_clip(eff_radius(m)@);
    let len = floor_sqrt(dx * dx + dy * dy);
    Coord {
        x: Scalar {
            centi: sc_clip(l.end.x@ + head_offset(head_comb(dx, dy, left, true), rc, len)) as i64,
        },
        y: Scalar {
            centi: sc_clip(l.end.y@ + head_offset(head_comb(dx, dy, left, false), rc, len)) as i64,
        },
    }
}

/// An arrow's markup: the base line and its two head strokes, or
/// nothing at all when the line has no direction.
pub open spec fn arrow_seq(a: Arrow, m: StyleModel) -> Seq<char> {
    if arrow_dx(a.line)@ == 0 && arrow_dy(a.line)@ == 0 {
        Seq::<char>::empty()
    } else {
        line_seq(a.line.start, a.line.end, m) + line_seq(a.line.end, arrow_head(a.line, m, true), m)
            + line_seq(a.line.end, arrow_head(a.line, m, false), m)
    }
}

/// A zero-length arrow renders as the empty string, and only a
/// zero-length arrow does.
pub proof fn lemma_zero_length_arrow_renders_empty(a: Arrow, m: StyleModel)
    ensures
        a.line.start == a.line.end ==> arrow_seq(a, m) == Seq::<char>::empty(),
        a.line.start != a.line.end ==> arrow_seq(a, m).len() > 0,
{
    if a.line.start == a.line.end {
        assert(arrow_dx(a.line)@ == 0 && arrow_dy(a.line)@ == 0);
    } else {
        assert(arrow_dx(a.line)@ != 0 || arrow_dy(a.line)@ != 0);
        reveal_strlit("<path d=\"M ");
        assert(line_seq(a.line.start, a.line.end, m).len() > 0);
    }
}

/// One offset component of a head stroke.
fn off_component(comb: i64, rc: i64, len: u64) -> (o: i64)
    requires
        iabs(comb as int) <= 2 * SC_MAX as int,
        iabs(rc as int) <= SC_MAX as int,
        len >= 1,
    ensures
        o as int == head_offset(comb as int, rc as int, len as int),
{
    let uc: u128 = if comb < 0 {
        (-(comb as i128)) as u128
    } else {
        comb as u128
    };
    let ur: u128 = if rc < 0 {
        (-(rc as i128)) as u128
    } else {
        rc as u128
    };
    proof {
        assert(uc as int == iabs(comb as int));
        assert(ur as int == iabs(rc as int));
        assert(uc * ur <= 200000000000000000000000000u128) by (nonlinear_arith)
            requires
                uc <= 20000000000000u128,
                ur <= 10000000000000u128,
        ;
        assert(uc * ur * 70710678u128 <= 200000000000000000000000000u128 * 70710678u128)
            by (nonlinear_arith)
            requires
                uc * ur <= 200000000000000000000000000u128,
        ;
    }
    let num: u128 = uc * ur * 70710678u128;
    let den: u128 = (len as u128) * 100000000u128;
    let q: u128 = num / den;
    let neg: bool = ((comb < 0) != (rc < 0)) && q > 0;
    let mag: i64 = if q > SC_MAX as u128 {
        SC_MAX
    } else {
        q as i64
    };
    let o: i64 = if neg {
        -mag
    } else {
        mag
    };
    proof {
        let p2: int = comb as int * rc as int;
        let p: int = p2 * 70710678;
        let d: int = len as int * 100000000;
        assert(d == den as int);
        assert(d > 0);
        assert(iabs(p2) == uc as int * ur as int) by (nonlinear_arith)
            requires
                uc as int == iabs(comb as int),
                ur as int == iabs(rc as int),
                p2 == comb as int * rc as int,
        ;
        assert(iabs(p) == iabs(p2) * 70710678) by (nonlinear_arith)
            requires
                p == p2 * 70710678,
        ;
        assert(num as int == iabs(p));
        assert(q as int == iabs(p) / d);
        let t: int = tdiv(p, d);
        if q == 0 {
            assert(o as int == 0);
            assert(t == 0);
        } else {
            assert(iabs(p) > 0);
            assert(p != 0);
            assert(p2 != 0) by (nonlinear_arith)
                requires
                    p == p2 * 70710678,
                    p != 0,
            ;
            assert((p2 < 0) == (((comb as int) < 0) != ((rc as int) < 0))) by (nonlinear_arith)
                requires
                    p2 == comb as int * rc as int,
                    p2 != 0,
            ;
            assert((p < 0) == (p2 < 0)) by (nonlinear_arith)
                requires
                    p == p2 * 70710678,
                    p2 != 0,
            ;
            if neg {
                assert(t == -(q as int));
                assert(o as int == sc_clip(t));
            } else {
                assert(t == q as int);
                assert(o as int == sc_clip(t));
            }
        }
        assert(o as int == sc_clip(tdiv(p, d)));
    }
    o
}

impl ToSvgStr for Arrow {
    open spec fn spec_svg_str(&self, style: StyleModel) -> Seq<char> {
        arrow_seq(*self, style)
    }

    open spec fn spec_viewbox(&self, style: StyleModel) -> ViewBox {
        line_box(self.line.start, self.line.end, style)
    }

    fn to_svg_str(&self, style: &Style) -> (r: String) {
        let dx: Scalar = self.line.end.x.sub(self.line.start.x);
        let dy: Scalar = self.line.end.y.sub(self.line.start.y);
        proof {
            assert(dx == arrow_dx(self.line));
            assert(dy == arrow_dy(self.line));
        }
        if dx.centi == 0 && dy.centi == 0 {
            return String::new();
        }
        let rc: i64 = clip128(style.effective_radius().centi as i128);
        let ux: u128 = if dx.centi < 0 {
            (-(dx.centi as i128)) as u128
        } else {
            dx.centi as u128
        };
        let uy: u128 = if dy.centi < 0 {
            (-(dy.centi as i128)) as u128
        } else {
            dy.centi as u128
        };
        proof {
            assert(ux as int == iabs(dx@));
            assert(uy as int == iabs(dy@));
            assert(ux * ux == dx@ * dx@ && ux * ux <= 100000000000000000000000000u128)
                by (nonlinear_arith)
                requires
                    ux as int == iabs(dx@),
                    ux <= 10000000000000u128,
            ;
            assert(uy * uy == dy@ * dy@ && uy * uy <= 100000000000000000000000000u128)
                by (nonlinear_arith)
                requires
                    uy as int == iabs(dy@),
                    uy <= 10000000000000u128,
            ;
        }
        let n2: u128 = ux * ux + uy * uy;
        let len: u64 = isqrt(n2);
        proof {
            assert(n2 >= 1) by (nonlinear_arith)
                requires
                    n2 == ux * ux + uy * uy,
                    ux >= 1 || uy >= 1,
            ;
            assert(len >= 1) by (nonlinear_arith)
                requires
                    (n2 as int) < (len as int + 1) * (len as int + 1),
                    n2 >= 1,
            ;
            assert(len as int == floor_sqrt(dx@ * dx@ + dy@ * dy@));
        }
        let clx: i64 = -(dx.centi + dy.centi);
        let cly: i64 = dx.centi - dy.centi;
        let crx: i64 = dy.centi - dx.centi;
        let cry: i64 = clx;
        let olx: i64 = off_component(clx, rc, len);
        let oly: i64 = off_component(cly, rc, len);
        let orx: i64 = off_component(crx, rc, len);
        let ory: i64 = off_component(cry, rc, len);
        let left_head: Coord = Coord {
            x: self.line.end.x.add(Scalar { centi: olx }),
            y: self.line.end.y.add(Scalar { centi: oly }),
        };
        let right_head: Coord = Coord {
            x: self.line.end.x.add(Scalar { centi: orx }),
            y: self.line.end.y.add(Scalar { centi: ory }),
        };
        proof {
            assert(left_head == arrow_head(self.line, style@, true));
            assert(right_head == arrow_head(self.line, style@, false));
        }
        let mut out: String = String::new();
        push_line_path(&mut out, self.line.start, self.line.end, style);
        push_line_path(&mut out, self.line.end, left_head, style);
        push_line_path(&mut out, self.line.end, right_head, style);
        proof {
            assert(out@ =~= arrow_seq(*self, style@));
        }
        out
    }

    fn viewbox(&self, style: &Style) -> (r: ViewBox) {
        let base: Line = self.line;
        base.viewbox(style)
    }
}

} // verus!
