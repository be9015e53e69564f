use vstd::prelude::*;

verus! {

/// Largest magnitude, in hundredths, that arithmetic results are clamped to.
pub const SC_MAX: i64 = 10_000_000_000_000;

/// Absolute value of a mathematical integer.
pub open spec fn iabs(v: int) -> int {
    if v < 0 {
        -v
    } else {
        v
    }
}

/// Clamp a mathematical integer into the working range of `Scalar`.
pub open spec fn sc_clip(v: int) -> int {
    if v > SC_MAX as int {
        SC_MAX as int
    } else if v < -(SC_MAX as int) {
        -(SC_MAX as int)
    } else {
        v
    }
}

/// Division with the quotient rounded toward zero, as machine division does.
pub open spec fn tdiv(a: int, b: int) -> int
    recommends
        b != 0,
{
    let q: int = iabs(a) / iabs(b);
    if (a < 0) != (b < 0) {
        -q
    } else {
        q
    }
}

/// Sum of two scalars, clamped as the exec addition clamps.
pub open spec fn sc_add_clip(a: Scalar, b: Scalar) -> Scalar {
    Scalar { centi: sc_clip(a@ + b@) as i64 }
}

/// Difference of two scalars, clamped as the exec subtraction clamps.
pub open spec fn sc_sub_clip(a: Scalar, b: Scalar) -> Scalar {
    Scalar { centi: sc_clip(a@ - b@) as i64 }
}

/// A coordinate or style quantity with two decimal places: the stored
/// integer counts hundredths of a user-space unit.  All arithmetic is
/// exact within the working range and saturates at `SC_MAX` hundredths,
/// so every operation is total.
#[derive(Debug, Clone, Copy, PartialEq, Eq, Structural)]
pub struct Scalar {
    pub centi: i64,
}

impl View for Scalar {
    type V = int;

    open spec fn view(&self) -> int {
        self.centi as int
    }
}

/// Clamp a wide intermediate result back into the working range.
pub(crate) fn clip128(v: i128) -> (r: i64)
    ensures
        r as int == sc_clip(v as int),
{
    if v > SC_MAX as i128 {
        SC_MAX
    } else if v < -SC_MAX as i128 {
        -SC_MAX
    } else {
        v as i64
    }
}

impl Scalar {
    /// The value counted in hundredths: `from_centi(250)` is 2.5.
    pub fn from_centi(centi: i64) -> (r: Scalar)
        ensures
            r@ == centi as int,
    {
        Scalar { centi }
    }

    /// A whole number of units, clamped into the working range.
    pub fn from_int(v: i64) -> (r: Scalar)
        ensures
            r@ == sc_clip(v as int * 100),
    {
        Scalar { centi: clip128(v as i128 * 100) }
    }

    pub fn zero() -> (r: Scalar)
        ensures
            r@ == 0,
    {
        Scalar { centi: 0 }
    }

    pub fn add(self, other: Scalar) -> (r: Scalar)
        ensures
            r@ == sc_clip(self@ + other@),
    {
        Scalar { centi: clip128(self.centi as i128 + other.centi as i128) }
    }

    pub fn sub(self, other: Scalar) -> (r: Scalar)
        ensures
            r@ == sc_clip(self@ - other@),
    {
        Scalar { centi: clip128(self.centi as i128 - other.centi as i128) }
    }

    pub fn min(self, other: Scalar) -> (r: Scalar)
        ensures
            r@ == if self@ <= other@ {
                self@
            } else {
                other@
            },
            r == self || r == other,
    {
        if self.centi <= other.centi {
            self
        } else {
            other
        }
    }

    pub fn max(self, other: Scalar) -> (r: Scalar)
        ensures
            r@ == if self@ >= other@ {
                self@
            } else {
                other@
            },
            r == self || r == other,
    {
        if self.centi >= other.centi {
            self
        } else {
            other
        }
    }

    /// `self * num / den` computed exactly in a wide intermediate, rounded
    /// toward zero and clamped; a zero divisor yields the neutral value 0.
    pub fn muldiv(self, num: Scalar, den: Scalar) -> (r: Scalar)
        ensures
            r@ == if den@ == 0 {
                0int
            } else {
                sc_clip(tdiv(self@ * num@, den@))
            },
    {
        if den.centi == 0 {
            return Scalar { centi: 0 };
        }
        let a: i128 = self.centi as i128;
        let n: i128 = num.centi as i128;
        let d: i128 = den.centi as i128;
        let ua: u128 = if a < 0 {
            (-a) as u128
        } else {
            a as u128
        };
        let un: u128 = if n < 0 {
            (-n) as u128
        } else {
            n as u128
        };
        let ud: u128 = if d < 0 {
            (-d) as u128
        } else {
            d as u128
        };
        proof {
            assert(ua as int == iabs(self@));
            assert(un as int == iabs(num@));
            assert(ud as int == iabs(den@));
            assert(ua <= 0x8000_0000_0000_0000u128);
            assert(un <= 0x8000_0000_0000_0000u128);
            assert(ua * un <= 0x4000_0000_0000_0000_0000_0000_0000_0000u128) by (nonlinear_arith)
                requires
                    ua <= 0x8000_0000_0000_0000u128,
                    un <= 0x8000_0000_0000_0000u128,
            ;
        }
        let uq: u128 = (ua * un) / ud;
        let mag: i64 = if uq > SC_MAX as u128 {
            SC_MAX
        } else {
            uq as i64
        };
        let neg: bool = (((self.centi < 0) != (num.centi < 0)) != (den.centi < 0)) && uq > 0;
        let r: i64 = if neg {
            -mag
        } else {
            mag
        };
        proof {
            let p: int = self@ * num@;
            let q: int = iabs(p) / iabs(den@);
            assert(iabs(p) == ua as int * un as int) by (nonlinear_arith)
                requires
                    ua as int == iabs(self@),
                    un as int == iabs(num@),
                    p == self@ * num@,
            ;
            assert(uq as int == q);
            if uq == 0 {
                assert(r as int == 0);
                assert(tdiv(p, den@) == 0);
            } else {
                assert(iabs(p) > 0);
                assert(p != 0);
                assert((p < 0) == ((self@ < 0) != (num@ < 0))) by (nonlinear_arith)
                    requires
                        p == self@ * num@,
                        p != 0,
                ;
                if neg {
                    assert(tdiv(p, den@) == -q);
                    assert(r as int == sc_clip(-q));
                } else {
                    assert(tdiv(p, den@) == q);
                    assert(r as int == sc_clip(q));
                }
            }
            assert(r as int == sc_clip(tdiv(p, den@)));
        }
        Scalar { centi: r }
    }

    /// Multiply by a fixed-point factor: `self * factor` at hundredth
    /// resolution, rounded toward zero and clamped.
    pub fn scale_by(self, factor: Scalar) -> (r: Scalar)
        ensures
            r@ == sc_clip(tdiv(self@ * factor@, 100)),
    {
        self.muldiv(factor, Scalar { centi: 100 })
    }
}

/// The character for one decimal digit.
pub open spec fn digit_char(d: int) -> char {
    if d == 0 {
        '0'
    } else if d == 1 {
        '1'
    } else if d == 2 {
        '2'
    } else if d == 3 {
        '3'
    } else if d == 4 {
        '4'
    } else if d == 5 {
        '5'
    } else if d == 6 {
        '6'
    } else if d == 7 {
        '7'
    } else if d == 8 {
        '8'
    } else {
        '9'
    }
}

/// The decimal digits of a natural number, most significant first.
pub open spec fn dec_seq(n: nat) -> Seq<char>
    decreases n,
{
    if n < 10 {
        seq![digit_char(n as int)]
    } else {
        dec_seq(n / 10) + seq![digit_char((n % 10) as int)]
    }
}

/// How a scalar appears in an attribute value: the shortest decimal
/// form, with trailing fractional zeros (and a whole number's point)
/// omitted, as "7", "0.7" or "-18.26".
pub open spec fn attr_num_seq(v: int) -> Seq<char> {
    sign_seq(v) + dec_seq((iabs(v) / 100) as nat) + attr_frac_seq((iabs(v) % 100) as nat)
}

/// How a scalar appears as a path or circle coordinate: as
/// `attr_num_seq`, except that a whole number keeps one fractional
/// digit, as "10.0" or "-15.76".
pub open spec fn coord_num_seq(v: int) -> Seq<char> {
    sign_seq(v) + dec_seq((iabs(v) / 100) as nat) + coord_frac_seq((iabs(v) % 100) as nat)
}

pub open spec fn sign_seq(v: int) -> Seq<char> {
    if v < 0 {
        "-"@
    } else {
        Seq::<char>::empty()
    }
}

pub open spec fn attr_frac_seq(f: nat) -> Seq<char> {
    if f == 0 {
        Seq::<char>::empty()
    } else if f % 10 == 0 {
        "."@ + seq![digit_char((f / 10) as int)]
    } else {
        "."@ + seq![digit_char((f / 10) as int), digit_char((f % 10) as int)]
    }
}

pub open spec fn coord_frac_seq(f: nat) -> Seq<char> {
    if f == 0 {
        ".0"@
    } else if f % 10 == 0 {
        "."@ + seq![digit_char((f / 10) as int)]
    } else {
        "."@ + seq![digit_char((f / 10) as int), digit_char((f % 10) as int)]
    }
}

/// The one-character string for a decimal digit.
pub fn digit_str(d: u64) -> (r: &'static str)
    requires
        d < 10,
    ensures
        r@ == seq![digit_char(d as int)],
{
    proof {
        reveal_strlit("0");
        reveal_strlit("1");
        reveal_strlit("2");
        reveal_strlit("3");
        reveal_strlit("4");
        reveal_strlit("5");
        reveal_strlit("6");
        reveal_strlit("7");
        reveal_strlit("8");
        reveal_strlit("9");
    }
    let r: &'static str = if d == 0 {
        "0"
    } else if d == 1 {
        "1"
    } else if d == 2 {
        "2"
    } else if d == 3 {
        "3"
    } else if d == 4 {
        "4"
    } else if d == 5 {
        "5"
    } else if d == 6 {
        "6"
    } else if d == 7 {
        "7"
    } else if d == 8 {
        "8"
    } else {
        "9"
    };
    proof {
        assert(r@ =~= seq![digit_char(d as int)]);
    }
    r
}

/// Append the decimal digits of `n` to `out`.
pub fn push_dec(out: &mut String, n: u64)
    ensures
        final(out)@ == old(out)@ + dec_seq(n as nat),
    decreases n,
{
    if n < 10 {
        out.append(digit_str(n));
        proof {
            assert(final(out)@ =~= old(out)@ + dec_seq(n as nat));
        }
    } else {
        let q: u64 = n / 10;
        push_dec(out, q);
        out.append(digit_str(n % 10));
        proof {
            assert(final(out)@ =~= old(out)@ + dec_seq(n as nat));
        }
    }
}

impl Scalar {
    /// The magnitude of the stored count of hundredths.
    fn magnitude(&self) -> (r: u64)
        ensures
            r as int == iabs(self@),
    {
        if self.centi < 0 {
            (-(self.centi as i128)) as u64
        } else {
            self.centi as u64
        }
    }

    /// Append the attribute form of this scalar to `out`.
    pub fn push_attr_num(&self, out: &mut String)
        ensures
            final(out)@ == old(out)@ + attr_num_seq(self@),
    {
        let a: u64 = self.magnitude();
        if self.centi < 0 {
            out.append("-");
        }
        push_dec(out, a / 100);
        let f: u64 = a % 100;
        if f != 0 {
            out.append(".");
            if f % 10 == 0 {
                out.append(digit_str(f / 10));
            } else {
                out.append(digit_str(f / 10));
                out.append(digit_str(f % 10));
            }
        }
        proof {
            assert(final(out)@ =~= old(out)@ + attr_num_seq(self@));
        }
    }

    /// Append the coordinate form of this scalar to `out`.
    pub fn push_coord_num(&self, out: &mut String)
        ensures
            final(out)@ == old(out)@ + coord_num_seq(self@),
    {
        let a: u64 = self.magnitude();
        if self.centi < 0 {
            out.append("-");
        }
        push_dec(out, a / 100);
        let f: u64 = a % 100;
        if f == 0 {
            out.append(".0");
        } else {
            out.append(".");
            if f % 10 == 0 {
                out.append(digit_str(f / 10));
            } else {
                out.append(digit_str(f / 10));
                out.append(digit_str(f % 10));
            }
        }
        proof {
            assert(final(out)@ =~= old(out)@ + coord_num_seq(self@));
        }
    }

    /// The attribute form of this scalar as a fresh string.
    pub fn attr_string(&self) -> (r: String)
        ensures
            r@ == attr_num_seq(self@),
    {
        let mut out: String = String::new();
        self.push_attr_num(&mut out);
        proof {
            assert(out@ =~= attr_num_seq(self@));
        }
        out
    }
}

} // verus!
