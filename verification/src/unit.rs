use vstd::prelude::*;

use crate::scalar::{attr_num_seq, sc_clip, tdiv, Scalar};

verus! {

/// A quantity in an absolute CSS unit, for explicit image sizes.
/// Relative units are not supported.
#[derive(Debug, Clone, Copy, PartialEq)]
pub enum Unit {
    /// Centimeter (cm), 37.8px
    Centimeter(Scalar),
    /// Inch (in), 2.54cm, exactly 96px, 72pt, 6pc
    Inch(Scalar),
    /// No unit, read as appropriate from context
    Unitless(Scalar),
    /// Millimeter (mm), 0.1cm
    Millimeter(Scalar),
    /// Pica (pc), 1/6 in, 12pt, 16px
    Pica(Scalar),
    /// Pixel (px), 1/96 in, 2/3 pt, 1/16 pc
    Pixel(Scalar),
    /// Point (pt), 1/72 in or 4/3 px, 1/12 pc
    Point(Scalar),
    /// Quarter-millimeter (Q), 1/4 mm, or 1/40 cm
    QuarterMillimeter(Scalar),
}

/// The numeric value a unit carries.
pub open spec fn unit_value(u: Unit) -> Scalar {
    match u {
        Unit::Centimeter(v) => v,
        Unit::Inch(v) => v,
        Unit::Unitless(v) => v,
        Unit::Millimeter(v) => v,
        Unit::Pica(v) => v,
        Unit::Pixel(v) => v,
        Unit::Point(v) => v,
        Unit::QuarterMillimeter(v) => v,
    }
}

/// The suffix a unit serializes with.
pub open spec fn unit_symbol(u: Unit) -> Seq<char> {
    match u {
        Unit::Centimeter(_) => "cm"@,
        Unit::Inch(_) => "in"@,
        Unit::Unitless(_) => ""@,
        Unit::Millimeter(_) => "mm"@,
        Unit::Pica(_) => "pc"@,
        Unit::Pixel(_) => "px"@,
        Unit::Point(_) => "pt"@,
        Unit::QuarterMillimeter(_) => "Q"@,
    }
}

/// The same unit carrying `value`.
pub open spec fn unit_with_value(u: Unit, value: Scalar) -> Unit {
    match u {
        Unit::Centimeter(_) => Unit::Centimeter(value),
        Unit::Inch(_) => Unit::Inch(value),
        Unit::Unitless(_) => Unit::Unitless(value),
        Unit::Millimeter(_) => Unit::Millimeter(value),
        Unit::Pica(_) => Unit::Pica(value),
        Unit::Pixel(_) => Unit::Pixel(value),
        Unit::Point(_) => Unit::Point(value),
        Unit::QuarterMillimeter(_) => Unit::QuarterMillimeter(value),
    }
}

/// A unit's value multiplied by a fixed-point factor.
pub open spec fn unit_scaled(u: Unit, factor: Scalar) -> Unit {
    unit_with_value(u, Scalar { centi: sc_clip(tdiv(unit_value(u)@ * factor@, 100)) as i64 })
}

/// A unit's value multiplied by the exact ratio `num / den`; a zero
/// denominator yields the neutral value 0.
pub open spec fn unit_ratio(u: Unit, num: Scalar, den: Scalar) -> Unit {
    unit_with_value(
        u,
        if den@ == 0 {
            Scalar { centi: 0 }
        } else {
            Scalar { centi: sc_clip(tdiv(unit_value(u)@ * num@, den@)) as i64 }
        },
    )
}

/// A unit as an attribute value: the number immediately followed by
/// the suffix.
pub open spec fn unit_seq(u: Unit) -> Seq<char> {
    attr_num_seq(unit_value(u)@) + unit_symbol(u)
}

impl Unit {
    /// The raw value, with no unit.
    pub fn value(&self) -> (r: Scalar)
        ensures
            r == unit_value(*self),
    {
        match self {
            Unit::Centimeter(v) => *v,
            Unit::Inch(v) => *v,
            Unit::Unitless(v) => *v,
            Unit::Millimeter(v) => *v,
            Unit::Pica(v) => *v,
            Unit::Pixel(v) => *v,
            Unit::Point(v) => *v,
            Unit::QuarterMillimeter(v) => *v,
        }
    }

    /// The abbreviated symbol of the unit.
    pub fn symbol(&self) -> (r: &'static str)
        ensures
            r@ == unit_symbol(*self),
    {
        match self {
            Unit::Centimeter(_) => "cm",
            Unit::Inch(_) => "in",
            Unit::Unitless(_) => "",
            Unit::Millimeter(_) => "mm",
            Unit::Pica(_) => "pc",
            Unit::Pixel(_) => "px",
            Unit::Point(_) => "pt",
            Unit::QuarterMillimeter(_) => "Q",
        }
    }

    /// The same unit with its value multiplied by `factor`.
    pub fn scale(&self, factor: Scalar) -> (r: Unit)
        ensures
            r == unit_scaled(*self, factor),
    {
        self.with_value(self.value().scale_by(factor))
    }

    /// The same unit with its value multiplied by `num / den`.
    pub fn scale_ratio(&self, num: Scalar, den: Scalar) -> (r: Unit)
        ensures
            r == unit_ratio(*self, num, den),
    {
        self.with_value(self.value().muldiv(num, den))
    }

    /// The same unit carrying `value`.
    fn with_value(&self, value: Scalar) -> (r: Unit)
        ensures
            r == unit_with_value(*self, value),
    {
        match self {
            Unit::Centimeter(_) => Unit::Centimeter(value),
            Unit::Inch(_) => Unit::Inch(value),
            Unit::Unitless(_) => Unit::Unitless(value),
            Unit::Millimeter(_) => Unit::Millimeter(value),
            Unit::Pica(_) => Unit::Pica(value),
            Unit::Pixel(_) => Unit::Pixel(value),
            Unit::Point(_) => Unit::Point(value),
            Unit::QuarterMillimeter(_) => Unit::QuarterMillimeter(value),
        }
    }

    /// Append the attribute form of this unit to `out`.
    pub fn push_svg(&self, out: &mut String)
        ensures
            final(out)@ == old(out)@ + unit_seq(*self),
    {
        self.value().push_attr_num(out);
        out.append(self.symbol());
        proof {
            assert(final(out)@ =~= old(out)@ + unit_seq(*self));
        }
    }

    /// The attribute form of this unit as a fresh string.
    pub fn render(&self) -> (r: String)
        ensures
            r@ == unit_seq(*self),
    {
        let mut out: String = String::new();
        self.push_svg(&mut out);
        proof {
            assert(out@ =~= unit_seq(*self));
        }
        out
    }
}

} // verus!
