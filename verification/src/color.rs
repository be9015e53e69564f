use vstd::prelude::*;

use crate::scalar::{dec_seq, digit_char};

verus! {

/// A color for a fill or stroke attribute, serialized as a CSS keyword,
/// an `rgb(r,g,b)` triple, an uppercase `#RRGGBB` value, or an
/// `hsl(h,s%,l%)` triple whose hue wraps modulo 360 and whose
/// saturation and lightness clamp to 100.
#[derive(Debug, Clone, Copy, PartialEq)]
pub enum Color {
    Named(&'static str),
    Rgb(u8, u8, u8),
    Hex(u32),
    Hsl(u16, u8, u8),
}

/// The character for one uppercase hexadecimal digit.
pub open spec fn hex_char(d: int) -> char {
    if d < 10 {
        digit_char(d)
    } else if d == 10 {
        'A'
    } else if d == 11 {
        'B'
    } else if d == 12 {
        'C'
    } else if d == 13 {
        'D'
    } else if d == 14 {
        'E'
    } else {
        'F'
    }
}

/// The hexadecimal digits of a natural number, most significant first.
pub open spec fn hex_seq(n: nat) -> Seq<char>
    decreases n,
{
    if n < 16 {
        seq![hex_char(n as int)]
    } else {
        hex_seq(n / 16) + seq![hex_char((n % 16) as int)]
    }
}

/// Hexadecimal digits zero-padded on the left to at least six places.
pub open spec fn hex_pad6_seq(n: nat) -> Seq<char> {
    if hex_seq(n).len() >= 6 {
        hex_seq(n)
    } else {
        Seq::new((6 - hex_seq(n).len()) as nat, |i: int| '0') + hex_seq(n)
    }
}

/// How a color appears as an attribute value.
pub open spec fn color_seq(c: Color) -> Seq<char> {
    match c {
        Color::Named(name) => name@,
        Color::Rgb(r, g, b) => "rgb("@ + dec_seq(r as nat) + ","@ + dec_seq(g as nat) + ","@
            + dec_seq(b as nat) + ")"@,
        Color::Hex(h) => "#"@ + hex_pad6_seq(h as nat),
        Color::Hsl(h, s, l) => "hsl("@ + dec_seq((h % 360) as nat) + ","@ + dec_seq(
            (if s < 100 {
                s
            } else {
                100
            }) as nat,
        ) + "%,"@ + dec_seq(
            (if l < 100 {
                l
            } else {
                100
            }) as nat,
        ) + "%)"@,
    }
}

/// The one-character string for a hexadecimal digit.
fn hex_digit_str(d: u32) -> (r: &'static str)
    requires
        d < 16,
    ensures
        r@ == seq![hex_char(d as int)],
{
    proof {
        reveal_strlit("A");
        reveal_strlit("B");
        reveal_strlit("C");
        reveal_strlit("D");
        reveal_strlit("E");
        reveal_strlit("F");
    }
    let r: &'static str = if d < 10 {
        crate::scalar::digit_str(d as u64)
    } else if d == 10 {
        "A"
    } else if d == 11 {
        "B"
    } else if d == 12 {
        "C"
    } else if d == 13 {
        "D"
    } else if d == 14 {
        "E"
    } else {
        "F"
    };
    proof {
        assert(r@ =~= seq![hex_char(d as int)]);
    }
    r
}

pub open spec fn pow16(k: nat) -> nat
    decreases k,
{
    if k == 0 {
        1
    } else {
        16 * pow16((k - 1) as nat)
    }
}

proof fn lemma_hex_len_bound(n: nat, k: nat)
    requires
        k >= 1,
        n < pow16(k),
    ensures
        hex_seq(n).len() <= k,
    decreases n,
{
    if n < 16 {
    } else {
        assert(pow16(0) == 1);
        assert(pow16(1) == 16);
        assert(k >= 2);
        let p: nat = pow16((k - 1) as nat);
        assert(pow16(k) == 16 * p);
        assert(n == 16 * (n / 16) + n % 16);
        assert(n / 16 < p) by (nonlinear_arith)
            requires
                n < 16 * p,
                n == 16 * (n / 16) + n % 16,
                n % 16 < 16,
                n % 16 >= 0,
        ;
        lemma_hex_len_bound(n / 16, (k - 1) as nat);
        assert(hex_seq(n).len() == hex_seq(n / 16).len() + 1);
    }
}

/// The count of hexadecimal digits of `n`.
fn hex_len(n: u32) -> (r: usize)
    ensures
        r == hex_seq(n as nat).len(),
        r <= 8,
    decreases n,
{
    proof {
        assert(pow16(0) == 1);
        assert(pow16(1) == 16);
        assert(pow16(2) == 0x100);
        assert(pow16(3) == 0x1000);
        assert(pow16(4) == 0x1_0000);
        assert(pow16(5) == 0x10_0000);
        assert(pow16(6) == 0x100_0000);
        assert(pow16(7) == 0x1000_0000);
        assert(pow16(8) == 0x1_0000_0000);
        lemma_hex_len_bound(n as nat, 8);
    }
    if n < 16 {
        1
    } else {
        let rest: usize = hex_len(n / 16);
        proof {
            assert(hex_seq(n as nat) == hex_seq((n / 16) as nat) + seq![
                hex_char((n % 16) as int),
            ]);
        }
        rest + 1
    }
}

/// Append the hexadecimal digits of `n` to `out`.
fn push_hex(out: &mut String, n: u32)
    ensures
        final(out)@ == old(out)@ + hex_seq(n as nat),
    decreases n,
{
    if n < 16 {
        out.append(hex_digit_str(n));
        proof {
            assert(final(out)@ =~= old(out)@ + hex_seq(n as nat));
        }
    } else {
        let q: u32 = n / 16;
        push_hex(out, q);
        out.append(hex_digit_str(n % 16));
        proof {
            assert(final(out)@ =~= old(out)@ + hex_seq(n as nat));
        }
    }
}

/// Append the hexadecimal digits of `n`, zero-padded to six places.
fn push_hex_pad6(out: &mut String, n: u32)
    ensures
        final(out)@ == old(out)@ + hex_pad6_seq(n as nat),
{
    let len: usize = hex_len(n);
    let mut pad: usize = 0;
    let ghost start: Seq<char> = out@;
    if len < 6 {
        while pad < 6 - len
            invariant
                len == hex_seq(n as nat).len(),
                len < 6,
                pad <= 6 - len,
                out@ == start + Seq::new(pad as nat, |i: int| '0'),
            decreases 6 - len - pad,
        {
            out.append("0");
            pad = pad + 1;
            proof {
                reveal_strlit("0");
                assert(out@ =~= start + Seq::new(pad as nat, |i: int| '0'));
            }
        }
    }
    push_hex(out, n);
    proof {
        assert(final(out)@ =~= old(out)@ + hex_pad6_seq(n as nat));
    }
}

impl Color {
    /// Append the attribute form of this color to `out`.
    pub fn push_svg(&self, out: &mut String)
        ensures
            final(out)@ == old(out)@ + color_seq(*self),
    {
        match self {
            Color::Named(name) => {
                out.append(name);
            },
            Color::Rgb(r, g, b) => {
                out.append("rgb(");
                push_dec_u8(out, *r);
                out.append(",");
                push_dec_u8(out, *g);
                out.append(",");
                push_dec_u8(out, *b);
                out.append(")");
                proof {
                    assert(final(out)@ =~= old(out)@ + color_seq(*self));
                }
            },
            Color::Hex(h) => {
                out.append("#");
                push_hex_pad6(out, *h);
                proof {
                    assert(final(out)@ =~= old(out)@ + color_seq(*self));
                }
            },
            Color::Hsl(h, s, l) => {
                out.append("hsl(");
                crate::scalar::push_dec(out, (h % 360) as u64);
                out.append(",");
                push_dec_u8(out, if *s < 100 {
                    *s
                } else {
                    100
                });
                out.append("%,");
                push_dec_u8(out, if *l < 100 {
                    *l
                } else {
                    100
                });
                out.append("%)");
                proof {
                    assert(final(out)@ =~= old(out)@ + color_seq(*self));
                }
            },
        }
    }

    /// The attribute form of this color as a fresh string.
    pub fn render(&self) -> (r: String)
        ensures
            r@ == color_seq(*self),
    {
        let mut out: String = String::new();
        self.push_svg(&mut out);
        proof {
            assert(out@ =~= color_seq(*self));
        }
        out
    }
}

/// Append the decimal digits of one byte to `out`.
fn push_dec_u8(out: &mut String, n: u8)
    ensures
        final(out)@ == old(out)@ + dec_seq(n as nat),
{
    crate::scalar::push_dec(out, n as u64);
}

} // verus!
