//! Theme data: four color tiers (dimmest to hottest) and the ten-glyph
//! intensity ramp, with verified construction of the tier escape codes.

use vstd::prelude::*;

verus! {

/// A 24-bit color.
#[derive(Clone, Copy, PartialEq, Eq, Structural)]
pub struct Rgb {
    pub r: u8,
    pub g: u8,
    pub b: u8,
}

/// An ordered palette of four brightness tiers, dimmest to hottest.
#[derive(Clone, Copy, PartialEq, Eq, Structural)]
pub struct Theme {
    pub tier0: Rgb,
    pub tier1: Rgb,
    pub tier2: Rgb,
    pub tier3: Rgb,
}

impl Theme {
    /// The palette color of a tier (tiers above 3 collapse to the hottest).
    pub open spec fn color(self, t: int) -> Rgb {
        if t == 0 {
            self.tier0
        } else if t == 1 {
            self.tier1
        } else if t == 2 {
            self.tier2
        } else {
            self.tier3
        }
    }

    /// Classic red-to-yellow fire (the default).
    pub fn standard() -> (r: Theme)
        ensures
            r == (Theme {
                tier0: Rgb { r: 255, g: 0, b: 0 },
                tier1: Rgb { r: 255, g: 85, b: 0 },
                tier2: Rgb { r: 255, g: 170, b: 0 },
                tier3: Rgb { r: 255, g: 255, b: 0 },
            }),
    {
        Theme {
            tier0: Rgb { r: 255, g: 0, b: 0 },
            tier1: Rgb { r: 255, g: 85, b: 0 },
            tier2: Rgb { r: 255, g: 170, b: 0 },
            tier3: Rgb { r: 255, g: 255, b: 0 },
        }
    }

    /// Ice fire.
    pub fn ice() -> (r: Theme)
        ensures
            r == (Theme {
                tier0: Rgb { r: 173, g: 216, b: 230 },
                tier1: Rgb { r: 135, g: 206, b: 250 },
                tier2: Rgb { r: 0, g: 191, b: 255 },
                tier3: Rgb { r: 240, g: 248, b: 255 },
            }),
    {
        Theme {
            tier0: Rgb { r: 173, g: 216, b: 230 },
            tier1: Rgb { r: 135, g: 206, b: 250 },
            tier2: Rgb { r: 0, g: 191, b: 255 },
            tier3: Rgb { r: 240, g: 248, b: 255 },
        }
    }

    /// Alternative classic fire.
    pub fn classic() -> (r: Theme)
        ensures
            r == (Theme {
                tier0: Rgb { r: 20, g: 20, b: 20 },
                tier1: Rgb { r: 220, g: 50, b: 47 },
                tier2: Rgb { r: 255, g: 200, b: 40 },
                tier3: Rgb { r: 70, g: 130, b: 180 },
            }),
    {
        Theme {
            tier0: Rgb { r: 20, g: 20, b: 20 },
            tier1: Rgb { r: 220, g: 50, b: 47 },
            tier2: Rgb { r: 255, g: 200, b: 40 },
            tier3: Rgb { r: 70, g: 130, b: 180 },
        }
    }

    /// Pink neon fire.
    pub fn pink() -> (r: Theme)
        ensures
            r == (Theme {
                tier0: Rgb { r: 255, g: 105, b: 180 },
                tier1: Rgb { r: 255, g: 182, b: 193 },
                tier2: Rgb { r: 255, g: 240, b: 245 },
                tier3: Rgb { r: 255, g: 255, b: 255 },
            }),
    {
        Theme {
            tier0: Rgb { r: 255, g: 105, b: 180 },
            tier1: Rgb { r: 255, g: 182, b: 193 },
            tier2: Rgb { r: 255, g: 240, b: 245 },
            tier3: Rgb { r: 255, g: 255, b: 255 },
        }
    }

    /// Blue neon fire.
    pub fn blue() -> (r: Theme)
        ensures
            r == (Theme {
                tier0: Rgb { r: 10, g: 15, b: 28 },
                tier1: Rgb { r: 0, g: 95, b: 135 },
                tier2: Rgb { r: 0, g: 175, b: 175 },
                tier3: Rgb { r: 51, g: 225, b: 255 },
            }),
    {
        Theme {
            tier0: Rgb { r: 10, g: 15, b: 28 },
            tier1: Rgb { r: 0, g: 95, b: 135 },
            tier2: Rgb { r: 0, g: 175, b: 175 },
            tier3: Rgb { r: 51, g: 225, b: 255 },
        }
    }
}

/// Decimal digit bytes of a non-negative value, most significant first.
pub open spec fn dec_digits(v: int) -> Seq<u8>
    decreases v,
{
    if v < 10 {
        seq![(48 + if v >= 0 { v } else { 0 }) as u8]
    } else {
        dec_digits(v / 10).push((48 + v % 10) as u8)
    }
}

/// The full foreground-color escape for a 24-bit color:
/// `ESC [ 38 ; 2 ; r ; g ; b m`.
pub open spec fn color_escape(c: Rgb) -> Seq<u8> {
    seq![27u8, 91, 51, 56, 59, 50, 59] + dec_digits(c.r as int) + seq![59u8]
        + dec_digits(c.g as int) + seq![59u8] + dec_digits(c.b as int) + seq![109u8]
}

/// Append the decimal digits of `v` to `out`.
fn push_decimal(out: &mut Vec<u8>, v: u8)
    ensures
        final(out)@ == old(out)@ + dec_digits(v as int),
{
    if v >= 100 {
        out.push(48 + v / 100);
        out.push(48 + (v / 10) % 10);
        out.push(48 + v % 10);
        proof {
            reveal_with_fuel(dec_digits, 4);
            assert((v / 10) / 10 == v / 100) by (nonlinear_arith);
            assert(out@ =~= old(out)@ + dec_digits(v as int));
        }
    } else if v >= 10 {
        out.push(48 + v / 10);
        out.push(48 + v % 10);
        proof {
            reveal_with_fuel(dec_digits, 3);
            assert(out@ =~= old(out)@ + dec_digits(v as int));
        }
    } else {
        out.push(48 + v);
        proof {
            assert(out@ =~= old(out)@ + dec_digits(v as int));
        }
    }
}

/// The escape-code bytes selecting the color `c`.
fn color_code_bytes(c: Rgb) -> (r: Vec<u8>)
    ensures
        r@ == color_escape(c),
{
    let mut out: Vec<u8> = Vec::new();
    out.push(27);
    out.push(91);
    out.push(51);
    out.push(56);
    out.push(59);
    out.push(50);
    out.push(59);
    push_decimal(&mut out, c.r);
    out.push(59);
    push_decimal(&mut out, c.g);
    out.push(59);
    push_decimal(&mut out, c.b);
    out.push(109);
    proof {
        assert(out@ =~= color_escape(c));
    }
    out
}

/// Build the four per-tier color escape codes of a theme, dimmest first.
pub fn precompile_color_codes(theme: &Theme) -> (r: Vec<Vec<u8>>)
    ensures
        r@.len() == 4,
        forall|t: int| 0 <= t < 4 ==> #[trigger] r@[t]@ == color_escape(theme.color(t)),
{
    let mut out: Vec<Vec<u8>> = Vec::new();
    out.push(color_code_bytes(theme.tier0));
    out.push(color_code_bytes(theme.tier1));
    out.push(color_code_bytes(theme.tier2));
    out.push(color_code_bytes(theme.tier3));
    out
}

/// The ten-glyph ramp from ignition (blank) to peak intensity.
pub open spec fn glyph_ramp() -> Seq<u8> {
    seq![32u8, 46, 58, 94, 42, 120, 115, 83, 35, 36]
}

/// The glyph drawn for an intensity: index `min(intensity, 9)` into the
/// ramp, so glyph selection is monotonic in intensity.
pub open spec fn glyph_for(v: u8) -> u8 {
    glyph_ramp()[if v < 9 { v as int } else { 9 }]
}

/// The glyph ramp as plain bytes.
pub fn precompile_chars() -> (r: Vec<u8>)
    ensures
        r@ == glyph_ramp(),
{
    let mut out: Vec<u8> = Vec::new();
    out.push(32);
    out.push(46);
    out.push(58);
    out.push(94);
    out.push(42);
    out.push(120);
    out.push(115);
    out.push(83);
    out.push(35);
    out.push(36);
    proof {
        assert(out@ =~= glyph_ramp());
    }
    out
}

/// The index into the glyph ramp for an intensity.
pub fn glyph_index(v: u8) -> (i: usize)
    ensures
        i == if v < 9 { v as int } else { 9 },
        i <= 9,
{
    if v < 9 {
        v as usize
    } else {
        9
    }
}

/// The glyph byte drawn for an intensity.
pub fn glyph_byte(v: u8) -> (b: u8)
    ensures
        b == glyph_for(v),
{
    let i = glyph_index(v);
    if i == 0 {
        32
    } else if i == 1 {
        46
    } else if i == 2 {
        58
    } else if i == 3 {
        94
    } else if i == 4 {
        42
    } else if i == 5 {
        120
    } else if i == 6 {
        115
    } else if i == 7 {
        83
    } else if i == 8 {
        35
    } else {
        36
    }
}

} // verus!
