//! Background color arithmetic for the interactive surface.
//!
//! Colors travel as packed `0x00RRGGBB` words; a frame's color is a linear
//! blend of the current and the next palette entry.  The blend is cosmetic
//! for the testbed, but its arithmetic is exact and free of overflow.

use vstd::prelude::*;

verus! {

/// A color split into its red, green and blue channels, each in `[0, 255]`.
pub struct RGB(pub u32, pub u32, pub u32);

/// The channels of a packed `0x00RRGGBB` word.
pub open spec fn spec_channels(x: u32) -> (int, int, int) {
    ((x as int / 0x1_0000) % 0x100, (x as int / 0x100) % 0x100, x as int % 0x100)
}

/// One channel of a blend `i/n` of the way from `a` to `b`, rounding down.
pub open spec fn spec_blend_channel(a: int, b: int, i: int, n: int) -> int {
    a * (n - i) / n + b * i / n
}

impl RGB {
    /// Unpack a `0x00RRGGBB` word into channels.
    pub fn from_word(x: u32) -> (c: RGB)
        ensures
            (c.0 as int, c.1 as int, c.2 as int) == spec_channels(x),
            c.0 < 256 && c.1 < 256 && c.2 < 256,
    {
        RGB((x / 0x1_0000) % 0x100, (x / 0x100) % 0x100, x % 0x100)
    }

    /// Pack channels back into a `0x00RRGGBB` word.
    pub fn to_word(self) -> (x: u32)
        requires
            self.0 < 256 && self.1 < 256 && self.2 < 256,
        ensures
            x == self.0 * 0x1_0000 + self.1 * 0x100 + self.2,
            spec_channels(x) == (self.0 as int, self.1 as int, self.2 as int),
    {
        let x = self.0 * 0x1_0000 + self.1 * 0x100 + self.2;
        proof {
            lemma_pack_unpack(self.0 as int, self.1 as int, self.2 as int);
        }
        x
    }

    /// Blend the packed colors `a` and `b`, `i/n` of the way from `a` to `b`,
    /// channel by channel with rounding down.
    pub fn blend(a: u32, b: u32, i: u32, n: u32) -> (c: u32)
        requires
            0 < n,
            i <= n,
        ensures
            ({
                let (ar, ag, ab) = spec_channels(a);
                let (br, bg, bb) = spec_channels(b);
                c == spec_blend_channel(ar, br, i as int, n as int) * 0x1_0000
                    + spec_blend_channel(ag, bg, i as int, n as int) * 0x100 + spec_blend_channel(
                    ab,
                    bb,
                    i as int,
                    n as int,
                )
            }),
    {
        let a = Self::from_word(a);
        let b = Self::from_word(b);
        let blended = RGB(
            Self::blend_channel(a.0, b.0, i, n),
            Self::blend_channel(a.1, b.1, i, n),
            Self::blend_channel(a.2, b.2, i, n),
        );
        blended.to_word()
    }

    /// One channel of a blend `i/n` of the way from `a` to `b`.
    fn blend_channel(a: u32, b: u32, i: u32, n: u32) -> (c: u32)
        requires
            0 < n,
            i <= n,
            a < 256,
            b < 256,
        ensures
            c == spec_blend_channel(a as int, b as int, i as int, n as int),
            c < 256,
    {
        assert(a * (n - i) <= 255 * (n as int)) by (nonlinear_arith)
            requires
                a < 256 && n - i <= n,
        ;
        assert(b * i <= 255 * (n as int)) by (nonlinear_arith)
            requires
                b < 256 && i <= n,
        ;
        let left: u64 = (a as u64) * ((n - i) as u64) / (n as u64);
        let right: u64 = (b as u64) * (i as u64) / (n as u64);
        assert(left <= 255 && right <= 255) by {
            vstd::arithmetic::div_mod::lemma_div_is_ordered(
                (a as int) * (n - i) as int,
                255 * (n as int),
                n as int,
            );
            vstd::arithmetic::div_mod::lemma_div_is_ordered(
                (b as int) * (i as int),
                255 * (n as int),
                n as int,
            );
            vstd::arithmetic::div_mod::lemma_div_by_multiple(255, n as int);
        };
        assert(left + right < 256) by {
            lemma_blend_parts_bounded(a as int, b as int, i as int, n as int);
        };
        (left + right) as u32
    }
}

/// Unpacking a packed word recovers the channels it was packed from.
proof fn lemma_pack_unpack(r: int, g: int, b: int)
    requires
        0 <= r < 256,
        0 <= g < 256,
        0 <= b < 256,
    ensures
        spec_channels((r * 0x1_0000 + g * 0x100 + b) as u32) == (r, g, b),
{
    let x = r * 0x1_0000 + g * 0x100 + b;
    vstd::arithmetic::div_mod::lemma_fundamental_div_mod_converse(x, 0x1_0000, r, g * 0x100 + b);
    vstd::arithmetic::div_mod::lemma_fundamental_div_mod_converse(x, 0x100, r * 0x100 + g, b);
    assert(x == 0x100 * (r * 0x100 + g) + b);
    vstd::arithmetic::div_mod::lemma_small_mod(r as nat, 256);
    vstd::arithmetic::div_mod::lemma_mod_multiples_vanish(r, g, 0x100);
    vstd::arithmetic::div_mod::lemma_small_mod(g as nat, 256);
}

/// The two halves of a channel blend never sum past the channel range: each
/// is a fraction of a value below 256, and the fractions sum to one.
proof fn lemma_blend_parts_bounded(a: int, b: int, i: int, n: int)
    requires
        0 < n,
        0 <= i <= n,
        0 <= a < 256,
        0 <= b < 256,
    ensures
        spec_blend_channel(a, b, i, n) < 256,
{
    assert(a * (n - i) / n + b * i / n <= (255 * (n - i)) / n + (255 * i) / n) by {
        assert(a * (n - i) <= 255 * (n - i) && b * i <= 255 * i) by (nonlinear_arith)
            requires
                0 <= a < 256 && 0 <= b < 256 && 0 <= i <= n,
        ;
        vstd::arithmetic::div_mod::lemma_div_is_ordered(a * (n - i), 255 * (n - i), n);
        vstd::arithmetic::div_mod::lemma_div_is_ordered(b * i, 255 * i, n);
    };
    assert((255 * (n - i)) / n + (255 * i) / n <= 255) by {
        lemma_div_sum_le(255 * (n - i), 255 * i, n);
        assert(255 * (n - i) + 255 * i == n * 255);
        vstd::arithmetic::div_mod::lemma_div_multiples_vanish(255, n);
    };
}

/// Rounding down loses across a sum: `x/n + y/n <= (x + y)/n` for
/// non-negative `x`, `y` and positive `n`.
proof fn lemma_div_sum_le(x: int, y: int, n: int)
    requires
        0 < n,
        0 <= x,
        0 <= y,
    ensures
        x / n + y / n <= (x + y) / n,
{
    vstd::arithmetic::div_mod::lemma_fundamental_div_mod(x, n);
    vstd::arithmetic::div_mod::lemma_fundamental_div_mod(y, n);
    let q = x / n + y / n;
    assert(x + y >= n * q) by (nonlinear_arith)
        requires
            x == n * (x / n) + x % n && y == n * (y / n) + y % n && x % n >= 0 && y % n >= 0 && q
                == x / n + y / n,
    ;
    assert((x + y) / n >= q) by {
        vstd::arithmetic::div_mod::lemma_div_is_ordered(n * q, x + y, n);
        vstd::arithmetic::div_mod::lemma_div_multiples_vanish(q, n);
    };
}

} // verus!
