//! Stateless conversion between fixed-point audio amplitudes and the
//! unsigned 16-bit wire representation.
//!
//! An amplitude is a signed value in `[-1.0, 1.0]` of full scale, held here
//! in fixed point: the integer `a` stands for the amplitude
//! `a / AMPLITUDE_SCALE`.  The wire format maps `[-1.0, 1.0]` linearly onto
//! `[0, 65534]`, with amplitude `0` on the midpoint `32767`.  Encoding
//! quantizes; a round trip loses at most one quantization step.

use vstd::prelude::*;

verus! {

use vstd::arithmetic::div_mod::{lemma_fundamental_div_mod, lemma_fundamental_div_mod_converse};

/// Wire value that a zero amplitude maps to: the midpoint of the wire range.
pub const MIDPOINT: u16 = 32767;

/// The fixed-point unit: this integer stands for the amplitude `1.0`.
pub const AMPLITUDE_SCALE: i32 = 1_000_000;

/// An amplitude clamped to full scale, `[-AMPLITUDE_SCALE, AMPLITUDE_SCALE]`.
pub open spec fn spec_clamp(a: int) -> int {
    if a < -(AMPLITUDE_SCALE as int) {
        -(AMPLITUDE_SCALE as int)
    } else if a > AMPLITUDE_SCALE as int {
        AMPLITUDE_SCALE as int
    } else {
        a
    }
}

/// The wire value of an amplitude: clamp, then map `[-1.0, 1.0]` linearly
/// onto `[0, 2 * MIDPOINT]`, rounding down.
pub open spec fn spec_encode(a: int) -> int {
    (spec_clamp(a) + AMPLITUDE_SCALE) * (MIDPOINT as int) / (AMPLITUDE_SCALE as int)
}

/// The amplitude a wire value stands for: the inverse linear map, rounding down.
pub open spec fn spec_decode(w: int) -> int {
    w * (AMPLITUDE_SCALE as int) / (MIDPOINT as int) - AMPLITUDE_SCALE
}

/// The coarseness of the wire format, in fixed-point units: the width of one
/// wire step, rounded up.
pub open spec fn quantization_step() -> int {
    (AMPLITUDE_SCALE as int + MIDPOINT as int - 1) / (MIDPOINT as int)
}

/// Encode one amplitude for the wire.  Total: out-of-range input is clamped
/// to full scale first.
pub fn encode(sample: i32) -> (w: u16)
    ensures
        w == spec_encode(sample as int),
{
    let clamped: i32 = if sample < -AMPLITUDE_SCALE {
        -AMPLITUDE_SCALE
    } else if sample > AMPLITUDE_SCALE {
        AMPLITUDE_SCALE
    } else {
        sample
    };
    let shifted: u64 = (clamped + AMPLITUDE_SCALE) as u64;
    assert((shifted as int) * (MIDPOINT as int) <= 2_000_000 * 32767) by (nonlinear_arith)
        requires
            shifted <= 2_000_000,
    ;
    let wire: u64 = shifted * (MIDPOINT as u64) / (AMPLITUDE_SCALE as u64);
    assert(wire <= 2 * MIDPOINT as u64);
    wire as u16
}

/// Decode one wire value back to a fixed-point amplitude.
pub fn decode(wire: u16) -> (a: i32)
    ensures
        a == spec_decode(wire as int),
{
    assert((wire as int) * (AMPLITUDE_SCALE as int) <= 65535 * 1_000_000) by (nonlinear_arith)
        requires
            wire <= 65535,
    ;
    assert((wire as int) * (AMPLITUDE_SCALE as int) / (MIDPOINT as int) <= 3_000_000)
        by (nonlinear_arith)
        requires
            0 <= (wire as int) * (AMPLITUDE_SCALE as int) <= 65535 * 1_000_000,
    ;
    let scaled: u64 = (wire as u64) * (AMPLITUDE_SCALE as u64) / (MIDPOINT as u64);
    (scaled as i32) - AMPLITUDE_SCALE
}

/// Decoding an encoded amplitude comes back no larger than the original and
/// short of it by at most one quantization step.
pub proof fn lemma_round_trip(a: int)
    requires
        -(AMPLITUDE_SCALE as int) <= a <= AMPLITUDE_SCALE as int,
    ensures
        0 <= a - spec_decode(spec_encode(a)) <= quantization_step(),
{
    let s = AMPLITUDE_SCALE as int;
    let m = MIDPOINT as int;
    let t = a + s;
    let e = t * m / s;
    let r = t * m % s;
    lemma_fundamental_div_mod(t * m, s);
    assert(0 <= r < s);
    assert(e * s == t * m - r) by (nonlinear_arith)
        requires
            t * m == s * e + r,
    ;
    let q = (r + m - 1) / m;
    let p = (r + m - 1) % m;
    lemma_fundamental_div_mod(r + m - 1, m);
    assert(q * m == r + m - 1 - p) by (nonlinear_arith)
        requires
            r + m - 1 == m * q + p,
    ;
    // e * s == m * (t - q) + (q * m - r), and the remainder lies in [0, m)
    assert(0 <= q * m - r < m);
    assert(e * s == (t - q) * m + (q * m - r)) by (nonlinear_arith)
        requires
            e * s == t * m - r,
            q * m == r + m - 1 - p,
    ;
    lemma_fundamental_div_mod_converse(e * s, m, t - q, q * m - r);
    assert(e * s / m == t - q);
    assert(spec_clamp(a) == a);
    assert(spec_encode(a) == e);
    assert(spec_decode(e) == t - q - s);
    assert(a - spec_decode(spec_encode(a)) == q);
    // 0 <= q, and q is largest when r is: q <= (s - 1 + m - 1) / m <= quantization_step()
    assert(q <= (s + m - 1) / m) by {
        vstd::arithmetic::div_mod::lemma_div_is_ordered(r + m - 1, s + m - 1, m);
    };
    assert(0 <= q) by {
        vstd::arithmetic::div_mod::lemma_div_is_ordered(0, r + m - 1, m);
    };
}

} // verus!
