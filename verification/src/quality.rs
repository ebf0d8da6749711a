//! Signal-quality computation.
//!
//! The kernel reports signal strength in hundredths of a dBm (mBm). The
//! quality score rescales the -100..-40 dBm band linearly onto 0..100,
//! saturating outside the band: `round(100 - 100 * |dbm + 40| / 60)` with
//! the dBm value first clamped into [-100, -40].

use vstd::prelude::*;

verus! {

/// The signal in mBm, clamped to the representable band [-10000, -4000].
pub open spec fn clamp_mbm(signal: int) -> int {
    if signal < -10000 {
        -10000
    } else if signal > -4000 {
        -4000
    } else {
        signal
    }
}

/// Quality of a signal given in mBm: the linear rescaling of the clamped
/// band [-100 dBm, -40 dBm] onto [0, 100], rounded to the nearest integer
/// (halves away from zero). For `s` in the band this equals
/// `round((s + 10000) / 60)` over the rationals.
pub open spec fn quality_spec(signal: int) -> int {
    (clamp_mbm(signal) + 10030) / 60
}

/// Convert a signal strength in mBm (hundredths of a dBm) to a quality
/// score in [0, 100].
pub fn dbm_level_to_quality(signal: i32) -> (q: u8)
    ensures
        q == quality_spec(signal as int),
        q <= 100,
{
    let clamped: i32 = if signal < -10000 {
        -10000
    } else if signal > -4000 {
        -4000
    } else {
        signal
    };
    let q: i32 = (clamped + 10030) / 60;
    q as u8
}

/// Every signal value, over the whole 32-bit range and beyond, yields a
/// quality inside [0, 100].
pub proof fn lemma_quality_bounds(x: int)
    ensures
        0 <= quality_spec(x) <= 100,
{
}

/// Within the clamped band the quality score never decreases as the
/// signal grows, so a stronger signal never reports a lower quality.
pub proof fn lemma_quality_monotonic(x: int, y: int)
    requires
        -10000 <= x <= y <= -4000,
    ensures
        quality_spec(x) <= quality_spec(y),
{
    assert((x + 10030) / 60 <= (y + 10030) / 60) by (nonlinear_arith)
        requires
            x <= y,
    ;
}

} // verus!
