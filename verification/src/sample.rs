//! Samples and the arithmetic on single samples.

use vstd::prelude::*;

verus! {

/// One signed 32-bit PCM amplitude.
pub type Sample = i32;

/// The sample of a source that has nothing to contribute.
pub const SILENCE: Sample = 0;

/// The volume at which samples pass unchanged. A volume `v` stands for the
/// gain `v / FULL_VOLUME`.
pub const FULL_VOLUME: u16 = 65_535;

/// The sample that has the same low 32 bits as `x`: the one value of the
/// sample range that differs from `x` by a multiple of 2^32.
pub open spec fn wrapped(x: int) -> Sample {
    ((x + 0x8000_0000) % 0x1_0000_0000 - 0x8000_0000) as Sample
}

/// A sample at a volume: the product with the gain, rounded towards zero.
pub open spec fn scaled(x: Sample, volume: u16) -> Sample {
    if x >= 0 {
        ((x * volume) / (FULL_VOLUME as int)) as Sample
    } else {
        (-((-x * volume) / (FULL_VOLUME as int))) as Sample
    }
}

/// Scaling never leaves the sample range, keeps the sign, and never makes a
/// sample louder.
pub proof fn lemma_scaled_bounds(x: Sample, volume: u16)
    ensures
        x >= 0 ==> 0 <= scaled(x, volume) <= x,
        x >= 0 ==> scaled(x, volume) == (x * volume) / (FULL_VOLUME as int),
        x < 0 ==> x <= scaled(x, volume) <= 0,
        x < 0 ==> scaled(x, volume) == -((-x * volume) / (FULL_VOLUME as int)),
{
    let m: int = if x >= 0 { x as int } else { -(x as int) };
    let v: int = volume as int;
    assert(0 <= m * v <= m * 65_535) by (nonlinear_arith)
        requires
            0 <= m,
            0 <= v <= 65_535,
    ;
    assert(0 <= (m * v) / 65_535 <= m) by (nonlinear_arith)
        requires
            0 <= m * v <= m * 65_535,
    ;
    if x >= 0 {
        assert(x * volume == m * v);
    } else {
        assert(-x * volume == m * v);
    }
}

/// Silence stays silence at every volume.
pub proof fn lemma_scaled_silence(volume: u16)
    ensures
        scaled(SILENCE, volume) == SILENCE,
{
    lemma_scaled_bounds(SILENCE, volume);
}

/// At full volume a sample passes unchanged.
pub proof fn lemma_scaled_full(x: Sample)
    ensures
        scaled(x, FULL_VOLUME) == x,
{
    let m: int = if x >= 0 { x as int } else { -(x as int) };
    assert((m * 65_535) / 65_535 == m) by (nonlinear_arith);
    if x >= 0 {
        assert(x * FULL_VOLUME == m * 65_535);
    } else {
        assert(-x * FULL_VOLUME == m * 65_535);
    }
}

/// Applies a volume to a sample.
pub fn scale(x: Sample, volume: u16) -> (y: Sample)
    ensures
        y == scaled(x, volume),
{
    proof {
        lemma_scaled_bounds(x, volume);
    }
    let v: u64 = volume as u64;
    if x >= 0 {
        let m: u64 = x as u64;
        assert(m * v <= 0x7FFF_FFFF * 65_535) by (nonlinear_arith)
            requires
                m <= 0x7FFF_FFFF,
                v <= 65_535,
        ;
        let q: u64 = (m * v) / 65_535;
        q as Sample
    } else {
        let m: u64 = (-(x as i64)) as u64;
        assert(m * v <= 0x8000_0000 * 65_535) by (nonlinear_arith)
            requires
                m <= 0x8000_0000,
                v <= 65_535,
        ;
        let q: u64 = (m * v) / 65_535;
        (-(q as i64)) as Sample
    }
}

/// Adding a sample to a wrapped sum, with wrap-around, gives the wrapped sum
/// of both.
pub proof fn lemma_wrapped_add(sum: int, x: Sample)
    ensures
        vstd::wrapping::i32_specs::wrapping_add(wrapped(sum), x) == wrapped(sum + x),
{
    let w: int = (sum + 0x8000_0000) % 0x1_0000_0000 - 0x8000_0000;
    let q: int = (sum + 0x8000_0000) / 0x1_0000_0000;
    assert(sum + 0x8000_0000 == q * 0x1_0000_0000 + (sum + 0x8000_0000) % 0x1_0000_0000);
    let t: int = sum + x + 0x8000_0000;
    if w + x > 0x7FFF_FFFF {
        assert(t == (q + 1) * 0x1_0000_0000 + (w + x - 0x1_0000_0000 + 0x8000_0000));
        assert(t % 0x1_0000_0000 == w + x - 0x1_0000_0000 + 0x8000_0000);
    } else if w + x < -0x8000_0000 {
        assert(t == (q - 1) * 0x1_0000_0000 + (w + x + 0x1_0000_0000 + 0x8000_0000));
        assert(t % 0x1_0000_0000 == w + x + 0x1_0000_0000 + 0x8000_0000);
    } else {
        assert(t == q * 0x1_0000_0000 + (w + x + 0x8000_0000));
        assert(t % 0x1_0000_0000 == w + x + 0x8000_0000);
    }
}

/// A value of the sample range wraps to itself.
pub proof fn lemma_wrapped_in_range(x: int)
    requires
        -0x8000_0000 <= x <= 0x7FFF_FFFF,
    ensures
        wrapped(x) == x,
{
}

/// Adds a contribution to an accumulated sample. The sum wraps around at the
/// ends of the sample range; nothing is clipped.
pub fn accumulate(acc: Sample, x: Sample) -> (y: Sample)
    ensures
        y == wrapped(acc + x),
{
    proof {
        lemma_wrapped_in_range(acc as int);
        lemma_wrapped_add(acc as int, x);
    }
    acc.wrapping_add(x)
}

} // verus!
