//! The tone oscillator.

use std::sync::Arc;
use vstd::prelude::*;
use vstd::arithmetic::div_mod::{
    lemma_add_mod_noop, lemma_fundamental_div_mod, lemma_fundamental_div_mod_converse,
    lemma_mul_mod_noop_left, lemma_small_mod,
};
use crate::dsp::{upcoming, Producer};
use crate::sample::Sample;

verus! {

/// The sample of a tone `t` slots after phase offset `offset`.
///
/// `wave` holds one turn of the waveform at evenly spaced phases, as many as
/// there are samples in a second: entry `k` is the amplitude at `k /
/// wave.len()` of a turn. A tone of `freq` Hz is at `(offset + t) * freq /
/// wave.len()` turns when `offset + t` samples have gone by; only the
/// fraction of a turn counts.
pub open spec fn tone(wave: Seq<Sample>, freq: nat, offset: nat, t: nat) -> Sample {
    wave[(((offset + t) * freq) % wave.len()) as int]
}

/// A phase offset after `len` more samples. The count stops at the largest
/// value it can hold.
pub open spec fn offset_after(offset: nat, len: nat) -> nat {
    if offset + len <= u64::MAX {
        offset + len
    } else {
        u64::MAX as nat
    }
}

/// A tone oscillator over a waveform table. Its phase offset is the number
/// of samples it has yielded and carries over from one buffer to the next.
pub struct Sine {
    wave: Arc<Vec<Sample>>,
    freq: u32,
    offset: u64,
    index: u32,
}

impl Sine {
    /// The waveform table.
    pub closed spec fn wave(&self) -> Seq<Sample> {
        self.wave@
    }

    /// The frequency of the tone in Hz.
    pub closed spec fn freq(&self) -> nat {
        self.freq as nat
    }

    /// The phase offset: the number of samples yielded so far.
    pub closed spec fn offset(&self) -> nat {
        self.offset as nat
    }

    /// The phase offset modulo the table length, which is all of it that
    /// the samples depend on.
    pub closed spec fn index(&self) -> nat {
        self.index as nat
    }

    /// The oscillator after it has yielded `len` more samples.
    pub closed spec fn advanced(&self, len: nat) -> Sine {
        Sine {
            wave: self.wave,
            freq: self.freq,
            offset: offset_after(self.offset as nat, len) as u64,
            index: ((self.index + len) % (self.wave@.len() as int)) as u32,
        }
    }

    /// What `advanced` does: the phase offset grows by `len`, and nothing
    /// else changes.
    pub proof fn lemma_advanced(&self, len: nat)
        requires
            self.wf(),
        ensures
            self.advanced(len).wf(),
            self.advanced(len).wave() == self.wave(),
            self.advanced(len).freq() == self.freq(),
            self.advanced(len).offset() == offset_after(self.offset(), len),
            self.advanced(len).index() == (self.index() + len) % self.wave().len(),
    {
        let m: int = self.wave@.len() as int;
        if self.offset + len < u64::MAX {
            lemma_mod_add_left(self.offset as int, len as int, m);
        }
    }

    /// While the phase offset has not reached the largest value it can hold,
    /// the samples are those of a tone at that offset.
    pub proof fn lemma_signal(&self, t: nat)
        requires
            self.wf(),
            self.offset() < u64::MAX,
        ensures
            self.signal(t) == tone(self.wave(), self.freq(), self.offset(), t),
    {
        let m: int = self.wave().len() as int;
        lemma_mod_add_left(self.offset() as int, t as int, m);
        lemma_mul_mod_noop_left((self.index() + t) as int, self.freq() as int, m);
        lemma_mul_mod_noop_left((self.offset() + t) as int, self.freq() as int, m);
    }

    /// A tone of `freq` Hz at `sample_freq` samples per second, starting at
    /// phase offset zero.
    pub fn new(sample_freq: u32, freq: u32, wave: Arc<Vec<Sample>>) -> (sine: Sine)
        requires
            sample_freq > 0,
            wave@.len() == sample_freq,
        ensures
            sine.wf(),
            sine.wave() == wave@,
            sine.freq() == freq,
            sine.offset() == 0,
            sine.index() == 0,
    {
        proof {
            lemma_small_mod(0, sample_freq as nat);
        }
        Sine { wave, freq, offset: 0, index: 0 }
    }

    /// The current phase offset.
    pub fn phase_offset(&self) -> (offset: u64)
        ensures
            offset == self.offset(),
    {
        self.offset
    }
}

/// Reducing one term of a sum modulo `m` does not change the sum modulo `m`.
pub proof fn lemma_mod_add_left(x: int, y: int, m: int)
    requires
        m > 0,
    ensures
        (x % m + y) % m == (x + y) % m,
{
    lemma_add_mod_noop(x, y, m);
    lemma_add_mod_noop(x % m, y, m);
    lemma_small_mod((x % m) as nat, m as nat);
}

/// Moving on by `len` samples and then looking `t` ahead is looking `len +
/// t` ahead.
pub proof fn lemma_tone_shift(wave: Seq<Sample>, freq: nat, offset: nat, len: nat, t: nat)
    requires
        wave.len() > 0,
    ensures
        tone(wave, freq, (offset + len) % wave.len(), t) == tone(wave, freq, offset, t + len),
{
    let m: int = wave.len() as int;
    let late: int = (offset + len) as int;
    let moved: int = late % m;
    assert(moved == ((offset + len) % wave.len()) as int);
    lemma_mod_add_left(late, t as int, m);
    assert(((moved + t) * freq) % m == ((late + t) * freq) % m) by {
        lemma_mul_mod_noop_left(moved + t, freq as int, m);
        lemma_mul_mod_noop_left(late + t, freq as int, m);
    }
    assert(offset + (t + len) == late + t);
}

/// Phase continuity: one buffer of `2 * len` samples holds, sample for
/// sample, what two buffers of `len` samples hold when they are filled one
/// after the other, and leaves the oscillator in the same state.
pub proof fn lemma_phase_continuity(sine: Sine, len: nat)
    requires
        sine.wf(),
    ensures
        upcoming(&sine, 2 * len) == upcoming(&sine, len) + upcoming(&sine.advanced(len), len),
        sine.advanced(len).advanced(len) == sine.advanced(2 * len),
{
    let whole = upcoming(&sine, 2 * len);
    let halves = upcoming(&sine, len) + upcoming(&sine.advanced(len), len);
    sine.lemma_advanced(len);
    assert forall|i: int| 0 <= i < whole.len() implies whole[i] == halves[i] by {
        if i >= len {
            lemma_tone_shift(sine.wave(), sine.freq(), sine.index(), len, (i - len) as nat);
        }
    }
    assert(whole =~= halves);
    let m: int = sine.wave().len() as int;
    lemma_mod_add_left((sine.index() + len) as int, len as int, m);
    assert(sine.index() + len + len == sine.index() + 2 * len);
}

/// One step of a counter that runs modulo `m`.
proof fn lemma_step_mod(x: int, m: int)
    requires
        m > 0,
    ensures
        x % m + 1 == m ==> (x + 1) % m == 0,
        x % m + 1 != m ==> (x + 1) % m == x % m + 1,
{
    lemma_fundamental_div_mod(x, m);
    let q: int = x / m;
    let r: int = x % m;
    assert(m * q == q * m) by (nonlinear_arith);
    if r + 1 == m {
        assert(x + 1 == (q + 1) * m + 0) by (nonlinear_arith)
            requires
                x == q * m + r,
                r + 1 == m,
        ;
        lemma_fundamental_div_mod_converse(x + 1, m, q + 1, 0);
    } else {
        lemma_fundamental_div_mod_converse(x + 1, m, q, r + 1);
    }
}

impl Producer for Sine {
    open spec fn wf(&self) -> bool {
        &&& 0 < self.wave().len() <= u32::MAX
        &&& self.index() < self.wave().len()
        &&& self.offset() < u64::MAX ==> self.index() == self.offset() % self.wave().len()
    }

    open spec fn accepts(&self, len: nat) -> bool {
        true
    }

    open spec fn signal(&self, t: nat) -> Sample {
        tone(self.wave(), self.freq(), self.index(), t)
    }

    open spec fn moves_to(&self, len: nat, after: &Sine) -> bool {
        *after == self.advanced(len)
    }

    fn write_samples(&mut self, buffer: &mut [Sample])
        ensures
            final(self).wave() == old(self).wave(),
            final(self).freq() == old(self).freq(),
            final(self).offset() == offset_after(old(self).offset(), old(buffer)@.len()),
            old(self).offset() < u64::MAX ==> forall|i: int|
                0 <= i < old(buffer)@.len() ==> final(buffer)@[i] == tone(
                    old(self).wave(),
                    old(self).freq(),
                    old(self).offset(),
                    i as nat,
                ),
    {
        let n: usize = buffer.len();
        let len: u64 = self.wave.len() as u64;
        let freq: u64 = self.freq as u64;
        let mut cur: u64 = self.index as u64;
        let mut i: usize = 0;
        proof {
            lemma_small_mod(cur as nat, len as nat);
            old(self).lemma_advanced(n as nat);
        }
        while i < n
            invariant
                n == buffer@.len(),
                buffer@.len() == old(buffer)@.len(),
                i <= n,
                *self == *old(self),
                old(self).wf(),
                len == self.wave@.len(),
                freq == self.freq,
                cur < len,
                cur == (old(self).index + i) % (len as int),
                forall|k: int| 0 <= k < i ==> buffer@[k] == old(self).signal(k as nat),
            decreases n - i,
        {
            assert(cur * freq <= 0xFFFF_FFFF * 0xFFFF_FFFF) by (nonlinear_arith)
                requires
                    cur <= 0xFFFF_FFFF,
                    freq <= 0xFFFF_FFFF,
            ;
            let at: u64 = (cur * freq) % len;
            proof {
                lemma_mul_mod_noop_left((old(self).index + i) as int, freq as int, len as int);
            }
            buffer[i] = self.wave[at as usize];
            proof {
                lemma_step_mod((old(self).index + i) as int, len as int);
            }
            cur = if cur + 1 == len { 0 } else { cur + 1 };
            i += 1;
        }
        let count: u64 = n as u64;
        self.index = cur as u32;
        self.offset = if count <= u64::MAX - self.offset {
            self.offset + count
        } else {
            u64::MAX
        };
        proof {
            assert forall|t: nat| self.signal(t) == old(self).signal(t + n as nat) by {
                lemma_tone_shift(self.wave(), self.freq(), old(self).index(), n as nat, t);
            }
            if old(self).offset() < u64::MAX {
                assert forall|i: int| 0 <= i < n implies buffer@[i] == tone(
                    old(self).wave(),
                    old(self).freq(),
                    old(self).offset(),
                    i as nat,
                ) by {
                    old(self).lemma_signal(i as nat);
                }
            }
        }
    }
}

} // verus!
