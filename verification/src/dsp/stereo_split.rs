//! The channel upmixer.

use vstd::prelude::*;
use vstd::arithmetic::div_mod::{lemma_fundamental_div_mod, lemma_fundamental_div_mod_converse};
use crate::dsp::{upcoming, Producer};
use crate::sample::{Sample, SILENCE};

verus! {

/// Spreads a source that yields one sample per frame over the interleaved
/// channels of the output: every channel of a frame gets the frame's sample.
pub struct StereoSplit<T: Producer> {
    source: T,
    channels: usize,
    frames: Vec<Sample>,
}

impl<T: Producer> StereoSplit<T> {
    /// The source of the frames.
    pub closed spec fn source(&self) -> T {
        self.source
    }

    /// The number of channels in a frame.
    pub closed spec fn channels(&self) -> nat {
        self.channels as nat
    }

    /// An upmixer to two channels.
    pub fn new(source: T) -> (split: StereoSplit<T>)
        ensures
            split.source() == source,
            split.channels() == 2,
    {
        StereoSplit { source, channels: 2, frames: Vec::new() }
    }

    /// An upmixer to `channel_count` channels.
    pub fn with_channels(source: T, channel_count: usize) -> (split: StereoSplit<T>)
        requires
            channel_count > 0,
        ensures
            split.source() == source,
            split.channels() == channel_count,
    {
        StereoSplit { source, channels: channel_count, frames: Vec::new() }
    }
}

/// Whole frames can be split off a slot index: with `len` a multiple of
/// `channels`, slot `t + len` lies `len / channels` frames after slot `t`.
pub proof fn lemma_frame_shift(t: int, len: int, channels: int)
    requires
        0 <= t,
        0 <= len,
        channels > 0,
        len % channels == 0,
    ensures
        (t + len) / channels == t / channels + len / channels,
{
    lemma_fundamental_div_mod(t, channels);
    lemma_fundamental_div_mod(len, channels);
    let q: int = t / channels + len / channels;
    assert(t + len == q * channels + t % channels) by (nonlinear_arith)
        requires
            t == channels * (t / channels) + t % channels,
            len == channels * (len / channels) + len % channels,
            len % channels == 0,
            q == t / channels + len / channels,
    ;
    lemma_fundamental_div_mod_converse(t + len, channels, q, t % channels);
}

/// A slot of a buffer of whole frames lies in one of its frames.
pub proof fn lemma_frame_of_slot(j: int, len: int, channels: int)
    requires
        0 <= j < len,
        channels > 0,
        len % channels == 0,
    ensures
        0 <= j / channels < len / channels,
{
    lemma_fundamental_div_mod(j, channels);
    lemma_fundamental_div_mod(len, channels);
    assert(0 <= j / channels < len / channels) by (nonlinear_arith)
        requires
            0 <= j < len,
            channels > 0,
            j == channels * (j / channels) + j % channels,
            0 <= j % channels < channels,
            len == channels * (len / channels) + len % channels,
            len % channels == 0,
    ;
}

impl<T: Producer> Producer for StereoSplit<T> {
    open spec fn wf(&self) -> bool {
        self.channels() > 0 && self.source().wf()
    }

    open spec fn accepts(&self, len: nat) -> bool {
        len % self.channels() == 0 && self.source().accepts(len / self.channels())
    }

    open spec fn signal(&self, t: nat) -> Sample {
        self.source().signal(t / self.channels())
    }

    open spec fn moves_to(&self, len: nat, after: &StereoSplit<T>) -> bool {
        &&& after.channels() == self.channels()
        &&& self.source().moves_to(len / self.channels(), &after.source())
    }

    fn write_samples(&mut self, buffer: &mut [Sample])
        ensures
            final(self).channels() == old(self).channels(),
            forall|j: int|
                0 <= j < old(buffer)@.len() ==> final(buffer)@[j] == upcoming(
                    &old(self).source(),
                    old(buffer)@.len() / old(self).channels(),
                )[j / (old(self).channels() as int)],
    {
        let n: usize = buffer.len();
        let channels: usize = self.channels;
        let count: usize = n / channels;
        self.frames.resize(count, SILENCE);
        self.source.write_samples(self.frames.as_mut_slice());
        let mut j: usize = 0;
        while j < n
            invariant
                n == buffer@.len(),
                buffer@.len() == old(buffer)@.len(),
                j <= n,
                channels == self.channels,
                channels == old(self).channels,
                channels > 0,
                n % channels == 0,
                count == n / channels,
                self.frames@.len() == count,
                forall|k: int|
                    0 <= k < count ==> self.frames@[k] == old(self).source.signal(k as nat),
                forall|k: int| 0 <= k < j ==> buffer@[k] == old(self).signal(k as nat),
            decreases n - j,
        {
            proof {
                lemma_frame_of_slot(j as int, n as int, channels as int);
            }
            let frame: usize = j / channels;
            buffer[j] = self.frames[frame];
            assert(buffer@[j as int] == old(self).signal(j as nat)) by {
                assert(self.frames@[frame as int] == old(self).source.signal(frame as nat));
                assert((j as nat) / old(self).channels() == frame as nat);
            }
            j += 1;
        }
        proof {
            assert forall|t: nat| self.signal(t) == old(self).signal(t + n as nat) by {
                lemma_frame_shift(t as int, n as int, channels as int);
            }
            assert forall|len: nat| self.accepts(len) == old(self).accepts(len) by {}
            assert forall|k: int| 0 <= k < n implies buffer@[k] == upcoming(
                &old(self).source(),
                (n / channels) as nat,
            )[k / (channels as int)] by {
                lemma_frame_of_slot(k, n as int, channels as int);
            }
        }
    }
}

} // verus!
