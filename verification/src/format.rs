//! The negotiated output format and the constants of the requested one.

use std::sync::Arc;
use vstd::prelude::*;
use crate::sample::Sample;

verus! {

/// Sample frequency that is requested from the audio device, in Hz.
pub const SAMPLE_FREQUENCY: u32 = 44_100;

/// Number of frames per buffer that is requested from the audio device.
pub const SAMPLE_COUNT: u16 = 256;

/// Number of channels that is requested from the audio device.
pub const CHANNEL_COUNT: u8 = 2;

/// Number of interleaved slots in one buffer of the requested format.
pub const SAMPLE_BUFFER_SIZE: usize = 512;

/// The format that the audio device settled on. It is fixed before the first
/// buffer is requested and never changes afterwards.
#[derive(Clone, Copy, Debug, PartialEq, Eq, Structural)]
pub struct OutputFormat {
    /// Frames per second.
    pub sample_rate: u32,
    /// Interleaved channels per frame.
    pub channel_count: u8,
    /// Frames per buffer.
    pub buffer_frame_count: u16,
}

impl OutputFormat {
    /// A format is usable when it has a sample rate and a frame has at least
    /// one channel.
    pub open spec fn wf(&self) -> bool {
        self.sample_rate > 0 && self.channel_count > 0
    }

    /// Length in slots of every buffer of this format: frames times channels.
    pub open spec fn spec_buffer_len(&self) -> nat {
        (self.buffer_frame_count as nat) * (self.channel_count as nat)
    }

    /// The format that is requested from the audio device.
    pub fn desired() -> (format: OutputFormat)
        ensures
            format == (OutputFormat {
                sample_rate: SAMPLE_FREQUENCY,
                channel_count: CHANNEL_COUNT,
                buffer_frame_count: SAMPLE_COUNT,
            }),
            format.wf(),
            format.spec_buffer_len() == SAMPLE_BUFFER_SIZE,
    {
        assert(256nat * 2nat == 512) by (nonlinear_arith);
        OutputFormat {
            sample_rate: SAMPLE_FREQUENCY,
            channel_count: CHANNEL_COUNT,
            buffer_frame_count: SAMPLE_COUNT,
        }
    }

    /// Whether the format has a sample rate and a frame has at least one
    /// channel.
    pub fn is_valid(&self) -> (valid: bool)
        ensures
            valid == self.wf(),
    {
        self.sample_rate > 0 && self.channel_count > 0
    }

    /// Length in slots of every buffer of this format.
    pub fn buffer_len(&self) -> (len: usize)
        ensures
            len == self.spec_buffer_len(),
            len <= 0xFF_FFFF,
    {
        let frames: usize = self.buffer_frame_count as usize;
        let channels: usize = self.channel_count as usize;
        assert(frames * channels <= 0xFFFF * 0xFF) by (nonlinear_arith)
            requires
                frames <= 0xFFFF,
                channels <= 0xFF,
        ;
        frames * channels
    }
}

/// Implemented by whatever is to be told the negotiated format. The format
/// is delivered once, before any buffer is requested.
pub trait ReceivesAudioSpec {
    /// Whether the format is still outstanding.
    spec fn awaits_spec(&self) -> bool;

    /// Takes note of the negotiated format. With it comes the waveform
    /// table for tones at its sample rate: one turn of the waveform, at as
    /// many evenly spaced phases as there are samples in a second.
    fn receive_spec(&mut self, spec: OutputFormat, wave: Arc<Vec<Sample>>)
        requires
            old(self).awaits_spec(),
            spec.wf(),
            wave@.len() == spec.sample_rate,
    ;
}

} // verus!
