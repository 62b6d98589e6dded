//! The closed set of sources that the engine itself creates.

use vstd::prelude::*;
use crate::dsp::{Producer, Sine, StereoSplit, WAVProducer};
use crate::sample::Sample;

verus! {

/// An active sound source of the engine.
pub enum Source {
    /// A tone, spread over the channels of the output.
    Tone(StereoSplit<Sine>),
    /// A one-shot playback of decoded sample data.
    Sample(WAVProducer),
}

impl Producer for Source {
    open spec fn wf(&self) -> bool {
        match self {
            Source::Tone(split) => split.wf(),
            Source::Sample(producer) => producer.wf(),
        }
    }

    open spec fn accepts(&self, len: nat) -> bool {
        match self {
            Source::Tone(split) => split.accepts(len),
            Source::Sample(producer) => producer.accepts(len),
        }
    }

    open spec fn signal(&self, t: nat) -> Sample {
        match self {
            Source::Tone(split) => split.signal(t),
            Source::Sample(producer) => producer.signal(t),
        }
    }

    open spec fn moves_to(&self, len: nat, after: &Source) -> bool {
        match (*self, *after) {
            (Source::Tone(before), Source::Tone(split)) => before.moves_to(len, &split),
            (Source::Sample(before), Source::Sample(producer)) => before.moves_to(len, &producer),
            _ => false,
        }
    }

    fn write_samples(&mut self, buffer: &mut [Sample])
    {
        match self {
            Source::Tone(split) => split.write_samples(buffer),
            Source::Sample(producer) => producer.write_samples(buffer),
        }
    }
}

} // verus!
