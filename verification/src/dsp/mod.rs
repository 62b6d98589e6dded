//! Sound sources: the capability they share and its implementations.

use vstd::prelude::*;
use crate::sample::Sample;

pub mod sine;
pub mod source;
pub mod stereo_split;
pub mod wav;

pub use sine::Sine;
pub use source::Source;
pub use stereo_split::StereoSplit;
pub use wav::{as_samples, ByteOrder, WAVProducer};

verus! {

/// A sound source. It yields an endless, predetermined stream of samples and
/// hands it out buffer by buffer; between two buffers nothing is skipped and
/// nothing is repeated.
pub trait Producer: Send {
    /// Whether the state of this source is consistent.
    spec fn wf(&self) -> bool;

    /// Whether this source can fill a buffer of `len` slots.
    spec fn accepts(&self, len: nat) -> bool;

    /// The sample that this source yields `t` slots from now.
    spec fn signal(&self, t: nat) -> Sample;

    /// Whether `after` is this source once it has filled `len` more slots.
    spec fn moves_to(&self, len: nat, after: &Self) -> bool;

    /// Fills every slot of `buffer` with the next samples of this source and
    /// moves the source on by as many slots.
    fn write_samples(&mut self, buffer: &mut [Sample])
        requires
            old(self).wf(),
            old(self).accepts(old(buffer)@.len()),
        ensures
            final(self).wf(),
            old(self).moves_to(old(buffer)@.len(), &*final(self)),
            forall|len: nat| final(self).accepts(len) == old(self).accepts(len),
            final(buffer)@.len() == old(buffer)@.len(),
            forall|i: int|
                0 <= i < old(buffer)@.len() ==> final(buffer)@[i] == old(self).signal(i as nat),
            forall|t: nat| final(self).signal(t) == old(self).signal(t + old(buffer)@.len()),
    ;
}

/// The next `len` samples of a source, as they would fill a buffer.
pub open spec fn upcoming<P: Producer>(source: &P, len: nat) -> Seq<Sample> {
    Seq::new(len, |t: int| source.signal(t as nat))
}

} // verus!
