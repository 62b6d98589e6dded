//! Playback of decoded sample data.

use vstd::prelude::*;
use crate::dsp::{upcoming, Producer};
use crate::sample::{lemma_scaled_silence, scale, scaled, Sample, SILENCE};

verus! {

/// The order in which the four bytes of a sample follow each other.
#[derive(Clone, Copy, Debug, PartialEq, Eq, Structural)]
pub enum ByteOrder {
    /// Least significant byte first.
    LittleEndian,
    /// Most significant byte first.
    BigEndian,
}

/// The sample with the given bytes, `b0` being the least significant: the
/// two's-complement reading of the 32 bits.
pub open spec fn sample_of(b0: u8, b1: u8, b2: u8, b3: u8) -> Sample {
    let bits: int = b0 + 0x100 * b1 + 0x1_0000 * b2 + 0x100_0000 * b3;
    if bits < 0x8000_0000 {
        bits as Sample
    } else {
        (bits - 0x1_0000_0000) as Sample
    }
}

/// The `k`-th sample of a stream of bytes in which every four bytes hold one
/// sample.
pub open spec fn sample_at(bytes: Seq<u8>, order: ByteOrder, k: int) -> Sample {
    match order {
        ByteOrder::LittleEndian => sample_of(
            bytes[4 * k],
            bytes[4 * k + 1],
            bytes[4 * k + 2],
            bytes[4 * k + 3],
        ),
        ByteOrder::BigEndian => sample_of(
            bytes[4 * k + 3],
            bytes[4 * k + 2],
            bytes[4 * k + 1],
            bytes[4 * k],
        ),
    }
}

/// Assembles a sample from its bytes, least significant first.
fn sample_from(b0: u8, b1: u8, b2: u8, b3: u8) -> (sample: Sample)
    ensures
        sample == sample_of(b0, b1, b2, b3),
{
    let low: u32 = (b0 as u32) + 0x100 * (b1 as u32);
    let high: u32 = (b2 as u32) + 0x100 * (b3 as u32);
    let bits: u32 = low + 0x1_0000 * high;
    if bits < 0x8000_0000 {
        bits as Sample
    } else {
        ((bits - 0x8000_0000) as Sample) + Sample::MIN
    }
}

/// Reads a stream of bytes as samples, four bytes to a sample.
pub fn as_samples(bytes: &[u8], order: ByteOrder) -> (samples: Vec<Sample>)
    requires
        bytes@.len() % 4 == 0,
    ensures
        samples@.len() == bytes@.len() / 4,
        forall|k: int| 0 <= k < samples@.len() ==> samples@[k] == sample_at(bytes@, order, k),
{
    let size: usize = bytes.len();
    let count: usize = size / 4;
    let mut samples: Vec<Sample> = Vec::with_capacity(count);
    let mut k: usize = 0;
    while k < count
        invariant
            size == bytes@.len(),
            count == size / 4,
            size % 4 == 0,
            k <= count,
            samples@.len() == k,
            forall|j: int| 0 <= j < k ==> samples@[j] == sample_at(bytes@, order, j),
        decreases count - k,
    {
        let at: usize = 4 * k;
        let sample = match order {
            ByteOrder::LittleEndian => sample_from(
                bytes[at],
                bytes[at + 1],
                bytes[at + 2],
                bytes[at + 3],
            ),
            ByteOrder::BigEndian => sample_from(
                bytes[at + 3],
                bytes[at + 2],
                bytes[at + 1],
                bytes[at],
            ),
        };
        samples.push(sample);
        k += 1;
    }
    samples
}

/// The sample of a playback `t` slots after read cursor `cursor`: what the
/// data hold there, or silence where the data have ended, at the volume.
pub open spec fn playback(data: Seq<Sample>, volume: u16, cursor: nat, t: nat) -> Sample {
    scaled(
        if cursor + t < data.len() {
            data[(cursor + t) as int]
        } else {
            SILENCE
        },
        volume,
    )
}

/// Plays decoded sample data once, at a volume. The read cursor moves by one
/// for every slot filled, whatever the number of channels: the data are
/// interleaved as the output is.
pub struct WAVProducer {
    data: Vec<Sample>,
    pos: usize,
    volume: u16,
}

impl WAVProducer {
    /// The decoded data.
    pub closed spec fn data(&self) -> Seq<Sample> {
        self.data@
    }

    /// The read cursor.
    pub closed spec fn cursor(&self) -> nat {
        self.pos as nat
    }

    /// The volume.
    pub closed spec fn volume(&self) -> u16 {
        self.volume
    }

    /// Whether the read cursor has reached the end of the data.
    pub open spec fn exhausted(&self) -> bool {
        self.cursor() >= self.data().len()
    }

    /// The playback after `len` more slots. The read cursor stops at the
    /// largest value it can hold, which lies at or past the end of any data.
    pub closed spec fn advanced(&self, len: nat) -> WAVProducer {
        WAVProducer {
            data: self.data,
            pos: if self.pos + len <= usize::MAX {
                (self.pos + len) as usize
            } else {
                usize::MAX
            },
            volume: self.volume,
        }
    }

    /// What `advanced` does: only the read cursor moves.
    pub proof fn lemma_advanced(&self, len: nat)
        ensures
            self.advanced(len).data() == self.data(),
            self.advanced(len).volume() == self.volume(),
            self.advanced(len).cursor() == if self.cursor() + len <= usize::MAX {
                self.cursor() + len
            } else {
                usize::MAX as nat
            },
    {
    }

    /// A playback of `data` from its beginning.
    pub fn new(data: Vec<Sample>, volume: u16) -> (producer: WAVProducer)
        ensures
            producer.data() == data@,
            producer.volume() == volume,
            producer.cursor() == 0,
    {
        WAVProducer { data, pos: 0, volume }
    }

    /// Starts the playback over.
    pub fn restart(&mut self)
        ensures
            final(self).data() == old(self).data(),
            final(self).volume() == old(self).volume(),
            final(self).cursor() == 0,
    {
        self.pos = 0;
    }

    /// The current read cursor.
    pub fn read_cursor(&self) -> (cursor: usize)
        ensures
            cursor == self.cursor(),
    {
        self.pos
    }
}

/// Once the read cursor has reached the end of the data, every further
/// buffer is all silence, and the playback stays at its end.
pub proof fn lemma_exhausted_stays_silent(producer: WAVProducer, len: nat)
    requires
        producer.exhausted(),
    ensures
        forall|i: int| 0 <= i < len ==> upcoming(&producer, len)[i] == SILENCE,
        producer.advanced(len).exhausted(),
{
    producer.lemma_advanced(len);
    vstd::std_specs::vec::axiom_spec_len(&producer.data);
    lemma_scaled_silence(producer.volume());
}

impl Producer for WAVProducer {
    open spec fn wf(&self) -> bool {
        true
    }

    open spec fn accepts(&self, len: nat) -> bool {
        true
    }

    open spec fn signal(&self, t: nat) -> Sample {
        playback(self.data(), self.volume(), self.cursor(), t)
    }

    open spec fn moves_to(&self, len: nat, after: &WAVProducer) -> bool {
        *after == self.advanced(len)
    }

    fn write_samples(&mut self, buffer: &mut [Sample])
        ensures
            final(self).data() == old(self).data(),
            final(self).volume() == old(self).volume(),
            final(self).cursor() == if old(self).cursor() + old(buffer)@.len() <= usize::MAX {
                old(self).cursor() + old(buffer)@.len()
            } else {
                usize::MAX as nat
            },
            old(self).exhausted() ==> final(self).exhausted() && forall|i: int|
                0 <= i < old(buffer)@.len() ==> final(buffer)@[i] == SILENCE,
    {
        let n: usize = buffer.len();
        let len: usize = self.data.len();
        let start: usize = self.pos;
        let left: usize = if start < len {
            len - start
        } else {
            0
        };
        let mut i: usize = 0;
        proof {
            lemma_scaled_silence(self.volume);
        }
        while i < n
            invariant
                n == buffer@.len(),
                buffer@.len() == old(buffer)@.len(),
                i <= n,
                *self == *old(self),
                scaled(SILENCE, self.volume) == SILENCE,
                len == self.data@.len(),
                start == self.pos,
                left == if start < len { len - start } else { 0 },
                forall|k: int| 0 <= k < i ==> buffer@[k] == old(self).signal(k as nat),
            decreases n - i,
        {
            if i < left {
                buffer[i] = scale(self.data[start + i], self.volume);
            } else {
                buffer[i] = SILENCE;
            }
            i += 1;
        }
        self.pos = if n <= usize::MAX - start {
            start + n
        } else {
            usize::MAX
        };
    }
}

} // verus!
