//! The mixing engine.

use std::sync::mpsc::Receiver;
use std::sync::Arc;
use vstd::prelude::*;
use vstd::seq_lib::group_to_multiset_ensures;
use crate::dsp::sine::tone;
use crate::dsp::wav::playback;
use crate::dsp::{Producer, Sine, Source, StereoSplit, WAVProducer};
use crate::format::{OutputFormat, ReceivesAudioSpec};
use crate::inbox::try_take;
use crate::midi::{MidiMessage, MidiMessageKind};
use crate::mix::{
    lemma_mixed_empty, lemma_mixed_push, lemma_mixed_swap, lemma_total_push, lemma_total_remove,
    mixed, total,
};
use crate::sample::{accumulate, Sample, FULL_VOLUME, SILENCE};

verus! {

/// Frequency of the reference tone in Hz.
pub const REFERENCE_TONE: u32 = 440;

/// A request from the user interface for one playback of the sample.
pub struct GUIEvent {}

/// The sample of the reference tone `t` slots after its start, on an output
/// of `channels` channels: all slots of a frame hold the frame's sample.
pub open spec fn reference_tone(wave: Seq<Sample>, channels: nat, t: nat) -> Sample {
    tone(wave, REFERENCE_TONE as nat, 0, t / channels)
}

/// Whether a source is a playback of `data` at `volume` with its read cursor
/// at `cursor`.
pub open spec fn is_playback(source: Source, data: Seq<Sample>, volume: u16, cursor: nat) -> bool {
    source matches Source::Sample(producer) && producer.data() == data && producer.volume()
        == volume && producer.cursor() == cursor
}

/// Whether a source is the reference tone over `wave`, spread over
/// `channels` channels, with its phase offset at `offset`.
pub open spec fn is_reference_tone(
    source: Source,
    wave: Seq<Sample>,
    channels: nat,
    offset: nat,
) -> bool {
    source matches Source::Tone(split) && split.channels() == channels && split.source().wave()
        == wave && split.source().freq() == REFERENCE_TONE && split.source().offset() == offset
}

/// Whether a MIDI event starts a tone. Only a key press does.
pub open spec fn starts_tone(midi: Option<MidiMessage>) -> bool {
    midi matches Some(message) && message.kind == MidiMessageKind::KeyPress
}

/// What some sources contribute to the slot that lies `t` slots ahead, in
/// the order of the sources.
pub open spec fn column(sources: Seq<Source>, t: nat) -> Seq<Sample> {
    Seq::new(sources.len(), |k: int| sources[k].signal(t))
}

/// The data of a triggered playback, if one was triggered.
pub open spec fn data_of(sample: Option<Vec<Sample>>) -> Option<Seq<Sample>> {
    match sample {
        Some(data) => Some(data@),
        None => None,
    }
}

/// What enters the slot that lies `t` slots ahead in a callback: the
/// contributions of the sources that were active before, then that of the
/// playback that was just triggered, if any, then that of the tone that was
/// just started, if any.
pub open spec fn entering(
    sources: Seq<Source>,
    wave: Seq<Sample>,
    channels: nat,
    sample: Option<Seq<Sample>>,
    midi: Option<MidiMessage>,
    t: nat,
) -> Seq<Sample> {
    let before = column(sources, t);
    let triggered = match sample {
        Some(data) => before.push(playback(data, FULL_VOLUME, 0, t)),
        None => before,
    };
    if starts_tone(midi) {
        triggered.push(reference_tone(wave, channels, t))
    } else {
        triggered
    }
}

/// Mixing is commutative: two sources give the same mix whichever of them
/// comes first.
pub proof fn lemma_mix_swap(a: Source, b: Source, t: nat)
    ensures
        mixed(column(seq![a, b], t)) == mixed(column(seq![b, a], t)),
{
    lemma_mixed_swap(a.signal(t), b.signal(t));
    assert(column(seq![a, b], t) =~= seq![a.signal(t), b.signal(t)]);
    assert(column(seq![b, a], t) =~= seq![b.signal(t), a.signal(t)]);
}

/// Mixing does not depend on the order of the sources: the same sources in
/// any order give the same mix in every slot.
pub proof fn lemma_mix_order(first: Seq<Source>, second: Seq<Source>, t: nat)
    requires
        first.to_multiset() == second.to_multiset(),
    ensures
        total(column(first, t)) == total(column(second, t)),
        mixed(column(first, t)) == mixed(column(second, t)),
    decreases first.len(),
{
    broadcast use group_to_multiset_ensures;

    if first.len() == 0 {
        assert(second.to_multiset().len() == 0);
        assert(column(first, t) =~= column(second, t));
    } else {
        let x = first.last();
        assert(first.contains(x));
        assert(second.to_multiset().count(x) > 0);
        let i = second.index_of(x);
        assert(first.drop_last() =~= first.remove(first.len() - 1));
        lemma_mix_order(first.drop_last(), second.remove(i), t);
        assert(column(first, t) =~= column(first.drop_last(), t).push(x.signal(t)));
        lemma_total_push(column(first.drop_last(), t), x.signal(t));
        assert(column(second, t).remove(i) =~= column(second.remove(i), t));
        lemma_total_remove(column(second, t), i);
    }
}

/// Sources that all fit a buffer length still do when one more that fits has
/// been added at the end.
proof fn lemma_newest_fits(before: Seq<Source>, after: Seq<Source>, len: nat)
    requires
        after.len() == before.len() + 1,
        after.drop_last() == before,
        forall|k: int|
            0 <= k < before.len() ==> (#[trigger] before[k]).wf() && before[k].accepts(len),
        after.last().wf(),
        after.last().accepts(len),
    ensures
        forall|k: int| 0 <= k < after.len() ==> (#[trigger] after[k]).wf() && after[k].accepts(len),
{
    assert forall|k: int| 0 <= k < after.len() implies (#[trigger] after[k]).wf()
        && after[k].accepts(len) by {
        if k < before.len() {
            assert(after[k] == after.drop_last()[k]);
        }
    }
}

/// The mixing engine. It owns the negotiated format, the two inboxes and the
/// active sources. Sources are only ever added, at the end.
pub struct Device {
    audio_spec: Option<OutputFormat>,
    midi_receiver: Receiver<MidiMessage>,
    gui_receiver: Receiver<GUIEvent>,
    producers: Vec<Source>,
    wave: Arc<Vec<Sample>>,
    mixing_buffer: Vec<Sample>,
}

impl Device {
    /// The negotiated format, once it has been received.
    pub closed spec fn format(&self) -> Option<OutputFormat> {
        self.audio_spec
    }

    /// The active sources, oldest first.
    pub closed spec fn sources(&self) -> Seq<Source> {
        self.producers@
    }

    /// The waveform table of the reference tone.
    pub closed spec fn wave(&self) -> Seq<Sample> {
        self.wave@
    }

    /// Length of the buffer in which single contributions are taken.
    pub closed spec fn scratch_len(&self) -> nat {
        self.mixing_buffer@.len()
    }

    /// Length that every output buffer must have. Zero while no format has
    /// been received.
    pub open spec fn buffer_len(&self) -> nat {
        match self.format() {
            Some(format) => format.spec_buffer_len(),
            None => 0,
        }
    }

    /// Number of frames in every output buffer. Zero while no format has
    /// been received.
    pub open spec fn frames(&self) -> nat {
        match self.format() {
            Some(format) => format.buffer_frame_count as nat,
            None => 0,
        }
    }

    /// Number of channels of the output. Zero while no format has been
    /// received.
    pub open spec fn channels(&self) -> nat {
        match self.format() {
            Some(format) => format.channel_count as nat,
            None => 0,
        }
    }

    /// Whether the format has been received, so that buffers can be filled.
    pub open spec fn running(&self) -> bool {
        self.format() is Some
    }

    /// The engine is consistent: until the format is received there are no
    /// sources; from then on the waveform table spans one second at the
    /// negotiated sample rate, and every source can fill a buffer of the
    /// negotiated length.
    pub open spec fn wf(&self) -> bool {
        match self.format() {
            Some(format) => {
                &&& format.wf()
                &&& self.wave().len() == format.sample_rate
                &&& self.scratch_len() == format.spec_buffer_len()
                &&& forall|k: int|
                    0 <= k < self.sources().len() ==> (#[trigger] self.sources()[k]).wf()
                        && self.sources()[k].accepts(format.spec_buffer_len())
            },
            None => self.sources().len() == 0,
        }
    }

    /// An engine without a format and without sources.
    pub fn new(midi_receiver: Receiver<MidiMessage>, gui_receiver: Receiver<GUIEvent>) -> (device:
        Device)
        ensures
            device.wf(),
            !device.running(),
            device.sources().len() == 0,
    {
        Device {
            audio_spec: None,
            midi_receiver,
            gui_receiver,
            producers: Vec::new(),
            wave: Arc::new(Vec::new()),
            mixing_buffer: Vec::new(),
        }
    }

    /// The negotiated format, once it has been received.
    pub fn audio_spec(&self) -> (format: Option<OutputFormat>)
        ensures
            format == self.format(),
    {
        self.audio_spec
    }

    /// The number of active sources.
    pub fn source_count(&self) -> (count: usize)
        ensures
            count == self.sources().len(),
    {
        self.producers.len()
    }

    /// Adds a playback of `data`, at full volume and from its beginning, as
    /// the newest source.
    pub fn trigger(&mut self, data: Vec<Sample>)
        requires
            old(self).wf(),
            old(self).running(),
        ensures
            final(self).wf(),
            final(self).format() == old(self).format(),
            final(self).wave() == old(self).wave(),
            final(self).sources().len() == old(self).sources().len() + 1,
            final(self).sources().drop_last() == old(self).sources(),
            is_playback(final(self).sources().last(), data@, FULL_VOLUME, 0),
            forall|t: nat|
                final(self).sources().last().signal(t) == playback(data@, FULL_VOLUME, 0, t),
    {
        let producer = WAVProducer::new(data, FULL_VOLUME);
        self.producers.push(Source::Sample(producer));
        proof {
            assert(self.producers@.drop_last() =~= old(self).producers@);
            lemma_newest_fits(old(self).sources(), self.sources(), self.buffer_len());
        }
    }

    /// Reacts to a MIDI event. A key press adds the reference tone, spread
    /// over the channels of the output, as the newest source; a key release
    /// changes nothing.
    pub fn handle_midi(&mut self, message: MidiMessage)
        requires
            old(self).wf(),
            old(self).running(),
        ensures
            final(self).wf(),
            final(self).format() == old(self).format(),
            final(self).wave() == old(self).wave(),
            !starts_tone(Some(message)) ==> final(self).sources() == old(self).sources(),
            starts_tone(Some(message)) ==> {
                &&& final(self).sources().len() == old(self).sources().len() + 1
                &&& final(self).sources().drop_last() == old(self).sources()
                &&& is_reference_tone(
                    final(self).sources().last(),
                    old(self).wave(),
                    old(self).channels(),
                    0,
                )
                &&& forall|t: nat|
                    final(self).sources().last().signal(t) == reference_tone(
                        old(self).wave(),
                        old(self).channels(),
                        t,
                    )
            },
    {
        if message.is_key_press() {
            let format = self.audio_spec.unwrap();
            let sine = Sine::new(format.sample_rate, REFERENCE_TONE, Arc::clone(&self.wave));
            let split = StereoSplit::with_channels(sine, format.channel_count as usize);
            proof {
                let len: int = format.spec_buffer_len() as int;
                let channels: int = format.channel_count as int;
                assert(len % channels == 0) by (nonlinear_arith)
                    requires
                        len == format.buffer_frame_count * channels,
                        channels > 0,
                ;
            }
            self.producers.push(Source::Tone(split));
            proof {
                assert(self.producers@.drop_last() =~= old(self).producers@);
                lemma_newest_fits(old(self).sources(), self.sources(), self.buffer_len());
            }
        }
    }

    /// Fills `out` with the mix of the next buffer of every active source:
    /// each slot holds the wrapped sum of what the sources contribute to it.
    /// Every source moves on by one buffer. Without sources `out` is silent.
    pub fn mix(&mut self, out: &mut [Sample])
        requires
            old(self).wf(),
            old(self).running(),
            old(out)@.len() == old(self).buffer_len(),
        ensures
            final(self).wf(),
            final(self).format() == old(self).format(),
            final(self).wave() == old(self).wave(),
            final(self).sources().len() == old(self).sources().len(),
            forall|k: int|
                0 <= k < old(self).sources().len() ==> old(self).sources()[k].moves_to(
                    old(self).buffer_len(),
                    &#[trigger] final(self).sources()[k],
                ),
            forall|k: int, t: nat|
                0 <= k < old(self).sources().len() ==> #[trigger] final(self).sources()[k].signal(t)
                    == old(self).sources()[k].signal(t + old(self).buffer_len()),
            final(out)@.len() == old(out)@.len(),
            forall|i: int|
                0 <= i < old(out)@.len() ==> #[trigger] final(out)@[i] == mixed(
                    column(old(self).sources(), i as nat),
                ),
    {
        let n: usize = out.len();
        let mut i: usize = 0;
        while i < n
            invariant
                n == out@.len(),
                i <= n,
                forall|j: int| 0 <= j < i ==> out@[j] == SILENCE,
            decreases n - i,
        {
            out[i] = SILENCE;
            i += 1;
        }
        let count: usize = self.producers.len();
        let mut k: usize = 0;
        proof {
            lemma_mixed_empty();
            assert forall|j: int| 0 <= j < n implies out@[j] == mixed(
                column(old(self).sources(), j as nat).take(0),
            ) by {
                assert(column(old(self).sources(), j as nat).take(0) =~= Seq::<Sample>::empty());
            }
        }
        while k < count
            invariant
                n == out@.len(),
                n == old(self).buffer_len(),
                k <= count,
                count == self.producers@.len(),
                count == old(self).producers@.len(),
                self.audio_spec == old(self).audio_spec,
                self.wave == old(self).wave,
                self.mixing_buffer@.len() == n,
                forall|j: int|
                    0 <= j < count ==> (#[trigger] self.producers@[j]).wf()
                        && self.producers@[j].accepts(n as nat),
                forall|j: int|
                    0 <= j < k ==> old(self).producers@[j].moves_to(
                        n as nat,
                        &#[trigger] self.producers@[j],
                    ),
                forall|j: int, t: nat|
                    0 <= j < k ==> #[trigger] self.producers@[j].signal(t) == old(
                        self,
                    ).producers@[j].signal(t + n as nat),
                forall|j: int| k <= j < count ==> self.producers@[j] == old(self).producers@[j],
                forall|j: int|
                    0 <= j < n ==> #[trigger] out@[j] == mixed(
                        column(old(self).sources(), j as nat).take(k as int),
                    ),
            decreases count - k,
        {
            self.producers[k].write_samples(self.mixing_buffer.as_mut_slice());
            let mut i: usize = 0;
            while i < n
                invariant
                    n == out@.len(),
                    i <= n,
                    k < count,
                    count == old(self).producers@.len(),
                    self.mixing_buffer@.len() == n,
                    forall|j: int|
                        0 <= j < n ==> #[trigger] self.mixing_buffer@[j] == old(
                            self,
                        ).producers@[k as int].signal(j as nat),
                    forall|j: int|
                        0 <= j < i ==> #[trigger] out@[j] == mixed(
                            column(old(self).sources(), j as nat).take(k + 1),
                        ),
                    forall|j: int|
                        i <= j < n ==> #[trigger] out@[j] == mixed(
                            column(old(self).sources(), j as nat).take(k as int),
                        ),
                decreases n - i,
            {
                proof {
                    let contributions = column(old(self).sources(), i as nat);
                    lemma_mixed_push(contributions.take(k as int), contributions[k as int]);
                    assert(contributions.take(k + 1) =~= contributions.take(k as int).push(
                        contributions[k as int],
                    ));
                }
                out[i] = accumulate(out[i], self.mixing_buffer[i]);
                i += 1;
            }
            k += 1;
        }
        proof {
            assert forall|j: int| 0 <= j < n implies #[trigger] out@[j] == mixed(
                column(old(self).sources(), j as nat),
            ) by {
                let contributions = column(old(self).sources(), j as nat);
                assert(contributions.take(count as int) =~= contributions);
            }
        }
    }

    /// One callback, as a relation between the engine before it, the events
    /// it found, the engine after it and the buffer it filled.
    ///
    /// `sample` is the decoded data of a triggered playback, `midi` the MIDI
    /// event that was pending. The sources that were active stay, in their
    /// order, and have moved on by one buffer. A triggered playback comes
    /// after them and a started tone last; both have yielded their first
    /// buffer, so the read cursor of the playback stands at the buffer length
    /// and the phase offset of the tone at the number of frames. Each slot of
    /// the buffer holds the mix of what all of these contributed to it.
    pub open spec fn stepped(
        before: Device,
        sample: Option<Seq<Sample>>,
        midi: Option<MidiMessage>,
        after: Device,
        out: Seq<Sample>,
    ) -> bool {
        let len = before.buffer_len();
        let kept: int = before.sources().len() as int;
        let triggered: int = if sample is Some { 1 } else { 0 };
        let started: int = if starts_tone(midi) { 1 } else { 0 };
        &&& after.wf()
        &&& after.format() == before.format()
        &&& after.wave() == before.wave()
        &&& after.sources().len() == kept + triggered + started
        &&& forall|k: int|
            0 <= k < kept ==> before.sources()[k].moves_to(len, &#[trigger] after.sources()[k])
        &&& forall|k: int, t: nat|
            0 <= k < kept ==> #[trigger] after.sources()[k].signal(t) == before.sources()[k].signal(
                t + len,
            )
        &&& sample matches Some(data) ==> {
            &&& is_playback(after.sources()[kept], data, FULL_VOLUME, len)
            &&& forall|t: nat| #[trigger]
                after.sources()[kept].signal(t) == playback(data, FULL_VOLUME, 0, t + len)
        }
        &&& starts_tone(midi) ==> {
            &&& is_reference_tone(
                after.sources().last(),
                before.wave(),
                before.channels(),
                before.frames(),
            )
            &&& forall|t: nat| #[trigger]
                after.sources().last().signal(t) == reference_tone(
                    before.wave(),
                    before.channels(),
                    t + len,
                )
        }
        &&& out.len() == len
        &&& forall|i: int|
            0 <= i < len ==> #[trigger] out[i] == mixed(
                entering(
                    before.sources(),
                    before.wave(),
                    before.channels(),
                    sample,
                    midi,
                    i as nat,
                ),
            )
    }

    /// Runs one callback on the events that were found: adds a playback of
    /// `sample` if there is one, reacts to `midi` if there is one, and fills
    /// `out` with the mix of all sources that are then active.
    pub fn step(
        &mut self,
        sample: Option<Vec<Sample>>,
        midi: Option<MidiMessage>,
        out: &mut [Sample],
    )
        requires
            old(self).wf(),
            old(self).running(),
            old(out)@.len() == old(self).buffer_len(),
        ensures
            Self::stepped(*old(self), data_of(sample), midi, *final(self), final(out)@),
    {
        let ghost sample_model: Option<Seq<Sample>> = data_of(sample);
        let slots: usize = out.len();
        match sample {
            Some(data) => {
                self.trigger(data);
            },
            None => {},
        }
        let ghost triggered = self.sources();
        match midi {
            Some(message) => {
                self.handle_midi(message);
            },
            None => {},
        }
        let ghost admitted = self.sources();
        self.mix(out);
        proof {
            let len = old(self).buffer_len();
            let kept = old(self).sources().len();
            assert(len == slots);
            assert(triggered.take(kept as int) =~= old(self).sources()) by {
                if sample_model is Some {
                    assert(triggered.drop_last() == old(self).sources());
                }
            }
            assert(admitted.take(triggered.len() as int) =~= triggered) by {
                if starts_tone(midi) {
                    assert(admitted.drop_last() == triggered);
                }
            }
            assert forall|k: int| 0 <= k < kept implies admitted[k] == old(self).sources()[k] by {
                assert(admitted[k] == admitted.take(triggered.len() as int)[k]);
                assert(triggered[k] == triggered.take(kept as int)[k]);
            }
            if sample_model is Some {
                let at = kept as int;
                assert(admitted[at] == admitted.take(triggered.len() as int)[at]);
                assert(admitted[at] == triggered.last());
                assert(admitted[at].moves_to(len, &self.sources()[at]));
                match admitted[at] {
                    Source::Sample(producer) => {
                        producer.lemma_advanced(len);
                    },
                    Source::Tone(_) => {},
                }
            }
            if starts_tone(midi) {
                let at = admitted.len() - 1;
                assert(admitted[at] == admitted.last());
                assert(self.sources().last() == self.sources()[at]);
                assert(admitted[at].moves_to(len, &self.sources()[at]));
                let frames = old(self).frames();
                let channels = old(self).channels();
                assert(len / channels == frames) by (nonlinear_arith)
                    requires
                        len == frames * channels,
                        channels > 0,
                ;
                match admitted[at] {
                    Source::Tone(split) => {
                        split.source().lemma_advanced(frames);
                    },
                    Source::Sample(_) => {},
                }
            }
            assert forall|i: int| 0 <= i < len implies #[trigger] out@[i] == mixed(
                entering(
                    old(self).sources(),
                    old(self).wave(),
                    old(self).channels(),
                    sample_model,
                    midi,
                    i as nat,
                ),
            ) by {
                assert(column(admitted, i as nat) =~= entering(
                    old(self).sources(),
                    old(self).wave(),
                    old(self).channels(),
                    sample_model,
                    midi,
                    i as nat,
                ));
            }
        }
    }

    /// The periodic callback. Takes at most one event from each inbox, without
    /// waiting; on a trigger it has `decode` produce the data of the sample for the
    /// negotiated format and adds a playback of them; on a key press it adds
    /// the reference tone; then it fills `out` with the mix of all active
    /// sources.
    ///
    /// What the inboxes hold is up to the sending threads, so the callback is
    /// a step on some events: `decode` is called only on a trigger, and its
    /// result is what is played.
    pub fn callback<F: FnOnce(OutputFormat) -> Vec<Sample>>(
        &mut self,
        out: &mut [Sample],
        decode: F,
    )
        requires
            old(self).wf(),
            old(self).running(),
            old(out)@.len() == old(self).buffer_len(),
            decode.requires((old(self).format().unwrap(),)),
        ensures
            exists|sample: Option<Vec<Sample>>, midi: Option<MidiMessage>|
                {
                    &&& sample matches Some(data) ==> decode.ensures(
                        (old(self).format().unwrap(),),
                        data,
                    )
                    &&& #[trigger] Self::stepped(
                        *old(self),
                        data_of(sample),
                        midi,
                        *final(self),
                        final(out)@,
                    )
                },
    {
        let sample = match try_take(&self.gui_receiver) {
            Some(_) => Some(decode(self.audio_spec.unwrap())),
            None => None,
        };
        let midi = try_take(&self.midi_receiver);
        let ghost found = sample;
        self.step(sample, midi, out);
        assert(Self::stepped(*old(self), data_of(found), midi, *self, out@));
    }
}

/// A callback that finds nothing to do does nothing: without a trigger and
/// without a key press the number of sources stays, and if there are no
/// sources the buffer is filled with silence.
pub proof fn lemma_idle_step(
    before: Device,
    midi: Option<MidiMessage>,
    after: Device,
    out: Seq<Sample>,
)
    requires
        Device::stepped(before, None, midi, after, out),
        !starts_tone(midi),
    ensures
        after.sources().len() == before.sources().len(),
        before.sources().len() == 0 ==> after.sources() == before.sources(),
        before.sources().len() == 0 ==> forall|i: int| 0 <= i < out.len() ==> out[i] == SILENCE,
{
    if before.sources().len() == 0 {
        assert(after.sources() =~= before.sources());
        lemma_mixed_empty();
        assert forall|i: int| 0 <= i < out.len() implies out[i] == SILENCE by {
            assert(entering(
                before.sources(),
                before.wave(),
                before.channels(),
                None,
                midi,
                i as nat,
            ) =~= Seq::<Sample>::empty());
        }
    }
}

impl ReceivesAudioSpec for Device {
    open spec fn awaits_spec(&self) -> bool {
        self.wf() && !self.running()
    }

    fn receive_spec(&mut self, spec: OutputFormat, wave: Arc<Vec<Sample>>)
        ensures
            final(self).wf(),
            final(self).format() == Some(spec),
            final(self).wave() == wave@,
            final(self).sources().len() == 0,
    {
        self.audio_spec = Some(spec);
        self.wave = wave;
        self.mixing_buffer.resize(spec.buffer_len(), SILENCE);
    }
}

} // verus!
