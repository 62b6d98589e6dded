use rust_music::dsp::{as_samples, ByteOrder, Producer, Sine, Source, StereoSplit, WAVProducer};
use rust_music::sample::{Sample, FULL_VOLUME};
use std::sync::Arc;

fn ramp(len: usize) -> Arc<Vec<Sample>> {
    Arc::new((0..len).map(|k| (k as Sample) * 10 + 1).collect())
}

fn sine_table(len: usize, amplitude: f64) -> Arc<Vec<Sample>> {
    Arc::new(
        (0..len)
            .map(|k| {
                let turn = (k as f64) / (len as f64);
                ((2.0 * std::f64::consts::PI * turn).sin() * amplitude).round() as Sample
            })
            .collect(),
    )
}

fn fill<P: Producer>(source: &mut P, len: usize) -> Vec<Sample> {
    let mut buffer = vec![-77; len];
    source.write_samples(&mut buffer);
    buffer
}

#[test]
fn as_samples_reads_little_endian() {
    let bytes = [0x01, 0x00, 0x00, 0x00, 0x78, 0x56, 0x34, 0x12];
    assert_eq!(as_samples(&bytes, ByteOrder::LittleEndian), vec![1, 0x1234_5678]);
}

#[test]
fn as_samples_reads_big_endian() {
    let bytes = [0x00, 0x00, 0x00, 0x01, 0x12, 0x34, 0x56, 0x78];
    assert_eq!(as_samples(&bytes, ByteOrder::BigEndian), vec![1, 0x1234_5678]);
}

#[test]
fn as_samples_reads_negative_samples() {
    let bytes = [0xFF, 0xFF, 0xFF, 0xFF, 0x00, 0x00, 0x00, 0x80, 0xFE, 0xFF, 0xFF, 0x7F];
    assert_eq!(
        as_samples(&bytes, ByteOrder::LittleEndian),
        vec![-1, Sample::MIN, Sample::MAX - 1]
    );
    assert_eq!(
        as_samples(&bytes, ByteOrder::BigEndian),
        vec![-1, 0x80, Sample::from_be_bytes([0xFE, 0xFF, 0xFF, 0x7F])]
    );
}

#[test]
fn as_samples_agrees_with_the_standard_library() {
    let bytes: Vec<u8> = (0..64u32).map(|k| (k * 37 + 11) as u8).collect();
    let little = as_samples(&bytes, ByteOrder::LittleEndian);
    let big = as_samples(&bytes, ByteOrder::BigEndian);
    assert_eq!(little.len(), 16);
    assert_eq!(big.len(), 16);
    for k in 0..16 {
        let chunk = [bytes[4 * k], bytes[4 * k + 1], bytes[4 * k + 2], bytes[4 * k + 3]];
        assert_eq!(little[k], Sample::from_le_bytes(chunk));
        assert_eq!(big[k], Sample::from_be_bytes(chunk));
    }
}

#[test]
fn as_samples_of_nothing_is_nothing() {
    assert_eq!(as_samples(&[], ByteOrder::LittleEndian), Vec::<Sample>::new());
    assert_eq!(as_samples(&[], ByteOrder::BigEndian), Vec::<Sample>::new());
}

#[test]
fn sine_walks_the_table_at_one_hertz() {
    let wave = ramp(8);
    let mut sine = Sine::new(8, 1, wave.clone());
    assert_eq!(fill(&mut sine, 8), *wave);
}

#[test]
fn sine_steps_by_its_frequency() {
    let wave = ramp(8);
    let mut sine = Sine::new(8, 3, wave.clone());
    let expected: Vec<Sample> = (0..10).map(|i| wave[(i * 3) % 8]).collect();
    assert_eq!(fill(&mut sine, 10), expected);
    assert_eq!(expected, vec![1, 31, 61, 11, 41, 71, 21, 51, 1, 31]);
}

#[test]
fn sine_at_zero_hertz_is_constant() {
    let mut sine = Sine::new(8, 0, ramp(8));
    assert_eq!(fill(&mut sine, 5), vec![1; 5]);
}

#[test]
fn sine_frequency_above_the_sample_frequency_folds_back() {
    let wave = ramp(8);
    let mut high = Sine::new(8, 11, wave.clone());
    let mut low = Sine::new(8, 3, wave);
    assert_eq!(fill(&mut high, 20), fill(&mut low, 20));
}

#[test]
fn sine_with_a_single_entry_table() {
    let mut sine = Sine::new(1, 440, Arc::new(vec![42]));
    assert_eq!(fill(&mut sine, 3), vec![42, 42, 42]);
    assert_eq!(sine.phase_offset(), 3);
}

#[test]
fn sine_phase_offset_advances_by_the_buffer_length() {
    let mut sine = Sine::new(8, 1, ramp(8));
    assert_eq!(sine.phase_offset(), 0);
    fill(&mut sine, 3);
    assert_eq!(sine.phase_offset(), 3);
    fill(&mut sine, 3);
    assert_eq!(sine.phase_offset(), 6);
    fill(&mut sine, 3);
    assert_eq!(sine.phase_offset(), 9);
    fill(&mut sine, 0);
    assert_eq!(sine.phase_offset(), 9);
    fill(&mut sine, 16);
    assert_eq!(sine.phase_offset(), 25);
}

#[test]
fn sine_phase_offset_grows_past_the_table_length() {
    let mut sine = Sine::new(4, 1, ramp(4));
    assert_eq!(fill(&mut sine, 4), vec![1, 11, 21, 31]);
    assert_eq!(sine.phase_offset(), 4);
    assert_eq!(fill(&mut sine, 6), vec![1, 11, 21, 31, 1, 11]);
    assert_eq!(sine.phase_offset(), 10);
    assert_eq!(fill(&mut sine, 3), vec![21, 31, 1]);
    assert_eq!(sine.phase_offset(), 13);
}

#[test]
fn sine_phase_is_continuous_across_buffers() {
    for len in [0usize, 1, 2, 3, 7, 64, 100] {
        let wave = sine_table(100, 1_000_000.0);
        let mut whole = Sine::new(100, 7, wave.clone());
        let mut halves = Sine::new(100, 7, wave);
        let once = fill(&mut whole, 2 * len);
        let mut twice = fill(&mut halves, len);
        twice.extend(fill(&mut halves, len));
        assert_eq!(once, twice);
        assert_eq!(whole.phase_offset(), halves.phase_offset());
    }
}

#[test]
fn sine_matches_the_sine_function() {
    let amplitude = 1_000_000_000.0;
    let mut sine = Sine::new(44_100, 440, sine_table(44_100, amplitude));
    let buffer = fill(&mut sine, 1000);
    for (i, &sample) in buffer.iter().enumerate() {
        let expected = (2.0 * std::f64::consts::PI * (440.0 / 44_100.0) * (i as f64)).sin();
        assert!(((sample as f64) / amplitude - expected).abs() < 1e-8);
    }
}

#[test]
fn sine_stays_exact_after_many_buffers() {
    let amplitude = 1_000_000_000.0;
    let mut sine = Sine::new(44_100, 440, sine_table(44_100, amplitude));
    for _ in 0..1000 {
        fill(&mut sine, 512);
    }
    let buffer = fill(&mut sine, 64);
    for (i, &sample) in buffer.iter().enumerate() {
        // 440 Hz repeats every 2205 samples.
        let at = ((512_000 + i) % 2205) as f64;
        let expected = (2.0 * std::f64::consts::PI * (440.0 / 44_100.0) * at).sin();
        assert!(((sample as f64) / amplitude - expected).abs() < 1e-8);
    }
}

#[test]
fn stereo_split_repeats_each_frame_on_both_channels() {
    let wave = ramp(8);
    let mut split = StereoSplit::new(Sine::new(8, 1, wave.clone()));
    let out = fill(&mut split, 8);
    assert_eq!(out, vec![1, 1, 11, 11, 21, 21, 31, 31]);
    for j in 0..8 {
        assert_eq!(out[j], wave[j / 2]);
    }
}

#[test]
fn stereo_split_output_is_the_mono_frame_for_every_slot() {
    for channels in 1usize..=6 {
        for frames in 0usize..=9 {
            let wave = ramp(16);
            let mut mono = Sine::new(16, 3, wave.clone());
            let mut split = StereoSplit::with_channels(Sine::new(16, 3, wave), channels);
            let mono_frames = fill(&mut mono, frames);
            let out = fill(&mut split, frames * channels);
            assert_eq!(out.len(), frames * channels);
            for j in 0..out.len() {
                assert_eq!(out[j], mono_frames[j / channels]);
            }
        }
    }
}

#[test]
fn stereo_split_continues_where_it_stopped() {
    let wave = ramp(8);
    let mut split = StereoSplit::new(Sine::new(8, 1, wave));
    assert_eq!(fill(&mut split, 4), vec![1, 1, 11, 11]);
    assert_eq!(fill(&mut split, 2), vec![21, 21]);
    assert_eq!(fill(&mut split, 6), vec![31, 31, 41, 41, 51, 51]);
    assert_eq!(fill(&mut split, 0), Vec::<Sample>::new());
    assert_eq!(fill(&mut split, 6), vec![61, 61, 71, 71, 1, 1]);
}

#[test]
fn stereo_split_of_a_playback() {
    let mut split = StereoSplit::with_channels(WAVProducer::new(vec![5, 6], FULL_VOLUME), 3);
    assert_eq!(fill(&mut split, 9), vec![5, 5, 5, 6, 6, 6, 0, 0, 0]);
}

#[test]
fn nested_splits_multiply_their_channels() {
    let inner = StereoSplit::new(WAVProducer::new(vec![1, 2], FULL_VOLUME));
    let mut outer = StereoSplit::new(inner);
    assert_eq!(fill(&mut outer, 8), vec![1, 1, 1, 1, 2, 2, 2, 2]);
}

#[test]
fn playback_yields_its_data_and_then_silence() {
    let mut producer = WAVProducer::new(vec![3, -4, 5], FULL_VOLUME);
    assert_eq!(fill(&mut producer, 2), vec![3, -4]);
    assert_eq!(fill(&mut producer, 4), vec![5, 0, 0, 0]);
    assert_eq!(fill(&mut producer, 3), vec![0, 0, 0]);
}

#[test]
fn playback_is_silent_forever_once_past_its_data() {
    let mut producer = WAVProducer::new(vec![9; 10], FULL_VOLUME);
    fill(&mut producer, 11);
    assert!(producer.read_cursor() > 10);
    for _ in 0..50 {
        assert_eq!(fill(&mut producer, 16), vec![0; 16]);
    }
}

#[test]
fn playback_of_exactly_its_data_length_then_silence() {
    let mut producer = WAVProducer::new(vec![1, 2, 3, 4], FULL_VOLUME);
    assert_eq!(fill(&mut producer, 4), vec![1, 2, 3, 4]);
    assert_eq!(producer.read_cursor(), 4);
    assert_eq!(fill(&mut producer, 4), vec![0; 4]);
}

#[test]
fn playback_of_no_data_is_silent() {
    let mut producer = WAVProducer::new(Vec::new(), FULL_VOLUME);
    assert_eq!(fill(&mut producer, 4), vec![0; 4]);
}

#[test]
fn playback_cursor_moves_one_per_slot() {
    let mut producer = WAVProducer::new(vec![1, 2, 3], FULL_VOLUME);
    assert_eq!(producer.read_cursor(), 0);
    fill(&mut producer, 2);
    assert_eq!(producer.read_cursor(), 2);
    fill(&mut producer, 0);
    assert_eq!(producer.read_cursor(), 2);
    fill(&mut producer, 5);
    assert_eq!(producer.read_cursor(), 7);
}

#[test]
fn playback_applies_its_volume() {
    let mut half = WAVProducer::new(vec![1000, -1000, 65_535, 0], 32_768);
    assert_eq!(fill(&mut half, 5), vec![500, -500, 32_768, 0, 0]);
    let mut muted = WAVProducer::new(vec![1000, -1000], 0);
    assert_eq!(fill(&mut muted, 3), vec![0, 0, 0]);
}

#[test]
fn playback_restarts_from_the_beginning() {
    let mut producer = WAVProducer::new(vec![7, 8, 9], FULL_VOLUME);
    fill(&mut producer, 10);
    assert_eq!(fill(&mut producer, 2), vec![0, 0]);
    producer.restart();
    assert_eq!(producer.read_cursor(), 0);
    assert_eq!(fill(&mut producer, 4), vec![7, 8, 9, 0]);
}

#[test]
fn source_hands_on_to_its_variant() {
    let mut tone = Source::Tone(StereoSplit::new(Sine::new(8, 1, ramp(8))));
    let mut sample = Source::Sample(WAVProducer::new(vec![4, 5], FULL_VOLUME));
    assert_eq!(fill(&mut tone, 4), vec![1, 1, 11, 11]);
    assert_eq!(fill(&mut tone, 2), vec![21, 21]);
    assert_eq!(fill(&mut sample, 3), vec![4, 5, 0]);
}

#[test]
fn every_slot_of_the_buffer_is_overwritten() {
    let mut buffer = vec![123; 6];
    WAVProducer::new(vec![1], FULL_VOLUME).write_samples(&mut buffer);
    assert_eq!(buffer, vec![1, 0, 0, 0, 0, 0]);
    let mut buffer = vec![123; 6];
    StereoSplit::new(Sine::new(8, 1, ramp(8))).write_samples(&mut buffer);
    assert_eq!(buffer, vec![1, 1, 11, 11, 21, 21]);
}
