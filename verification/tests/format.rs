use rust_music::format::{
    OutputFormat, CHANNEL_COUNT, SAMPLE_BUFFER_SIZE, SAMPLE_COUNT, SAMPLE_FREQUENCY,
};

#[test]
fn requested_format_constants() {
    assert_eq!(SAMPLE_FREQUENCY, 44_100);
    assert_eq!(SAMPLE_COUNT, 256);
    assert_eq!(CHANNEL_COUNT, 2);
    assert_eq!(SAMPLE_BUFFER_SIZE, 512);
}

#[test]
fn desired_format_is_made_of_the_constants() {
    let format = OutputFormat::desired();
    assert_eq!(format.sample_rate, 44_100);
    assert_eq!(format.channel_count, 2);
    assert_eq!(format.buffer_frame_count, 256);
    assert_eq!(format.buffer_len(), SAMPLE_BUFFER_SIZE);
    assert!(format.is_valid());
}

#[test]
fn buffer_len_is_frames_times_channels() {
    let format = OutputFormat { sample_rate: 48_000, channel_count: 6, buffer_frame_count: 100 };
    assert_eq!(format.buffer_len(), 600);
    let mono = OutputFormat { sample_rate: 8_000, channel_count: 1, buffer_frame_count: 7 };
    assert_eq!(mono.buffer_len(), 7);
}

#[test]
fn buffer_len_of_the_largest_format() {
    let format =
        OutputFormat { sample_rate: u32::MAX, channel_count: 255, buffer_frame_count: 65_535 };
    assert_eq!(format.buffer_len(), 255 * 65_535);
}

#[test]
fn buffer_len_without_frames_is_zero() {
    let format = OutputFormat { sample_rate: 44_100, channel_count: 2, buffer_frame_count: 0 };
    assert_eq!(format.buffer_len(), 0);
    assert!(format.is_valid());
}

#[test]
fn format_without_channels_is_not_valid() {
    let format = OutputFormat { sample_rate: 44_100, channel_count: 0, buffer_frame_count: 256 };
    assert!(!format.is_valid());
}

#[test]
fn format_without_a_sample_rate_is_not_valid() {
    let format = OutputFormat { sample_rate: 0, channel_count: 2, buffer_frame_count: 256 };
    assert!(!format.is_valid());
}

#[test]
fn formats_compare_by_their_fields() {
    let a = OutputFormat { sample_rate: 44_100, channel_count: 2, buffer_frame_count: 4 };
    let b = OutputFormat { sample_rate: 44_100, channel_count: 2, buffer_frame_count: 4 };
    let c = OutputFormat { sample_rate: 44_100, channel_count: 2, buffer_frame_count: 5 };
    assert_eq!(a, b);
    assert_ne!(a, c);
}
