use web_radio::chunk::chunk_from_vec;
use web_radio::pcm::{calculate_buffer_length, packet_from_read, AudioPacket, BYTES_PER_SECOND};

#[test]
fn one_second_of_bytes_is_one_million_micros() {
    assert_eq!(BYTES_PER_SECOND, 176400);
    assert_eq!(calculate_buffer_length(BYTES_PER_SECOND), 1_000_000);
}

#[test]
fn duration_is_the_documented_formula() {
    // n / (channels * bytes_per_sample * sample_rate) seconds, in micros.
    assert_eq!(calculate_buffer_length(0), 0);
    assert_eq!(calculate_buffer_length(88200), 500_000);
    assert_eq!(calculate_buffer_length(4), 22); // 4 * 1e6 / 176400, truncated
    assert_eq!(calculate_buffer_length(3 * 176400), 3_000_000);
}

#[test]
fn duration_scales_linearly_in_whole_seconds() {
    for k in 1u32..5 {
        assert_eq!(
            calculate_buffer_length(k * BYTES_PER_SECOND),
            (k as u64) * 1_000_000
        );
    }
}

#[test]
fn packet_derives_duration_from_its_buffer() {
    let data = vec![0u8; 88200];
    let packet = AudioPacket::new(chunk_from_vec(&data));
    assert_eq!(packet.duration_micros(), 500_000);
}

#[test]
fn empty_read_ends_the_source() {
    assert!(packet_from_read(Vec::new()).is_none());

    let packet = packet_from_read(vec![1u8, 2, 3, 4]).unwrap();
    // Even the shortest packet carries positive playing time.
    assert!(packet.duration_micros() > 0);
    assert_eq!(packet.duration_micros(), 22);
}
