use web_radio::chunk::chunk_from_vec;
use web_radio::pacer::Pacer;
use web_radio::pcm::AudioPacket;

fn packet_of(bytes: usize) -> AudioPacket {
    AudioPacket::new(chunk_from_vec(&vec![0u8; bytes]))
}

#[test]
fn target_is_start_plus_cumulative_duration() {
    let t0 = 5_000_000;
    let mut pacer = Pacer::new(t0);
    assert_eq!(pacer.target_micros(), t0);

    let one_second = packet_of(176400);
    let half_second = packet_of(88200);

    pacer.account(&one_second);
    assert_eq!(pacer.target_micros(), t0 + 1_000_000);
    pacer.account(&half_second);
    pacer.account(&one_second);
    assert_eq!(pacer.target_micros(), t0 + 2_500_000);
}

#[test]
fn the_loop_never_resumes_early_and_never_compensates_late() {
    let mut pacer = Pacer::new(1_000);
    pacer.account(&packet_of(176400));

    // Ahead of schedule: sleep out the difference, to the microsecond.
    assert_eq!(pacer.wait_micros(1_000), 1_000_000);
    assert_eq!(pacer.wait_micros(500_000), 501_000);
    assert_eq!(pacer.wait_micros(1_001_000), 0);

    // Behind schedule: proceed at once, no catch-up burst.
    assert_eq!(pacer.wait_micros(2_000_000), 0);
}

#[test]
fn jitter_does_not_accumulate() {
    // Two loops that dispatched the same audio agree on the target no
    // matter when their iterations actually ran.
    let mut early = Pacer::new(0);
    let mut late = Pacer::new(0);
    for _ in 0..3 {
        early.account(&packet_of(176400));
        late.account(&packet_of(176400));
    }
    // One loop polled on time, the other far behind: the next target is
    // anchored to the start, not to the previous iteration.
    assert_eq!(early.wait_micros(2_999_000), 1_000);
    assert_eq!(late.wait_micros(3_500_000), 0);
    assert_eq!(early.target_micros(), late.target_micros());
}
