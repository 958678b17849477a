use web_radio::index;
use web_radio::ingest::IngestBuffer;
use web_radio::pacer::Pacer;
use web_radio::strategy::{AudioFile, SilenceSource};

/// One station, one codec's worth of pacing, watermarks LOW=5 / HIGH=10,
/// twelve one-second packets, against a simulated wall clock.
#[test]
fn twelve_seconds_end_to_end() {
    let mut source = SilenceSource::new("synthetic".to_string(), 12);
    let mut buf = IngestBuffer::new(5, 10);

    // The decode burst: the first ten packets go straight in.
    for _ in 0..10 {
        let packet = source.next_packet().unwrap();
        assert!(buf.offer(packet).is_none());
    }
    assert_eq!(buf.len(), 10);

    // Packet eleven finds the buffer at the high watermark: the decode
    // loop pauses, holding the packet, and polling changes nothing.
    let eleventh = source.next_packet().unwrap();
    let eleventh = buf.offer(eleventh).unwrap();
    assert!(buf.under_backpressure());
    let eleventh = buf.offer(eleventh).unwrap();
    assert_eq!(buf.len(), 10);

    // The pacer primed on a full buffer; its clock starts now.
    assert!(buf.at_or_above_high());
    let t0: u64 = 0;
    let mut now = t0;
    let mut pacer = Pacer::new(t0);

    // First pacing iteration: drain everything, account it, sleep to the
    // target.  The drain leaves the queue at or below LOW, so the decode
    // loop's next poll gets the held packet through.
    let batch = buf.drain_all();
    assert_eq!(batch.len(), 10);
    assert!(buf.len() <= 5);
    assert!(buf.offer(eleventh).is_none());
    assert!(!buf.under_backpressure());

    for packet in &batch {
        assert!(pacer.fits(packet.duration_micros()));
        pacer.account(packet);
    }
    assert_eq!(pacer.target_micros(), t0 + 10_000_000);
    now += pacer.wait_micros(now);
    assert_eq!(now, 10_000_000);

    // The final packet decodes and queues immediately.
    let twelfth = source.next_packet().unwrap();
    assert!(buf.offer(twelfth).is_none());
    assert!(source.next_packet().is_none());

    // Second pacing iteration drains the rest.
    let batch = buf.drain_all();
    assert_eq!(batch.len(), 2);
    for packet in &batch {
        pacer.account(packet);
    }
    now += pacer.wait_micros(now);

    // Twelve seconds of audio were dispatched, and at least twelve
    // seconds of wall clock have passed since the loop started.
    assert_eq!(pacer.target_micros() - t0, 12_000_000);
    assert!(now - t0 >= 12_000_000);
}

#[test]
fn landing_page_points_at_the_station() {
    assert_eq!(
        index(),
        b"<!DOCTYPE html>\n<audio controls src='/station'>".to_vec()
    );
}
