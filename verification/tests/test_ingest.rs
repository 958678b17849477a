use web_radio::chunk::chunk_from_vec;
use web_radio::ingest::IngestBuffer;
use web_radio::pcm::AudioPacket;

fn packet() -> AudioPacket {
    AudioPacket::new(chunk_from_vec(&vec![0u8; 176400]))
}

#[test]
fn offers_are_immediate_below_the_high_watermark() {
    let mut buf = IngestBuffer::new(5, 10);
    for _ in 0..10 {
        assert!(buf.offer(packet()).is_none());
    }
    assert_eq!(buf.len(), 10);
    assert!(!buf.under_backpressure());
}

#[test]
fn the_buffer_never_outgrows_the_high_watermark() {
    let mut buf = IngestBuffer::new(5, 10);
    for attempt in 0..40 {
        buf.offer(packet());
        assert!(buf.len() <= 10, "attempt {} overfilled the buffer", attempt);
    }
    assert_eq!(buf.len(), 10);
}

#[test]
fn backpressure_triggers_at_high_and_clears_at_low() {
    let mut buf = IngestBuffer::new(5, 10);
    for _ in 0..10 {
        assert!(buf.offer(packet()).is_none());
    }

    // The offer that finds the buffer full triggers backpressure and
    // hands the packet back; so does every poll while the queue stays
    // above `low`.
    let held = buf.offer(packet()).unwrap();
    assert!(buf.under_backpressure());
    let held = buf.offer(held).unwrap();
    assert_eq!(buf.len(), 10);

    // Draining to `low` or below lets the held packet in again.
    let drained = buf.drain_all();
    assert_eq!(drained.len(), 10);
    assert_eq!(buf.len(), 0);
    assert!(buf.under_backpressure());

    assert!(buf.offer(held).is_none());
    assert!(!buf.under_backpressure());
    assert_eq!(buf.len(), 1);
}

#[test]
fn drain_empties_in_fifo_order() {
    let mut buf = IngestBuffer::new(1, 3);
    let sizes = [100usize, 200, 300];
    for n in sizes {
        assert!(buf
            .offer(AudioPacket::new(chunk_from_vec(&vec![0u8; n])))
            .is_none());
    }
    let drained = buf.drain_all();
    let lens: Vec<u64> = drained.iter().map(|p| p.duration_micros()).collect();
    // FIFO: durations come back in offer order.
    assert_eq!(
        lens,
        vec![
            100 * 1_000_000 / 176400,
            200 * 1_000_000 / 176400,
            300 * 1_000_000 / 176400
        ]
    );
    assert_eq!(buf.len(), 0);
}

#[test]
fn priming_test_reads_the_high_watermark() {
    let mut buf = IngestBuffer::new(2, 4);
    assert!(!buf.at_or_above_high());
    for _ in 0..4 {
        buf.offer(packet());
    }
    assert!(buf.at_or_above_high());
}
