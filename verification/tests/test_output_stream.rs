use tokio::sync::broadcast::error::TryRecvError;
use web_radio::encoder::OutputCodec;
use web_radio::null_frames::get_null_frame;
use web_radio::output_stream::{ListenerAction, ListenerEvent, OutputStream};

fn chunk(data: &[u8]) -> bytes::Bytes {
    bytes::Bytes::copy_from_slice(data)
}

#[test]
fn priming_frame_is_the_first_thing_counted() {
    let mut stream = OutputStream::new(OutputCodec::Mp3_64kbps);
    let (id, _rx) = stream.create_consumer_stream(1_000);
    assert_eq!(stream.bytes_sent_of(id), Some(0));

    let frame = stream.prime_listener(id);
    assert_eq!(frame, get_null_frame(&OutputCodec::Mp3_64kbps));
    assert_eq!(stream.bytes_sent_of(id), Some(frame.len() as u64));
}

#[test]
fn chunks_are_delivered_and_counted() {
    let mut stream = OutputStream::new(OutputCodec::Ogg96kbps);
    let (id, _rx) = stream.create_consumer_stream(0);

    let action = stream.handle_event(id, ListenerEvent::Chunk(chunk(&[1, 2, 3, 4, 5])));
    match action {
        ListenerAction::Deliver(b) => assert_eq!(&b[..], &[1, 2, 3, 4, 5]),
        _ => panic!("a chunk must be delivered"),
    }
    assert_eq!(stream.bytes_sent_of(id), Some(5));

    // The counter only ever grows.
    stream.handle_event(id, ListenerEvent::Chunk(chunk(&[6])));
    assert_eq!(stream.bytes_sent_of(id), Some(6));
}

#[test]
fn lag_is_tolerated_not_fatal() {
    let mut stream = OutputStream::new(OutputCodec::Mp3_64kbps);
    let (id, _rx) = stream.create_consumer_stream(0);
    stream.prime_listener(id);
    let before = stream.bytes_sent_of(id);

    // The slow listener misses chunks: it just keeps waiting...
    let action = stream.handle_event(id, ListenerEvent::Lagged(17));
    assert!(matches!(action, ListenerAction::KeepWaiting));
    assert_eq!(stream.bytes_sent_of(id), before);
    assert_eq!(stream.list_clients(), vec![id]);

    // ...and the next chunk reaches it as usual.
    let action = stream.handle_event(id, ListenerEvent::Chunk(chunk(&[1, 2])));
    assert!(matches!(action, ListenerAction::Deliver(_)));
    assert_eq!(stream.bytes_sent_of(id), before.map(|b| b + 2));
}

#[test]
fn shutdown_ends_and_closure_is_fatal() {
    let mut stream = OutputStream::new(OutputCodec::Mp3_64kbps);
    let (id, _rx) = stream.create_consumer_stream(0);

    assert!(matches!(
        stream.handle_event(id, ListenerEvent::Shutdown),
        ListenerAction::End
    ));
    assert!(matches!(
        stream.handle_event(id, ListenerEvent::Closed),
        ListenerAction::Fatal
    ));
}

#[test]
fn terminate_removes_exactly_one_listener() {
    let mut stream = OutputStream::new(OutputCodec::Mp3_64kbps);
    let (a, _rx_a) = stream.create_consumer_stream(0);
    let (b, _rx_b) = stream.create_consumer_stream(0);
    assert_eq!(stream.list_clients(), vec![a, b]);

    assert!(stream.terminate_client(a));
    assert_eq!(stream.list_clients(), vec![b]);

    // Terminating an id that never existed, or is already gone, is a
    // no-op.
    assert!(!stream.terminate_client(a));
    assert!(!stream.terminate_client(4711));
    assert_eq!(stream.list_clients(), vec![b]);

    // The guaranteed cleanup path tolerates double removal too.
    assert!(stream.remove_client(b));
    assert!(!stream.remove_client(b));
    assert_eq!(stream.list_clients(), vec![]);
}

#[test]
fn ids_are_never_reused() {
    let mut stream = OutputStream::new(OutputCodec::Mp3_64kbps);
    let (a, _r1) = stream.create_consumer_stream(0);
    stream.terminate_client(a);
    let (b, _r2) = stream.create_consumer_stream(0);
    assert_ne!(a, b);
}

#[test]
fn bandwidth_is_bytes_times_eight_over_elapsed() {
    let mut stream = OutputStream::new(OutputCodec::Mp3_64kbps);
    let (id, _rx) = stream.create_consumer_stream(1_000_000);
    stream.record_sent(id, 1000);

    // 1000 bytes over 2 seconds: 4000 bits per second, exactly.
    let stats = stream.get_bandwidth_stats(3_000_000);
    assert_eq!(stats, vec![(id, 1000, 4000)]);

    // With no time elapsed the rate reads zero, not an error.
    let stats = stream.get_bandwidth_stats(1_000_000);
    assert_eq!(stats, vec![(id, 1000, 0)]);
}

#[test]
fn push_without_subscribers_is_a_no_op() {
    let stream = OutputStream::new(OutputCodec::Mp3_64kbps);
    // No listener is subscribed; publishing must neither block nor fail.
    stream.push(chunk(&[1, 2, 3]));
}

#[test]
fn slow_consumer_lags_on_the_real_channel_and_keeps_going() {
    let mut stream = OutputStream::new(OutputCodec::Mp3_64kbps);
    let (id, mut rx) = stream.create_consumer_stream(0);

    // Publish far more chunks than the channel retains while the listener
    // never reads: the subscriber falls behind its bounded history.
    for i in 0..40u8 {
        stream.push(chunk(&[i]));
    }

    let missed = match rx.try_recv() {
        Err(TryRecvError::Lagged(n)) => n,
        other => panic!("a slow consumer must observe lag, got {:?}", other),
    };
    assert!(missed > 0);

    // The library's policy: lag is logged and skipped, never terminal...
    let action = stream.handle_event(id, ListenerEvent::Lagged(missed));
    assert!(matches!(action, ListenerAction::KeepWaiting));

    // ...and the retained chunks still arrive afterwards, in order.
    let next = rx.try_recv().expect("the retained chunks must still arrive");
    let after = rx.try_recv().expect("and keep arriving");
    assert_eq!(next[0] + 1, after[0]);
    let action = stream.handle_event(id, ListenerEvent::Chunk(next));
    assert!(matches!(action, ListenerAction::Deliver(_)));
}
