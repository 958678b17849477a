use web_radio::cytoplasm::{Cytoplasm, StationError};
use web_radio::encoder::OutputCodec;
use web_radio::null_frames::get_null_frame;
use web_radio::output_stream::{ListenerAction, ListenerEvent};

#[test]
fn station_serves_exactly_its_codecs() {
    let mut station = Cytoplasm::new(&vec![OutputCodec::Mp3_64kbps]);
    assert_eq!(station.codecs(), vec![OutputCodec::Mp3_64kbps]);

    let (mime, id, _rx) = station
        .create_consumer_stream(&OutputCodec::Mp3_64kbps, 0)
        .unwrap();
    assert_eq!(mime, "mpeg");
    assert_eq!(id, 0);

    // A codec the station was not created with is answered with an error,
    // not a stream.
    let err = station
        .create_consumer_stream(&OutputCodec::Ogg96kbps, 0)
        .unwrap_err();
    assert_eq!(err, StationError::CodecNotFound);
    assert_eq!(err.message(), "codec not found");
}

#[test]
fn listener_lifecycle_through_the_station() {
    let mut station = Cytoplasm::new(&vec![OutputCodec::Ogg96kbps, OutputCodec::Opus128kbps]);

    let (_mime, id, _rx) = station
        .create_consumer_stream(&OutputCodec::Opus128kbps, 500)
        .unwrap();
    let frame = station
        .prime_listener(&OutputCodec::Opus128kbps, id)
        .unwrap();
    assert_eq!(frame, get_null_frame(&OutputCodec::Opus128kbps));

    // The listener lives on the opus stream only.
    assert_eq!(
        station.list_clients(&OutputCodec::Opus128kbps),
        Some(vec![id])
    );
    assert_eq!(station.list_clients(&OutputCodec::Ogg96kbps), Some(vec![]));
    assert_eq!(station.list_clients(&OutputCodec::Mp3_64kbps), None);

    let action = station
        .handle_event(
            &OutputCodec::Opus128kbps,
            id,
            ListenerEvent::Chunk(bytes::Bytes::copy_from_slice(&[1, 2, 3])),
        )
        .unwrap();
    assert!(matches!(action, ListenerAction::Deliver(_)));

    let stats = station
        .get_bandwidth_stats(&OutputCodec::Opus128kbps, 500)
        .unwrap();
    assert_eq!(stats.len(), 1);
    assert_eq!(stats[0].0, id);
    assert_eq!(stats[0].1, frame.len() as u64 + 3);

    assert_eq!(
        station.terminate_client(&OutputCodec::Opus128kbps, id),
        Some(true)
    );
    assert_eq!(
        station.terminate_client(&OutputCodec::Opus128kbps, id),
        Some(false)
    );
    assert_eq!(
        station.list_clients(&OutputCodec::Opus128kbps),
        Some(vec![])
    );
    assert_eq!(station.terminate_client(&OutputCodec::Mp3_64kbps, id), None);
}

#[test]
fn chunks_are_published_per_codec() {
    let station = Cytoplasm::new(&vec![OutputCodec::Mp3_64kbps]);
    assert!(station.push_chunk(
        &OutputCodec::Mp3_64kbps,
        bytes::Bytes::copy_from_slice(&[1])
    ));
    assert!(!station.push_chunk(
        &OutputCodec::Ogg96kbps,
        bytes::Bytes::copy_from_slice(&[1])
    ));
}
