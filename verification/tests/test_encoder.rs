use web_radio::encoder::{classify_encoder_read, ffmpeg_args, EncoderRead, OutputCodec};
use web_radio::null_frames::{get_mime_type, get_null_frame};

#[test]
fn mp3_encoder_arguments() {
    let args = ffmpeg_args(&OutputCodec::Mp3_64kbps);
    assert_eq!(
        args,
        vec![
            "-f", "s16le", "-ar", "44100", "-ac", "2", "-i", "-", "-b:a", "128k", "-f", "mp3",
            "-flush_packets", "1", "-write_xing", "0", "-id3v2_version", "0", "-",
        ]
    );
}

#[test]
fn ogg_and_opus_encoder_arguments() {
    assert_eq!(
        ffmpeg_args(&OutputCodec::Ogg96kbps),
        vec!["-f", "s16le", "-ar", "44100", "-ac", "2", "-i", "-", "-b:a", "96k", "-f", "ogg", "-"]
    );
    assert_eq!(
        ffmpeg_args(&OutputCodec::Opus128kbps),
        vec![
            "-f", "s16le", "-ar", "44100", "-ac", "2", "-i", "-", "-c:a", "libopus", "-b:a",
            "128k", "-f", "opus", "-",
        ]
    );
}

#[test]
fn encoder_eof_is_fatal_and_data_is_forwarded() {
    assert!(matches!(
        classify_encoder_read(Vec::new()),
        EncoderRead::Exhausted
    ));

    match classify_encoder_read(vec![9u8, 8, 7]) {
        EncoderRead::Forward(chunk) => assert_eq!(&chunk[..], &[9u8, 8, 7]),
        EncoderRead::Exhausted => panic!("a non-empty read must be forwarded"),
    }
}

#[test]
fn null_frames_are_fixed_sync_points() {
    let mp3 = get_null_frame(&OutputCodec::Mp3_64kbps);
    // One whole 128 kbps MPEG-1 Layer III frame: header plus silence.
    assert_eq!(mp3.len(), 417);
    assert_eq!(&mp3[..4], &[0xff, 0xfb, 0x90, 0x00]);
    assert!(mp3[4..].iter().all(|b| *b == 0));

    // One beginning-of-stream page each, with the page checksum filled in
    // and the codec's identification header as the single segment.
    let ogg = get_null_frame(&OutputCodec::Ogg96kbps);
    assert_eq!(ogg.len(), 58);
    assert_eq!(&ogg[..4], b"OggS");
    assert_eq!(&ogg[22..26], &[0x62, 0x9f, 0x9e, 0x31]);
    assert_eq!(&ogg[29..35], b"vorbis");

    let opus = get_null_frame(&OutputCodec::Opus128kbps);
    assert_eq!(opus.len(), 47);
    assert_eq!(&opus[..4], b"OggS");
    assert_eq!(&opus[22..26], &[0x1c, 0xd5, 0xc5, 0xf7]);
    assert_eq!(&opus[28..36], b"OpusHead");

    // The frame is fixed: every listener gets byte-identical priming.
    assert_eq!(mp3, get_null_frame(&OutputCodec::Mp3_64kbps));
}

#[test]
fn mime_subtypes() {
    assert_eq!(get_mime_type(&OutputCodec::Mp3_64kbps), "mpeg");
    assert_eq!(get_mime_type(&OutputCodec::Ogg96kbps), "ogg");
    assert_eq!(get_mime_type(&OutputCodec::Opus128kbps), "opus");
}

/// The CRC32 the Ogg container uses (polynomial 0x04c11db7, no
/// reflection, zero initial value and no final inversion).
fn ogg_page_crc(page: &[u8]) -> u32 {
    let mut crc: u32 = 0;
    for (i, b) in page.iter().enumerate() {
        // The checksum is computed with its own field zeroed.
        let byte = if (22..26).contains(&i) { 0 } else { *b };
        crc ^= (byte as u32) << 24;
        for _ in 0..8 {
            crc = if crc & 0x8000_0000 != 0 {
                (crc << 1) ^ 0x04c1_1db7
            } else {
                crc << 1
            };
        }
    }
    crc
}

#[test]
fn ogg_priming_pages_carry_their_own_checksum() {
    for codec in [OutputCodec::Ogg96kbps, OutputCodec::Opus128kbps] {
        let page = get_null_frame(&codec);
        let embedded = u32::from_le_bytes([page[22], page[23], page[24], page[25]]);
        assert_eq!(ogg_page_crc(&page), embedded);
    }
}
