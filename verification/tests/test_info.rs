use web_radio::info::{parse_duration_millis, AudioFileInfo};

fn parse(text: &str) -> Option<u64> {
    parse_duration_millis(&text.as_bytes().to_vec())
}

#[test]
fn parses_probe_output() {
    assert_eq!(parse("180.048000\n"), Some(180_048));
    assert_eq!(parse("12"), Some(12_000));
    assert_eq!(parse(" 3.5 \r\n"), Some(3_500));
    assert_eq!(parse("0.0481"), Some(48));
    assert_eq!(parse(".5"), Some(500));
    assert_eq!(parse("5."), Some(5_000));
    assert_eq!(parse("0"), Some(0));
}

#[test]
fn parses_exponent_notation() {
    assert_eq!(parse("1e2"), Some(100_000));
    assert_eq!(parse("2E3"), Some(2_000_000));
    assert_eq!(parse("1e+2"), Some(100_000));
    assert_eq!(parse("1.5e-1"), Some(150));
    assert_eq!(parse(".5e1"), Some(5_000));
    assert_eq!(parse("0.0481e2"), Some(4_810));
    // A fraction entirely below the millisecond truncates to zero.
    assert_eq!(parse("1e-7"), Some(0));
    // An exponent can dwarf any accumulator; only its sign matters then.
    assert_eq!(parse("1e99999999999999999999999999999999999999"), Some(u64::MAX));
    assert_eq!(parse("0e99999999999999999999999999999999999999"), Some(0));
    assert_eq!(parse("1e-99999999999999999999999999999999999999"), Some(0));
}

#[test]
fn rejects_everything_else() {
    assert_eq!(parse(""), None);
    assert_eq!(parse("   \n"), None);
    assert_eq!(parse("."), None);
    assert_eq!(parse("1.2.3"), None);
    assert_eq!(parse("abc"), None);
    assert_eq!(parse("-1.5"), None);
    assert_eq!(parse("12 34"), None);
    assert_eq!(parse("1e"), None);
    assert_eq!(parse("1e+"), None);
    assert_eq!(parse("e3"), None);
    assert_eq!(parse(".e3"), None);
    assert_eq!(parse("1e2.5"), None);
    assert_eq!(parse("1e--2"), None);
}

#[test]
fn durations_beyond_the_counter_read_as_its_maximum() {
    assert_eq!(parse("18446744073709551.615"), Some(u64::MAX));
    assert_eq!(parse("18446744073709551.616"), Some(u64::MAX));
    assert_eq!(parse("99999999999999999999999"), Some(u64::MAX));
}

#[test]
fn builds_info_from_probe_output() {
    let out = b"245.066000\n".to_vec();
    let info = AudioFileInfo::from_probe_output("/music/track.mp3".to_string(), 9_000_000, &out)
        .unwrap();
    assert_eq!(info.location(), "/music/track.mp3");
    assert_eq!(info.size_bytes(), 9_000_000);
    assert_eq!(info.audio_milliseconds(), 245_066);

    let bad = b"N/A\n".to_vec();
    assert!(AudioFileInfo::from_probe_output("x.mp3".to_string(), 1, &bad).is_none());
}
