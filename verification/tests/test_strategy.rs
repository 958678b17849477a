use web_radio::strategy::{
    decode_helper_args, open_input_file_strategy, AudioFile, InputPathError, InputStrategy,
    SilenceSource,
};

#[test]
fn wav_extension_selects_the_native_container() {
    assert_eq!(
        open_input_file_strategy("song.wav"),
        Ok(InputStrategy::WavContainer)
    );
    assert_eq!(
        open_input_file_strategy("/music/LOUD.WAV"),
        Ok(InputStrategy::WavContainer)
    );
    assert_eq!(
        open_input_file_strategy("./dir/a.b.Wav"),
        Ok(InputStrategy::WavContainer)
    );
}

#[test]
fn other_extensions_go_through_the_helper() {
    assert_eq!(
        open_input_file_strategy("song.mp3"),
        Ok(InputStrategy::HelperSubprocess)
    );
    assert_eq!(
        open_input_file_strategy("a.flac"),
        Ok(InputStrategy::HelperSubprocess)
    );
    // A trailing dot is an empty extension, not a wav.
    assert_eq!(
        open_input_file_strategy("x."),
        Ok(InputStrategy::HelperSubprocess)
    );
}

#[test]
fn extension_selection_reads_utf8_paths() {
    // The file name's script does not matter, only the extension.
    assert_eq!(
        open_input_file_strategy("caf\u{e9}.mp3"),
        Ok(InputStrategy::HelperSubprocess)
    );
    assert_eq!(
        open_input_file_strategy("m\u{fa}sica.WAV"),
        Ok(InputStrategy::WavContainer)
    );
    assert_eq!(
        open_input_file_strategy("\u{66f4}\u{597d}"),
        Err(InputPathError::NoExtension)
    );
}

#[test]
fn paths_without_extension_are_refused() {
    assert_eq!(
        open_input_file_strategy("noextension"),
        Err(InputPathError::NoExtension)
    );
    // The dot in a directory name is not the file's extension.
    assert_eq!(
        open_input_file_strategy("dir.d/file"),
        Err(InputPathError::NoExtension)
    );
    // A leading dot hides a file; it does not start an extension.
    assert_eq!(
        open_input_file_strategy("/home/user/.bashrc"),
        Err(InputPathError::NoExtension)
    );
    assert_eq!(
        InputPathError::NoExtension.message(),
        "file has no extension"
    );
}

#[test]
fn helper_arguments_decode_to_the_fixed_pcm_format() {
    let args = decode_helper_args("/music/track.mp3");
    assert_eq!(
        args,
        vec![
            "-i",
            "/music/track.mp3",
            "-f",
            "s16le",
            "-ac",
            "2",
            "-ar",
            "44100",
            "-"
        ]
    );
}

#[test]
fn silence_source_is_lazy_and_finite() {
    let mut src = SilenceSource::new("silence".to_string(), 2);
    assert_eq!(src.audio_file_path(), "silence");
    assert_eq!(src.audio_file_size_bytes(), 2 * 176400);

    let first = src.next_packet().unwrap();
    assert_eq!(first.duration_micros(), 1_000_000);
    let second = src.next_packet().unwrap();
    assert_eq!(second.duration_micros(), 1_000_000);
    assert!(src.next_packet().is_none());
    // Exhaustion is final.
    assert!(src.next_packet().is_none());
}
