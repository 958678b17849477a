//! Per-codec encoder configuration and the decisions of the encoder's
//! background reader.
//!
//! Each station codec owns one external real-time encoding subprocess.  The
//! exact command line fed to it is fixed per codec and verified here; the
//! runtime only spawns the process and moves bytes.  The reader that drains
//! the subprocess's output forwards every non-empty chunk and treats a read
//! of zero bytes as fatal — a silent encoder would starve every listener
//! undetectably.

use vstd::prelude::*;

use crate::chunk::{chunk_bytes, chunk_from_vec};

verus! {

/// The closed set of output encodings a station can offer.
#[derive(Clone, Copy, PartialEq, Eq, Hash, Structural, Debug)]
pub enum OutputCodec {
    Mp3_64kbps,
    Ogg96kbps,
    Opus128kbps,
}

/// The input-format arguments common to every encoder invocation: signed
/// 16-bit little-endian PCM at the process-wide rate and channel count,
/// read from standard input.
pub open spec fn common_input_args_spec() -> Seq<Seq<char>> {
    seq!["-f"@, "s16le"@, "-ar"@, "44100"@, "-ac"@, "2"@, "-i"@, "-"@]
}

/// The per-codec output arguments: target bitrate and container flags.
pub open spec fn codec_output_args_spec(codec: OutputCodec) -> Seq<Seq<char>> {
    match codec {
        OutputCodec::Mp3_64kbps => seq![
            "-b:a"@,
            "128k"@,
            "-f"@,
            "mp3"@,
            "-flush_packets"@,
            "1"@,
            "-write_xing"@,
            "0"@,
            "-id3v2_version"@,
            "0"@,
        ],
        OutputCodec::Ogg96kbps => seq!["-b:a"@, "96k"@, "-f"@, "ogg"@],
        OutputCodec::Opus128kbps => seq!["-c:a"@, "libopus"@, "-b:a"@, "128k"@, "-f"@, "opus"@],
    }
}

/// The whole encoder command line: input format, codec flags, and standard
/// output as the destination.
pub open spec fn encoder_args_spec(codec: OutputCodec) -> Seq<Seq<char>> {
    common_input_args_spec() + codec_output_args_spec(codec) + seq!["-"@]
}

/// The argument list for one codec's encoding subprocess.
pub fn ffmpeg_args(output_codec: &OutputCodec) -> (args: Vec<String>)
    ensures
        args@.map_values(|s: String| s@) == encoder_args_spec(*output_codec),
{
    let mut args: Vec<String> = Vec::new();
    args.push("-f".to_owned());
    args.push("s16le".to_owned());
    args.push("-ar".to_owned());
    args.push("44100".to_owned());
    args.push("-ac".to_owned());
    args.push("2".to_owned());
    args.push("-i".to_owned());
    args.push("-".to_owned());
    match output_codec {
        OutputCodec::Mp3_64kbps => {
            args.push("-b:a".to_owned());
            args.push("128k".to_owned());
            args.push("-f".to_owned());
            args.push("mp3".to_owned());
            args.push("-flush_packets".to_owned());
            args.push("1".to_owned());
            args.push("-write_xing".to_owned());
            args.push("0".to_owned());
            args.push("-id3v2_version".to_owned());
            args.push("0".to_owned());
        },
        OutputCodec::Ogg96kbps => {
            args.push("-b:a".to_owned());
            args.push("96k".to_owned());
            args.push("-f".to_owned());
            args.push("ogg".to_owned());
        },
        OutputCodec::Opus128kbps => {
            args.push("-c:a".to_owned());
            args.push("libopus".to_owned());
            args.push("-b:a".to_owned());
            args.push("128k".to_owned());
            args.push("-f".to_owned());
            args.push("opus".to_owned());
        },
    }
    args.push("-".to_owned());
    proof {
        assert(args@.map_values(|s: String| s@) =~= encoder_args_spec(*output_codec));
    }
    args
}

/// What one read from the encoding subprocess's output means.
pub enum EncoderRead {
    /// The pipeline exited: fatal for this codec's encoding, since
    /// listeners would otherwise be starved without any signal.
    Exhausted,
    /// A non-empty compressed chunk to hand to the output stream.
    Forward(bytes::Bytes),
}

/// Classify one read of `data` from the encoder's output.  Zero bytes is
/// the fatal end of the pipeline; anything else becomes one shared chunk
/// holding exactly the bytes read.
pub fn classify_encoder_read(data: Vec<u8>) -> (out: EncoderRead)
    ensures
        (out is Exhausted) <==> data@.len() == 0,
        out matches EncoderRead::Forward(c) ==> chunk_bytes(c) == data@,
{
    if data.len() == 0 {
        EncoderRead::Exhausted
    } else {
        EncoderRead::Forward(chunk_from_vec(&data))
    }
}

} // verus!
