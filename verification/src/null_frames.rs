//! The fixed priming frame and MIME subtype of each output codec.
//!
//! A listener that joins mid-stream would otherwise hand its decoder bytes
//! that start in the middle of a frame.  Sending one fixed, minimal silent
//! frame first guarantees the decoder begins at a known synchronization
//! point.  The frames are embedded here as constant byte sequences: for
//! MP3, one whole silent frame; for the Ogg containers, one
//! beginning-of-stream identification page with its page checksum filled
//! in, so that checksumming decoders accept it.

use vstd::prelude::*;

use crate::encoder::OutputCodec;

verus! {

/// Bytes in one 128 kbps, 44.1 kHz MPEG-1 Layer III frame.
pub const MP3_FRAME_LEN: usize = 417;

/// The silent MP3 priming frame: one frame header (sync word, Layer III,
/// 128 kbps, 44.1 kHz, stereo) followed by an all-zero payload.
pub open spec fn mp3_null_frame_spec() -> Seq<u8> {
    seq![0xffu8, 0xfbu8, 0x90u8, 0x00u8] + Seq::new((MP3_FRAME_LEN - 4) as nat, |i: int| 0u8)
}

/// The Ogg priming frame: one beginning-of-stream Ogg page, page checksum
/// included, whose single segment is a Vorbis identification header for
/// stereo audio at the process-wide sample rate.
pub open spec fn ogg_null_frame_spec() -> Seq<u8> {
    seq![
        0x4fu8, 0x67u8, 0x67u8, 0x53u8, 0x00u8, 0x02u8, 0x00u8, 0x00u8, 0x00u8, 0x00u8, 0x00u8,
        0x00u8, 0x00u8, 0x00u8, 0x00u8, 0x00u8, 0x00u8, 0x00u8, 0x00u8, 0x00u8, 0x00u8, 0x00u8,
        0x62u8, 0x9fu8, 0x9eu8, 0x31u8, 0x01u8, 0x1eu8, 0x01u8, 0x76u8, 0x6fu8, 0x72u8, 0x62u8,
        0x69u8, 0x73u8, 0x00u8, 0x00u8, 0x00u8, 0x00u8, 0x02u8, 0x44u8, 0xacu8, 0x00u8, 0x00u8,
        0x00u8, 0x00u8, 0x00u8, 0x00u8, 0x00u8, 0x77u8, 0x01u8, 0x00u8, 0x00u8, 0x00u8, 0x00u8,
        0x00u8, 0xb8u8, 0x01u8,
    ]
}

/// The Opus priming frame: one beginning-of-stream Ogg page, page checksum
/// included, whose single segment is an Opus identification header for
/// stereo audio.
pub open spec fn opus_null_frame_spec() -> Seq<u8> {
    seq![
        0x4fu8, 0x67u8, 0x67u8, 0x53u8, 0x00u8, 0x02u8, 0x00u8, 0x00u8, 0x00u8, 0x00u8, 0x00u8,
        0x00u8, 0x00u8, 0x00u8, 0x00u8, 0x00u8, 0x00u8, 0x00u8, 0x00u8, 0x00u8, 0x00u8, 0x00u8,
        0x1cu8, 0xd5u8, 0xc5u8, 0xf7u8, 0x01u8, 0x13u8, 0x4fu8, 0x70u8, 0x75u8, 0x73u8, 0x48u8,
        0x65u8, 0x61u8, 0x64u8, 0x01u8, 0x02u8, 0x38u8, 0x01u8, 0x80u8, 0xbbu8, 0x00u8, 0x00u8,
        0x00u8, 0x00u8, 0x00u8,
    ]
}

/// The fixed priming frame a new listener receives before any live audio.
pub open spec fn null_frame_spec(codec: OutputCodec) -> Seq<u8> {
    match codec {
        OutputCodec::Mp3_64kbps => mp3_null_frame_spec(),
        OutputCodec::Ogg96kbps => ogg_null_frame_spec(),
        OutputCodec::Opus128kbps => opus_null_frame_spec(),
    }
}

/// A priming frame is never empty: the listener's byte counter moves on
/// the very first yield.
pub proof fn lemma_null_frame_nonempty(codec: OutputCodec)
    ensures
        null_frame_spec(codec).len() > 0,
{
}

/// Append `count` zero bytes.
fn push_zeros(out: &mut Vec<u8>, count: usize)
    requires
        old(out)@.len() + count <= usize::MAX,
    ensures
        final(out)@ == old(out)@ + Seq::new(count as nat, |i: int| 0u8),
{
    let mut k: usize = 0;
    while k < count
        invariant
            k <= count,
            old(out)@.len() + count <= usize::MAX,
            out@ == old(out)@ + Seq::new(k as nat, |i: int| 0u8),
        decreases count - k,
    {
        out.push(0u8);
        k = k + 1;
        proof {
            assert(out@ =~= old(out)@ + Seq::new(k as nat, |i: int| 0u8));
        }
    }
}

/// The priming frame for `codec`, as bytes ready to hand to a listener.
#[verifier::rlimit(100)]
pub fn get_null_frame(codec: &OutputCodec) -> (frame: Vec<u8>)
    ensures
        frame@ == null_frame_spec(*codec),
{
    let mut frame: Vec<u8> = Vec::new();
    match codec {
        OutputCodec::Mp3_64kbps => {
            frame.push(0xff);
            frame.push(0xfb);
            frame.push(0x90);
            frame.push(0x00);
            push_zeros(&mut frame, MP3_FRAME_LEN - 4);
            proof {
                assert(frame@ =~= mp3_null_frame_spec());
            }
        },
        OutputCodec::Ogg96kbps => {
            frame.push(0x4f);
            frame.push(0x67);
            frame.push(0x67);
            frame.push(0x53);
            frame.push(0x00);
            frame.push(0x02);
            frame.push(0x00);
            frame.push(0x00);
            frame.push(0x00);
            frame.push(0x00);
            frame.push(0x00);
            frame.push(0x00);
            frame.push(0x00);
            frame.push(0x00);
            frame.push(0x00);
            frame.push(0x00);
            frame.push(0x00);
            frame.push(0x00);
            frame.push(0x00);
            frame.push(0x00);
            frame.push(0x00);
            frame.push(0x00);
            frame.push(0x62);
            frame.push(0x9f);
            frame.push(0x9e);
            frame.push(0x31);
            frame.push(0x01);
            frame.push(0x1e);
            frame.push(0x01);
            frame.push(0x76);
            frame.push(0x6f);
            frame.push(0x72);
            frame.push(0x62);
            frame.push(0x69);
            frame.push(0x73);
            frame.push(0x00);
            frame.push(0x00);
            frame.push(0x00);
            frame.push(0x00);
            frame.push(0x02);
            frame.push(0x44);
            frame.push(0xac);
            frame.push(0x00);
            frame.push(0x00);
            frame.push(0x00);
            frame.push(0x00);
            frame.push(0x00);
            frame.push(0x00);
            frame.push(0x00);
            frame.push(0x77);
            frame.push(0x01);
            frame.push(0x00);
            frame.push(0x00);
            frame.push(0x00);
            frame.push(0x00);
            frame.push(0x00);
            frame.push(0xb8);
            frame.push(0x01);
            proof {
                assert(frame@ =~= ogg_null_frame_spec());
            }
        },
        OutputCodec::Opus128kbps => {
            frame.push(0x4f);
            frame.push(0x67);
            frame.push(0x67);
            frame.push(0x53);
            frame.push(0x00);
            frame.push(0x02);
            frame.push(0x00);
            frame.push(0x00);
            frame.push(0x00);
            frame.push(0x00);
            frame.push(0x00);
            frame.push(0x00);
            frame.push(0x00);
            frame.push(0x00);
            frame.push(0x00);
            frame.push(0x00);
            frame.push(0x00);
            frame.push(0x00);
            frame.push(0x00);
            frame.push(0x00);
            frame.push(0x00);
            frame.push(0x00);
            frame.push(0x1c);
            frame.push(0xd5);
            frame.push(0xc5);
            frame.push(0xf7);
            frame.push(0x01);
            frame.push(0x13);
            frame.push(0x4f);
            frame.push(0x70);
            frame.push(0x75);
            frame.push(0x73);
            frame.push(0x48);
            frame.push(0x65);
            frame.push(0x61);
            frame.push(0x64);
            frame.push(0x01);
            frame.push(0x02);
            frame.push(0x38);
            frame.push(0x01);
            frame.push(0x80);
            frame.push(0xbb);
            frame.push(0x00);
            frame.push(0x00);
            frame.push(0x00);
            frame.push(0x00);
            frame.push(0x00);
            proof {
                assert(frame@ =~= opus_null_frame_spec());
            }
        },
    }
    frame
}

/// The MIME subtype (under `audio/`) of each codec's stream.
pub open spec fn mime_subtype_spec(codec: OutputCodec) -> Seq<char> {
    match codec {
        OutputCodec::Mp3_64kbps => "mpeg"@,
        OutputCodec::Ogg96kbps => "ogg"@,
        OutputCodec::Opus128kbps => "opus"@,
    }
}

/// The MIME subtype (under `audio/`) a listener of `codec` is served with.
pub fn get_mime_type(codec: &OutputCodec) -> (mime: String)
    ensures
        mime@ == mime_subtype_spec(*codec),
{
    match codec {
        OutputCodec::Mp3_64kbps => "mpeg".to_owned(),
        OutputCodec::Ogg96kbps => "ogg".to_owned(),
        OutputCodec::Opus128kbps => "opus".to_owned(),
    }
}

} // verus!
