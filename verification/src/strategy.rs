//! Choosing how to open an audio file, and the PCM-source abstraction.
//!
//! A native PCM container (a `.wav`, by extension, case-insensitively) is
//! read directly after skipping its fixed header; every other extension is
//! decoded through the external real-time helper subprocess.  A path with
//! no extension cannot be opened at all.  The choice reads the path's
//! UTF-8 bytes, so a file name in any script selects purely by its
//! extension.  The runtime owns the files and subprocesses; the choice
//! itself is made here.

use vstd::prelude::*;
use vstd::string::StringSliceAdditionalSpecFns;

use crate::chunk::chunk_from_vec;
use crate::pcm::{AudioPacket, BYTES_PER_SECOND};

verus! {

/// Bytes of WAV header a native-container source skips before the samples.
pub const WAV_HEADER_BYTES: u64 = 44;

/// The two ways a PCM source can be backed.
#[derive(Clone, Copy, PartialEq, Eq, Structural, Debug)]
pub enum InputStrategy {
    /// Interleaved PCM read straight from the container after its header.
    WavContainer,
    /// Raw PCM drained from an external decoding subprocess.
    HelperSubprocess,
}

/// Why a path cannot be opened as audio.
#[derive(Clone, Copy, PartialEq, Eq, Structural, Debug)]
pub enum InputPathError {
    /// The file name has no extension to choose a strategy by.
    NoExtension,
}

impl InputPathError {
    /// The error, worded for a log line.
    pub fn message(&self) -> (m: String)
        ensures
            m@ == "file has no extension"@,
    {
        "file has no extension".to_owned()
    }
}

/// The suffix of `p` strictly after the last occurrence of `c`, or all of
/// `p` when `c` does not occur.
pub open spec fn after_last(p: Seq<u8>, c: u8) -> Seq<u8>
    decreases p.len(),
{
    if p.len() == 0 {
        p
    } else if p.last() == c {
        Seq::empty()
    } else {
        after_last(p.drop_last(), c).push(p.last())
    }
}

/// The extension of a path, as the part of the file name after its last
/// dot; a name without a dot, or with its only dot leading, has none.
pub open spec fn extension_spec(p: Seq<u8>) -> Option<Seq<u8>> {
    let name = after_last(p, 47);
    if exists|i: int| 1 <= i < name.len() && name[i] == 46 {
        Option::Some(after_last(name, 46))
    } else {
        Option::None
    }
}

/// ASCII lowercasing, byte by byte.
pub open spec fn lower(b: u8) -> u8 {
    if 65 <= b <= 90 {
        (b + 32) as u8
    } else {
        b
    }
}

/// Whether an extension says "wav", in any case.
pub open spec fn is_wav_ext(e: Seq<u8>) -> bool {
    e.map_values(|b: u8| lower(b)) == seq![119u8, 97u8, 118u8]
}

/// If `j` is the last occurrence of `c`, then `after_last` is exactly the
/// suffix beyond `j`.
proof fn lemma_after_last_at(p: Seq<u8>, c: u8, j: int)
    requires
        0 <= j < p.len(),
        p[j] == c,
        forall|k: int| j < k < p.len() ==> p[k] != c,
    ensures
        after_last(p, c) == p.subrange(j + 1, p.len() as int),
    decreases p.len(),
{
    if j == p.len() - 1 {
        assert(p.subrange(j + 1, p.len() as int) =~= Seq::empty());
    } else {
        lemma_after_last_at(p.drop_last(), c, j);
        assert(p.drop_last().subrange(j + 1, p.len() - 1).push(p.last()) =~= p.subrange(
            j + 1,
            p.len() as int,
        ));
    }
}

/// With no occurrence of `c`, `after_last` is all of `p`.
proof fn lemma_after_last_absent(p: Seq<u8>, c: u8)
    requires
        forall|k: int| 0 <= k < p.len() ==> p[k] != c,
    ensures
        after_last(p, c) == p,
    decreases p.len(),
{
    if p.len() > 0 {
        lemma_after_last_absent(p.drop_last(), c);
        assert(p.drop_last().push(p.last()) =~= p);
    }
}

/// ASCII-lowercase one byte.
fn lower_byte(b: u8) -> (l: u8)
    ensures
        l == lower(b),
{
    if b >= 65 && b <= 90 {
        b + 32
    } else {
        b
    }
}

/// Choose the strategy for a file by its extension, read from the path's
/// UTF-8 bytes: a `.wav` (in any case) is a native container, any other
/// extension goes through the helper subprocess, and a path without an
/// extension is refused.
#[verifier::rlimit(60)]
pub fn open_input_file_strategy(file_path: &str) -> (r: Result<InputStrategy, InputPathError>)
    ensures
        r is Err <==> extension_spec(file_path.spec_bytes()) is None,
        r matches Ok(st) ==> {
            let ext = extension_spec(file_path.spec_bytes())->Some_0;
            st == if is_wav_ext(ext) {
                InputStrategy::WavContainer
            } else {
                InputStrategy::HelperSubprocess
            }
        },
{
    let bytes: Vec<u8> = vstd::slice::slice_to_vec(file_path.as_bytes());
    let ghost p = file_path.spec_bytes();
    // Find the start of the file name: just past the last path separator.
    let mut name_start: usize = bytes.len();
    while name_start > 0 && bytes[name_start - 1] != 47
        invariant
            bytes@ == p,
            name_start <= p.len(),
            forall|k: int| name_start <= k < p.len() ==> p[k] != 47,
        decreases name_start,
    {
        name_start = name_start - 1;
    }
    let ghost name = after_last(p, 47);
    proof {
        if name_start > 0 {
            lemma_after_last_at(p, 47, name_start - 1);
        } else {
            lemma_after_last_absent(p, 47);
        }
        assert(name =~= p.subrange(name_start as int, p.len() as int));
    }
    // Find the last dot within the file name; a leading dot names a hidden
    // file, not an extension.
    let mut dot: usize = bytes.len();
    let mut found_dot: bool = false;
    let mut i: usize = bytes.len();
    while i > name_start
        invariant
            bytes@ == p,
            name_start <= i <= p.len(),
            found_dot ==> i <= dot < p.len() && p[dot as int] == 46 && forall|k: int|
                dot < k < p.len() ==> p[k] != 46,
            !found_dot ==> forall|k: int| i <= k < p.len() ==> p[k] != 46,
        decreases i,
    {
        i = i - 1;
        if bytes[i] == 46 && !found_dot {
            dot = i;
            found_dot = true;
        }
    }
    proof {
        let nlen = name.len();
        if found_dot && dot > name_start {
            let ni = dot - name_start;
            assert(name[ni as int] == 46);
            assert(1 <= ni < nlen);
            assert(exists|q: int| 1 <= q < name.len() && name[q] == 46);
        } else {
            assert forall|q: int| 1 <= q < name.len() implies name[q] != 46 by {
                assert(name[q] == p[name_start + q]);
                if found_dot {
                    assert(dot == name_start);
                    assert(p[name_start + q] != 46);
                }
            }
        }
    }
    if !found_dot || dot == name_start {
        return Err(InputPathError::NoExtension);
    }
    let ghost ext = after_last(name, 46);
    proof {
        lemma_after_last_at(name, 46, dot - name_start);
        assert(ext =~= p.subrange(dot + 1, p.len() as int));
    }
    // Compare the extension, lowercased, against "wav".
    let elen = bytes.len() - (dot + 1);
    let wav = elen == 3 && lower_byte(bytes[dot + 1]) == 119 && lower_byte(bytes[dot + 2]) == 97
        && lower_byte(bytes[dot + 3]) == 118;
    proof {
        let le = ext.map_values(|b: u8| lower(b));
        if wav {
            assert(le =~= seq![119u8, 97u8, 118u8]);
        } else {
            if le == seq![119u8, 97u8, 118u8] {
                assert(le.len() == 3);
                assert(le.len() == ext.len());
                assert(le[0] == lower(ext[0]) && le[1] == lower(ext[1]) && le[2] == lower(
                    ext[2],
                ));
                assert(ext[0] == p[dot + 1] && ext[1] == p[dot + 2] && ext[2] == p[dot + 3]);
                assert(false);
            }
        }
    }
    if wav {
        Ok(InputStrategy::WavContainer)
    } else {
        Ok(InputStrategy::HelperSubprocess)
    }
}

/// The argument list for the external helper that decodes `file_path` to
/// raw PCM on its output: the file in, signed 16-bit little-endian PCM at
/// the process-wide rate and channel count out.
pub fn decode_helper_args(file_path: &str) -> (args: Vec<String>)
    ensures
        args@.map_values(|s: String| s@) == seq![
            "-i"@,
            file_path@,
            "-f"@,
            "s16le"@,
            "-ac"@,
            "2"@,
            "-ar"@,
            "44100"@,
            "-"@,
        ],
{
    let mut args: Vec<String> = Vec::new();
    args.push("-i".to_owned());
    args.push(file_path.to_owned());
    args.push("-f".to_owned());
    args.push("s16le".to_owned());
    args.push("-ac".to_owned());
    args.push("2".to_owned());
    args.push("-ar".to_owned());
    args.push("44100".to_owned());
    args.push("-".to_owned());
    proof {
        assert(args@.map_values(|s: String| s@) =~= seq![
            "-i"@,
            file_path@,
            "-f"@,
            "s16le"@,
            "-ac"@,
            "2"@,
            "-ar"@,
            "44100"@,
            "-"@,
        ]);
    }
    args
}

/// A lazy, finite source of PCM packets for one opened file.  Exhaustion
/// is final: a source is not restartable, the caller opens a fresh one.
pub trait AudioFile {
    /// The path this source was opened on.
    fn audio_file_path(&self) -> String;

    /// The size of the backing file in bytes.
    fn audio_file_size_bytes(&self) -> u64;

    /// The next packet, or `None` once the source is exhausted.  Every
    /// packet produced is well-formed, so it carries strictly positive
    /// playing time.
    fn next_packet(&mut self) -> (p: Option<AudioPacket>)
        ensures
            p matches Some(packet) ==> packet.wf(),
    ;
}

/// A pure PCM source: a given number of one-second packets of silence.
/// It stands in for a real file wherever the pipeline is exercised without
/// touching disk.
pub struct SilenceSource {
    path: String,
    remaining: u32,
}

impl SilenceSource {
    /// A source that will produce `seconds` one-second silent packets.
    pub fn new(path: String, seconds: u32) -> (s: SilenceSource)
        ensures
            s.remaining_packets() == seconds,
    {
        SilenceSource { path, remaining: seconds }
    }

    /// Packets still to be produced.
    pub closed spec fn remaining_packets(self) -> u32 {
        self.remaining
    }
}

impl AudioFile for SilenceSource {
    fn audio_file_path(&self) -> String {
        self.path.clone()
    }

    fn audio_file_size_bytes(&self) -> u64 {
        proof {
            assert((self.remaining as u64) * (BYTES_PER_SECOND as u64) <= (u32::MAX as u64)
                * (BYTES_PER_SECOND as u64)) by (nonlinear_arith)
                requires
                    self.remaining <= u32::MAX,
            ;
        }
        (self.remaining as u64) * (BYTES_PER_SECOND as u64)
    }

    /// One second of silence per pull, until the source runs out.
    fn next_packet(&mut self) -> (p: Option<AudioPacket>)
        ensures
            p matches Some(packet) ==> packet.wf(),
            p is Some <==> old(self).remaining_packets() > 0,
            final(self).remaining_packets() == if old(self).remaining_packets() > 0 {
                old(self).remaining_packets() - 1
            } else {
                0
            },
            p matches Some(packet) ==> packet.audio_micros == 1000000,
    {
        if self.remaining == 0 {
            return None;
        }
        self.remaining = self.remaining - 1;
        let mut samples: Vec<u8> = Vec::new();
        let mut k: u32 = 0;
        while k < BYTES_PER_SECOND
            invariant
                k <= BYTES_PER_SECOND,
                samples@.len() == k,
            decreases BYTES_PER_SECOND - k,
        {
            samples.push(0u8);
            k = k + 1;
        }
        let packet = AudioPacket::new(chunk_from_vec(&samples));
        proof {
            assert(packet.audio_micros == crate::pcm::duration_micros_spec(176400));
            assert(176400nat * 1000000nat / 176400nat == 1000000nat) by (nonlinear_arith);
        }
        Some(packet)
    }
}

} // verus!
