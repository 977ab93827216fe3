//! What the external tools are told: the command lines of the HLS writer, of
//! the muxer and of the decrypting subprocess, the names of the files that
//! pass between them, and what a finished mux run amounts to.

use vstd::prelude::*;
use crate::text::{decimal, decimal_of_u128, texts};

verus! {

/// How many entries the rolling playlist holds unless told otherwise.
pub const DEFAULT_MAX_SEGMENTS: u32 = 40;

/// How many seconds one playlist entry lasts unless told otherwise.
pub const DEFAULT_SEGMENT_DURATION: u32 = 4;

/// The two sides of a stream.
#[derive(Clone, Copy, Debug, PartialEq, Eq, Structural)]
pub enum MediaKind {
    Video,
    Audio,
}

/// The muxer failed: what it wrote to its error output.
#[derive(Debug)]
pub struct MuxError {
    pub stderr: String,
}

/// The arguments of the HLS writer: it reads MPEG-TS on its input, copies
/// the video, encodes the audio to AAC and keeps a rolling playlist of
/// `max_segments` entries of `segment_time` seconds in `output_dir`, deleting
/// the segment files that leave the list.
pub open spec fn writer_args_spec(output_dir: Seq<char>, max_segments: u32, segment_time: u32)
    -> Seq<Seq<char>> {
    seq![
        "-hide_banner"@,
        "-loglevel"@,
        "error"@,
        "-y"@,
        "-i"@,
        "pipe:0"@,
        "-c:v"@,
        "copy"@,
        "-c:a"@,
        "aac"@,
        "-ac"@,
        "2"@,
        "-channel_layout"@,
        "stereo"@,
        "-b:a"@,
        "128k"@,
        "-ar"@,
        "48000"@,
        "-f"@,
        "hls"@,
        "-hls_time"@,
        decimal(segment_time as int),
        "-hls_list_size"@,
        decimal(max_segments as int),
        "-hls_flags"@,
        "delete_segments"@,
        "-hls_segment_type"@,
        "mpegts"@,
        "-hls_segment_filename"@,
        output_dir + "/segment_%03d.ts"@,
        output_dir + "/master.m3u8"@,
    ]
}

/// The arguments of the muxer: the video of the first file copied, the audio
/// of the second encoded to AAC, as MPEG-TS on its output.
pub open spec fn mux_args_spec(video_path: Seq<char>, audio_path: Seq<char>) -> Seq<Seq<char>> {
    seq![
        "-y"@,
        "-i"@,
        video_path,
        "-i"@,
        audio_path,
        "-map"@,
        "0:v:0"@,
        "-map"@,
        "1:a:0"@,
        "-c:v"@,
        "copy"@,
        "-c:a"@,
        "aac"@,
        "-f"@,
        "mpegts"@,
        "pipe:1"@,
    ]
}

/// The arguments of the decrypting subprocess: it reads the segment on its
/// input and writes it, decrypted with `key` and otherwise copied, on its
/// output.
pub open spec fn fallback_args_spec(key: Seq<char>) -> Seq<Seq<char>> {
    seq!["-y"@, "-decryption_key"@, key, "-i"@, "pipe:0"@, "-c"@, "copy"@, "pipe:1"@]
}

/// The name of the scratch file of one side of the pair with the given
/// sequence number.
pub open spec fn temp_file_name_spec(kind: MediaKind, sequence_number: u32) -> Seq<char> {
    match kind {
        MediaKind::Video => "video_"@ + decimal(sequence_number as int) + ".mp4"@,
        MediaKind::Audio => "audio_"@ + decimal(sequence_number as int) + ".mp4"@,
    }
}

/// What a finished mux run amounts to: its output where it succeeded, its
/// error output otherwise.
pub open spec fn mux_result_spec(success: bool, stdout: Seq<u8>, stderr: Seq<char>) -> Result<
    Seq<u8>,
    Seq<char>,
> {
    if success {
        Ok(stdout)
    } else {
        Err(stderr)
    }
}

/// The view of the outcome of a mux run.
pub open spec fn mux_result_view(r: Result<Vec<u8>, MuxError>) -> Result<Seq<u8>, Seq<char>> {
    match r {
        Ok(b) => Ok(b@),
        Err(e) => Err(e.stderr@),
    }
}

fn push_text(list: &mut Vec<String>, s: &str)
    ensures
        texts(final(list)@) == texts(old(list)@).push(s@),
{
    list.push(String::from_str(s));
    assert(texts(list@) =~= texts(old(list)@).push(s@));
}

fn push_owned(list: &mut Vec<String>, s: String)
    ensures
        texts(final(list)@) == texts(old(list)@).push(s@),
{
    let ghost v = s@;
    list.push(s);
    assert(texts(list@) =~= texts(old(list)@).push(v));
}

/// Writes a count in decimal.
pub fn decimal_of_u32(n: u32) -> (r: String)
    ensures
        r@ == decimal(n as int),
{
    decimal_of_u128(n as u128)
}

/// Builds the arguments of the HLS writer.
pub fn hls_writer_args(output_dir: &str, max_segments: u32, segment_time: u32) -> (r: Vec<String>)
    ensures
        texts(r@) == writer_args_spec(output_dir@, max_segments, segment_time),
{
    let mut args: Vec<String> = Vec::new();
    assert(texts(args@) =~= Seq::<Seq<char>>::empty());
    push_text(&mut args, "-hide_banner");
    push_text(&mut args, "-loglevel");
    push_text(&mut args, "error");
    push_text(&mut args, "-y");
    push_text(&mut args, "-i");
    push_text(&mut args, "pipe:0");
    push_text(&mut args, "-c:v");
    push_text(&mut args, "copy");
    push_text(&mut args, "-c:a");
    push_text(&mut args, "aac");
    push_text(&mut args, "-ac");
    push_text(&mut args, "2");
    push_text(&mut args, "-channel_layout");
    push_text(&mut args, "stereo");
    push_text(&mut args, "-b:a");
    push_text(&mut args, "128k");
    push_text(&mut args, "-ar");
    push_text(&mut args, "48000");
    push_text(&mut args, "-f");
    push_text(&mut args, "hls");
    push_text(&mut args, "-hls_time");
    push_owned(&mut args, decimal_of_u32(segment_time));
    push_text(&mut args, "-hls_list_size");
    push_owned(&mut args, decimal_of_u32(max_segments));
    push_text(&mut args, "-hls_flags");
    push_text(&mut args, "delete_segments");
    push_text(&mut args, "-hls_segment_type");
    push_text(&mut args, "mpegts");
    push_text(&mut args, "-hls_segment_filename");
    push_owned(&mut args, String::from_str(output_dir).concat("/segment_%03d.ts"));
    push_owned(&mut args, String::from_str(output_dir).concat("/master.m3u8"));
    assert(texts(args@) =~= writer_args_spec(output_dir@, max_segments, segment_time));
    args
}

/// Builds the arguments of the muxer for the two scratch files of a pair.
pub fn mux_args(video_path: &str, audio_path: &str) -> (r: Vec<String>)
    ensures
        texts(r@) == mux_args_spec(video_path@, audio_path@),
{
    let mut args: Vec<String> = Vec::new();
    assert(texts(args@) =~= Seq::<Seq<char>>::empty());
    push_text(&mut args, "-y");
    push_text(&mut args, "-i");
    push_text(&mut args, video_path);
    push_text(&mut args, "-i");
    push_text(&mut args, audio_path);
    push_text(&mut args, "-map");
    push_text(&mut args, "0:v:0");
    push_text(&mut args, "-map");
    push_text(&mut args, "1:a:0");
    push_text(&mut args, "-c:v");
    push_text(&mut args, "copy");
    push_text(&mut args, "-c:a");
    push_text(&mut args, "aac");
    push_text(&mut args, "-f");
    push_text(&mut args, "mpegts");
    push_text(&mut args, "pipe:1");
    assert(texts(args@) =~= mux_args_spec(video_path@, audio_path@));
    args
}

/// Builds the arguments of the decrypting subprocess.
pub fn decrypt_fallback_args(key: &str) -> (r: Vec<String>)
    ensures
        texts(r@) == fallback_args_spec(key@),
{
    let mut args: Vec<String> = Vec::new();
    assert(texts(args@) =~= Seq::<Seq<char>>::empty());
    push_text(&mut args, "-y");
    push_text(&mut args, "-decryption_key");
    push_text(&mut args, key);
    push_text(&mut args, "-i");
    push_text(&mut args, "pipe:0");
    push_text(&mut args, "-c");
    push_text(&mut args, "copy");
    push_text(&mut args, "pipe:1");
    assert(texts(args@) =~= fallback_args_spec(key@));
    args
}

/// Names the scratch file of one side of a pair.
pub fn temp_file_name(kind: MediaKind, sequence_number: u32) -> (r: String)
    ensures
        r@ == temp_file_name_spec(kind, sequence_number),
{
    let prefix = match kind {
        MediaKind::Video => "video_",
        MediaKind::Audio => "audio_",
    };
    let number = decimal_of_u32(sequence_number);
    String::from_str(prefix).concat(number.as_str()).concat(".mp4")
}

/// Says what a finished mux run amounts to: `success` is whether the tool
/// exited with status zero.
pub fn mux_result(success: bool, stdout: Vec<u8>, stderr: String) -> (r: Result<Vec<u8>, MuxError>)
    ensures
        mux_result_view(r) == mux_result_spec(success, stdout@, stderr@),
{
    if success {
        Ok(stdout)
    } else {
        Err(MuxError { stderr })
    }
}

} // verus!
