use vstd::prelude::*;
use crate::format::{
    FormatError, FrameInfo, Layout, has_magic, header_at, header_valid, layout_of,
    lemma_truncated_first_frame, lemma_zero_total_has_no_frames, scan_stream, total_samples,
};

verus! {

/// Why the QOA decoder gave up on a stream.
#[derive(Clone, Copy, Debug, PartialEq, Eq, Structural)]
pub enum CodecFault {
    NotQoaFile,
    NoSamples,
    InvalidFrameHeader,
    IncompatibleFrame,
    /// The decoder ran out of bytes.
    Io,
}

/// Why a WAV stream could not be read.
#[derive(Clone, Copy, Debug, PartialEq, Eq, Structural)]
pub enum WavFault {
    /// The RIFF/WAVE header or format chunk was refused.
    Header,
    /// A sample could not be read as a 16-bit integer.
    Samples,
}

/// Why a QOA stream did not decode.
#[derive(Clone, Copy, Debug, PartialEq, Eq, Structural)]
pub enum StreamError {
    /// The stream's layout is not well formed.
    Format(FormatError),
    /// The decoder refused the stream.
    Codec(CodecFault),
    /// The decoder emitted another number of samples than the layout declares.
    SampleCountMismatch { expected: u64, decoded: usize },
}

/// A decoded stream: interleaved samples of all channels.
pub struct DecodedStream {
    pub num_channels: u8,
    pub sample_rate: u32,
    pub samples: Vec<i16>,
}

/// The interleaved samples that the QOA decoder returns for a whole stream
/// held in memory, or the fault it stops at.
pub uninterp spec fn qoa_decoded(b: Seq<u8>) -> Result<Seq<i16>, CodecFault>;

/// The samples that the WAV reader returns, as 16-bit integers, for a whole
/// file held in memory, or the fault it stops at.
pub uninterp spec fn wav_decoded(b: Seq<u8>) -> Result<Seq<i16>, WavFault>;

/// Relies on qoaudio::decode_all over an in-memory reader: it reads the stream
/// from its first byte and returns every sample of every frame in stream
/// order, or its first error, as a function of the bytes alone. Its LMS weight
/// update uses `+=` on `i32`, so in a build with overflow checks a stream
/// crafted to drive a weight past the `i32` range makes it panic.
#[verifier::external_body]
fn qoa_decode_all(bytes: &[u8]) -> (r: Result<Vec<i16>, CodecFault>)
    ensures
        match qoa_decoded(bytes@) {
            Ok(s) => r matches Ok(v) && v@ == s,
            Err(f) => r == Err::<Vec<i16>, CodecFault>(f),
        },
{
    match qoaudio::decode_all(bytes) {
        Ok(d) => Ok(d.samples),
        Err(qoaudio::DecodeError::NotQoaFile) => Err(CodecFault::NotQoaFile),
        Err(qoaudio::DecodeError::NoSamples) => Err(CodecFault::NoSamples),
        Err(qoaudio::DecodeError::InvalidFrameHeader) => Err(CodecFault::InvalidFrameHeader),
        Err(qoaudio::DecodeError::IncompatibleFrame) => Err(CodecFault::IncompatibleFrame),
        Err(qoaudio::DecodeError::IoError(_)) => Err(CodecFault::Io),
    }
}

/// Relies on hound::WavReader::new and WavReader::into_samples over an
/// in-memory reader: the header is parsed, then every sample is read as an
/// `i16`, as a function of the bytes alone.
#[verifier::external_body]
fn wav_read_all(bytes: &[u8]) -> (r: Result<Vec<i16>, WavFault>)
    ensures
        match wav_decoded(bytes@) {
            Ok(s) => r matches Ok(v) && v@ == s,
            Err(f) => r == Err::<Vec<i16>, WavFault>(f),
        },
{
    let reader = match hound::WavReader::new(bytes) {
        Ok(reader) => reader,
        Err(_) => return Err(WavFault::Header),
    };
    match reader.into_samples::<i16>().collect::<Result<Vec<i16>, hound::Error>>() {
        Ok(v) => Ok(v),
        Err(_) => Err(WavFault::Samples),
    }
}

/// Reads all samples of a WAV file held in memory.
pub fn read_wav(bytes: &[u8]) -> (r: Result<Vec<i16>, WavFault>)
    ensures
        match wav_decoded(bytes@) {
            Ok(s) => r matches Ok(v) && v@ == s,
            Err(f) => r == Err::<Vec<i16>, WavFault>(f),
        },
{
    wav_read_all(bytes)
}

/// Number of interleaved samples a layout declares.
pub open spec fn expected_len(total: u32, fs: Seq<FrameInfo>) -> int {
    if fs.len() == 0 {
        0
    } else {
        total as int * fs[0].num_channels as int
    }
}

/// Channel count and sample rate of a stream: those of its first frame.
pub open spec fn format_of(fs: Seq<FrameInfo>) -> (u8, u32) {
    if fs.len() == 0 {
        (0, 0)
    } else {
        (fs[0].num_channels, fs[0].sample_rate)
    }
}

/// What decoding yields for a layout and the decoder's output.
pub open spec fn assembled(total: u32, fs: Seq<FrameInfo>, d: Result<Seq<i16>, CodecFault>) -> Result<
    (u8, u32, Seq<i16>),
    StreamError,
> {
    match d {
        Err(f) => Err(StreamError::Codec(f)),
        Ok(s) => if s.len() == expected_len(total, fs) {
            Ok((format_of(fs).0, format_of(fs).1, s))
        } else {
            Err(
                StreamError::SampleCountMismatch {
                    expected: expected_len(total, fs) as u64,
                    decoded: s.len() as usize,
                },
            )
        },
    }
}

/// What decoding a whole stream yields.
pub open spec fn stream_result(b: Seq<u8>) -> Result<(u8, u32, Seq<i16>), StreamError> {
    match layout_of(b) {
        Err(e) => Err(StreamError::Format(e)),
        Ok((total, fs)) => assembled(total, fs, qoa_decoded(b)),
    }
}

/// `r` is the decoded stream that `expected` describes, or its error.
pub open spec fn decoded_as(
    r: Result<DecodedStream, StreamError>,
    expected: Result<(u8, u32, Seq<i16>), StreamError>,
) -> bool {
    match expected {
        Ok((ch, rate, s)) => r matches Ok(d) && d.num_channels == ch && d.sample_rate == rate
            && d.samples@ == s,
        Err(e) => r == Err::<DecodedStream, StreamError>(e),
    }
}

/// Joins a validated layout with what the decoder returned for the same
/// stream: the samples are kept when their number is the declared samples per
/// channel times the channel count, and refused otherwise.
pub fn assemble(layout: &Layout, decoded: Result<Vec<i16>, CodecFault>) -> (r: Result<
    DecodedStream,
    StreamError,
>)
    ensures
        decoded_as(
            r,
            assembled(
                layout.samples_per_channel,
                layout.frames@,
                match decoded {
                    Ok(v) => Ok(v@),
                    Err(f) => Err(f),
                },
            ),
        ),
{
    let samples = match decoded {
        Ok(v) => v,
        Err(f) => return Err(StreamError::Codec(f)),
    };
    let (ch, rate) = if layout.frames.len() == 0 {
        (0u8, 0u32)
    } else {
        (layout.frames[0].num_channels, layout.frames[0].sample_rate)
    };
    let expected: u64 = if layout.frames.len() == 0 {
        0
    } else {
        let total = layout.samples_per_channel as u64;
        proof {
            assert(total * (ch as u64) <= 0xffff_ffffu64 * 0xffu64) by (nonlinear_arith)
                requires
                    total <= 0xffff_ffffu64,
                    ch <= 0xffu8,
            ;
        }
        total * ch as u64
    };
    if samples.len() as u64 != expected {
        return Err(StreamError::SampleCountMismatch { expected, decoded: samples.len() });
    }
    Ok(DecodedStream { num_channels: ch, sample_rate: rate, samples })
}

/// Decodes a whole QOA stream held in memory. The layout is validated first;
/// a stream that passes is handed to the decoder, and its samples are kept
/// only when their number matches the layout.
pub fn decode_stream(bytes: &[u8]) -> (r: Result<DecodedStream, StreamError>)
    ensures
        decoded_as(r, stream_result(bytes@)),
{
    let layout = match scan_stream(bytes) {
        Ok(layout) => layout,
        Err(e) => return Err(StreamError::Format(e)),
    };
    let decoded = qoa_decode_all(bytes);
    assemble(&layout, decoded)
}

/// Decoding is deterministic: the same bytes always give the same samples,
/// or the same error.
pub proof fn lemma_decode_deterministic(a: Seq<u8>, b: Seq<u8>)
    requires
        a == b,
    ensures
        stream_result(a) == stream_result(b),
{
}

/// A stream that decodes holds, over its frames, exactly the declared number
/// of samples per channel, and yields that many samples for each channel.
pub proof fn lemma_frame_counts_sum_to_total(b: Seq<u8>)
    requires
        stream_result(b) is Ok,
    ensures
        layout_of(b) matches Ok((total, fs)) && total_samples(fs) == total as int
            && stream_result(b)->Ok_0.2.len() == expected_len(total, fs),
{
}

/// A valid stream that declares zero samples decodes, when the decoder
/// accepts it, to no samples at all.
pub proof fn lemma_zero_total_decodes_empty(b: Seq<u8>)
    requires
        layout_of(b) is Ok,
        layout_of(b)->Ok_0.0 == 0,
        qoa_decoded(b) is Ok,
    ensures
        stream_result(b) is Ok ==> stream_result(b)->Ok_0.2.len() == 0,
        stream_result(b) is Err ==> stream_result(b) == Err::<(u8, u32, Seq<i16>), StreamError>(
            StreamError::SampleCountMismatch { expected: 0, decoded: qoa_decoded(b)->Ok_0.len() as usize },
        ),
{
    lemma_zero_total_has_no_frames(b);
}

/// A stream whose first frame reaches past the end of the bytes fails to
/// decode with a truncated-frame error, whatever the decoder would make of it.
pub proof fn lemma_truncated_stream_fails(b: Seq<u8>)
    requires
        b.len() >= 16,
        has_magic(b),
        header_valid(header_at(b, 8)),
        header_at(b, 8).frame_size > b.len() - 8,
    ensures
        stream_result(b) == Err::<(u8, u32, Seq<i16>), StreamError>(
            StreamError::Format(FormatError::TruncatedFrame { offset: 8, frame: 0 }),
        ),
{
    lemma_truncated_first_frame(b);
}

} // verus!
