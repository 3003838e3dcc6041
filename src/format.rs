use vstd::prelude::*;
use vstd::assert_seqs_equal;

verus! {

/// Size in bytes of the stream header and of each frame header.
pub const HEADER_SIZE: usize = 8;

/// Size in bytes of one channel's LMS state in a frame.
pub const LMS_STATE_SIZE: usize = 16;

/// Samples per channel covered by one slice.
pub const SLICE_LEN: usize = 20;

/// Largest number of slices a frame may hold per channel.
pub const MAX_SLICES_PER_CHANNEL: usize = 256;

/// The header of one frame, as it stands in the stream.
#[derive(Clone, Copy, Debug, PartialEq, Eq, Structural)]
pub struct FrameInfo {
    /// Byte offset of the frame header in the stream.
    pub offset: usize,
    pub num_channels: u8,
    pub sample_rate: u32,
    pub samples_per_channel: u16,
    /// Size of the whole frame in bytes, header included.
    pub frame_size: u16,
}

/// Why a byte stream is not a well-formed QOA stream.
#[derive(Clone, Copy, Debug, PartialEq, Eq, Structural)]
pub enum FormatError {
    /// The stream ends inside the stream header or inside a frame header.
    UnexpectedEof { offset: usize },
    /// The stream does not start with the tag `qoaf`.
    BadMagic,
    /// A frame header holds a field out of the format's bounds.
    MalformedHeader { offset: usize, frame: usize },
    /// A frame's channel count or sample rate differs from the first frame's.
    IncompatibleFrame { offset: usize, frame: usize },
    /// A frame's declared size reaches past the end of the stream.
    TruncatedFrame { offset: usize, frame: usize },
    /// The frames' sample counts do not add up to the declared total.
    SampleCountMismatch { declared: u32, found: u128 },
}

/// The validated layout of a stream: the declared number of samples per
/// channel and the frame headers in stream order.
pub struct Layout {
    pub samples_per_channel: u32,
    pub frames: Vec<FrameInfo>,
}

pub open spec fn be16(b: Seq<u8>, i: int) -> int {
    b[i] as int * 256 + b[i + 1] as int
}

pub open spec fn be24(b: Seq<u8>, i: int) -> int {
    b[i] as int * 65536 + b[i + 1] as int * 256 + b[i + 2] as int
}

pub open spec fn be32(b: Seq<u8>, i: int) -> int {
    b[i] as int * 16777216 + b[i + 1] as int * 65536 + b[i + 2] as int * 256 + b[i + 3] as int
}

/// The stream starts with the tag `qoaf`.
pub open spec fn has_magic(b: Seq<u8>) -> bool {
    b[0] == 0x71u8 && b[1] == 0x6fu8 && b[2] == 0x61u8 && b[3] == 0x66u8
}

/// The frame header that starts at `off`.
pub open spec fn header_at(b: Seq<u8>, off: int) -> FrameInfo {
    FrameInfo {
        offset: off as usize,
        num_channels: b[off],
        sample_rate: be24(b, off + 1) as u32,
        samples_per_channel: be16(b, off + 4) as u16,
        frame_size: be16(b, off + 6) as u16,
    }
}

/// Bytes of a frame that precede its slices.
pub open spec fn prefix_size(h: FrameInfo) -> int {
    8 + 16 * h.num_channels
}

/// Number of slices per channel in a frame.
pub open spec fn slices_per_channel(h: FrameInfo) -> int {
    (h.frame_size - prefix_size(h)) / 8 / (h.num_channels as int)
}

/// A frame header is well formed: channels and rate are nonzero, the slice
/// area is a whole, nonempty number of slices for each channel, no more than
/// the format allows, and exactly as many as the frame's samples need.
pub open spec fn header_valid(h: FrameInfo) -> bool {
    &&& h.num_channels > 0
    &&& h.sample_rate > 0
    &&& h.frame_size > prefix_size(h)
    &&& (h.frame_size - prefix_size(h)) % 8 == 0
    &&& ((h.frame_size - prefix_size(h)) / 8) % (h.num_channels as int) == 0
    &&& slices_per_channel(h) <= 256
    &&& slices_per_channel(h) == (h.samples_per_channel + 19) / 20
}

/// The frames from offset `off` to the end of the stream, where `idx` frames
/// came before and, if any did, the first had `ch` channels at `rate`.
pub open spec fn frames_at(b: Seq<u8>, off: int, idx: int, ch: u8, rate: u32) -> Result<
    Seq<FrameInfo>,
    FormatError,
>
    decreases b.len() - off,
{
    if off >= b.len() {
        Ok(seq![])
    } else if b.len() - off < 8 {
        Err(FormatError::UnexpectedEof { offset: off as usize })
    } else {
        let h = header_at(b, off);
        if !header_valid(h) {
            Err(FormatError::MalformedHeader { offset: off as usize, frame: idx as usize })
        } else if idx > 0 && (h.num_channels != ch || h.sample_rate != rate) {
            Err(FormatError::IncompatibleFrame { offset: off as usize, frame: idx as usize })
        } else if h.frame_size > b.len() - off {
            Err(FormatError::TruncatedFrame { offset: off as usize, frame: idx as usize })
        } else {
            prepend(
                seq![h],
                frames_at(b, off + h.frame_size, idx + 1, h.num_channels, h.sample_rate),
            )
        }
    }
}

/// `s` put in front of the frames of `r`, or the error of `r`.
pub open spec fn prepend(s: Seq<FrameInfo>, r: Result<Seq<FrameInfo>, FormatError>) -> Result<
    Seq<FrameInfo>,
    FormatError,
> {
    match r {
        Ok(rest) => Ok(s + rest),
        Err(e) => Err(e),
    }
}

/// Sum of the frames' samples per channel.
pub open spec fn total_samples(fs: Seq<FrameInfo>) -> int
    decreases fs.len(),
{
    if fs.len() == 0 {
        0
    } else {
        total_samples(fs.drop_last()) + fs.last().samples_per_channel
    }
}

/// The layout of a stream: the declared samples per channel and the frames,
/// or the first fault met in stream order.
pub open spec fn layout_of(b: Seq<u8>) -> Result<(u32, Seq<FrameInfo>), FormatError> {
    if b.len() < 8 {
        Err(FormatError::UnexpectedEof { offset: b.len() as usize })
    } else if !has_magic(b) {
        Err(FormatError::BadMagic)
    } else {
        match frames_at(b, 8, 0, 0, 0) {
            Err(e) => Err(e),
            Ok(fs) => if total_samples(fs) == be32(b, 4) {
                Ok((be32(b, 4) as u32, fs))
            } else {
                Err(
                    FormatError::SampleCountMismatch {
                        declared: be32(b, 4) as u32,
                        found: total_samples(fs) as u128,
                    },
                )
            },
        }
    }
}

proof fn lemma_prepend_push(acc: Seq<FrameInfo>, h: FrameInfo, r: Result<Seq<FrameInfo>, FormatError>)
    ensures
        prepend(acc, prepend(seq![h], r)) == prepend(acc.push(h), r),
{
    if let Ok(rest) = r {
        assert_seqs_equal!(acc + (seq![h] + rest), acc.push(h) + rest);
    }
}

proof fn lemma_total_bound(fs: Seq<FrameInfo>)
    ensures
        0 <= total_samples(fs) <= 65535 * fs.len(),
    decreases fs.len(),
{
    if fs.len() > 0 {
        lemma_total_bound(fs.drop_last());
    }
}

fn read_be16(b: &[u8], i: usize) -> (r: u16)
    requires
        i + 2 <= b@.len(),
    ensures
        r as int == be16(b@, i as int),
{
    (b[i] as u16) * 256 + b[i + 1] as u16
}

fn read_be24(b: &[u8], i: usize) -> (r: u32)
    requires
        i + 3 <= b@.len(),
    ensures
        r as int == be24(b@, i as int),
{
    (b[i] as u32) * 65536 + (b[i + 1] as u32) * 256 + b[i + 2] as u32
}

fn read_be32(b: &[u8], i: usize) -> (r: u32)
    requires
        i + 4 <= b@.len(),
    ensures
        r as int == be32(b@, i as int),
{
    (b[i] as u32) * 16777216 + (b[i + 1] as u32) * 65536 + (b[i + 2] as u32) * 256
        + b[i + 3] as u32
}

/// Reads the frame header at `off`.
pub fn read_frame_header(b: &[u8], off: usize) -> (r: FrameInfo)
    requires
        off + 8 <= b@.len(),
    ensures
        r == header_at(b@, off as int),
{
    FrameInfo {
        offset: off,
        num_channels: b[off],
        sample_rate: read_be24(b, off + 1),
        samples_per_channel: read_be16(b, off + 4),
        frame_size: read_be16(b, off + 6),
    }
}

/// Whether a frame header is well formed.
pub fn check_frame_header(h: &FrameInfo) -> (r: bool)
    ensures
        r == header_valid(*h),
{
    if h.num_channels == 0 || h.sample_rate == 0 {
        return false;
    }
    let ch = h.num_channels as usize;
    let prefix: usize = HEADER_SIZE + LMS_STATE_SIZE * ch;
    let size = h.frame_size as usize;
    if size <= prefix {
        return false;
    }
    let data = size - prefix;
    if data % 8 != 0 {
        return false;
    }
    let slices = data / 8;
    if slices % ch != 0 {
        return false;
    }
    let per_channel = slices / ch;
    let needed = (h.samples_per_channel as usize + SLICE_LEN - 1) / SLICE_LEN;
    per_channel <= MAX_SLICES_PER_CHANNEL && per_channel == needed
}

/// Scans a QOA byte stream: the stream header, then each frame header in
/// turn, each frame being skipped by its declared size. Succeeds exactly when
/// every frame is well formed, agrees with the first in channels and rate,
/// lies within the stream, and the frames' samples add up to the declared
/// total; otherwise reports the first fault met.
pub fn scan_stream(bytes: &[u8]) -> (r: Result<Layout, FormatError>)
    ensures
        match layout_of(bytes@) {
            Ok((total, fs)) => r matches Ok(l) && l.samples_per_channel == total && l.frames@
                == fs,
            Err(e) => r == Err::<Layout, FormatError>(e),
        },
        r matches Ok(l) ==> total_samples(l.frames@) == l.samples_per_channel as int,
{
    let len = bytes.len();
    if len < HEADER_SIZE {
        return Err(FormatError::UnexpectedEof { offset: len });
    }
    if !(bytes[0] == 0x71u8 && bytes[1] == 0x6fu8 && bytes[2] == 0x61u8 && bytes[3] == 0x66u8) {
        return Err(FormatError::BadMagic);
    }
    let declared = read_be32(bytes, 4);
    let mut frames: Vec<FrameInfo> = Vec::new();
    let mut off: usize = HEADER_SIZE;
    let mut ch: u8 = 0;
    let mut rate: u32 = 0;
    let mut sum: u128 = 0;
    proof {
        assert_seqs_equal!(Seq::<FrameInfo>::empty() + frames_at(bytes@, 8, 0, 0, 0)->Ok_0,
            frames_at(bytes@, 8, 0, 0, 0)->Ok_0);
    }
    while off < len
        invariant
            len == bytes@.len(),
            len >= 8,
            has_magic(bytes@),
            declared as int == be32(bytes@, 4),
            8 <= off <= len,
            frames@.len() <= off,
            frames@.len() > 0 ==> ch == frames@.last().num_channels && rate
                == frames@.last().sample_rate,
            frames_at(bytes@, 8, 0, 0, 0) == prepend(
                frames@,
                frames_at(bytes@, off as int, frames@.len() as int, ch, rate),
            ),
            sum as int == total_samples(frames@),
        decreases len - off,
    {
        let idx = frames.len();
        if len - off < HEADER_SIZE {
            return Err(FormatError::UnexpectedEof { offset: off });
        }
        let h = read_frame_header(bytes, off);
        if !check_frame_header(&h) {
            return Err(FormatError::MalformedHeader { offset: off, frame: idx });
        }
        if idx > 0 && (h.num_channels != ch || h.sample_rate != rate) {
            return Err(FormatError::IncompatibleFrame { offset: off, frame: idx });
        }
        if h.frame_size as usize > len - off {
            return Err(FormatError::TruncatedFrame { offset: off, frame: idx });
        }
        proof {
            lemma_prepend_push(
                frames@,
                h,
                frames_at(
                    bytes@,
                    off + h.frame_size,
                    idx + 1,
                    h.num_channels,
                    h.sample_rate,
                ),
            );
            lemma_total_bound(frames@);
            assert(frames@.push(h).drop_last() == frames@);
        }
        frames.push(h);
        sum = sum + h.samples_per_channel as u128;
        off = off + h.frame_size as usize;
        ch = h.num_channels;
        rate = h.sample_rate;
    }
    proof {
        assert_seqs_equal!(frames@ + Seq::<FrameInfo>::empty(), frames@);
    }
    if sum != declared as u128 {
        return Err(FormatError::SampleCountMismatch { declared, found: sum });
    }
    Ok(Layout { samples_per_channel: declared, frames })
}

/// Every frame of a well-formed run of frames has a valid header.
proof fn lemma_frames_valid(b: Seq<u8>, off: int, idx: int, ch: u8, rate: u32)
    requires
        frames_at(b, off, idx, ch, rate) is Ok,
    ensures
        forall|i: int|
            0 <= i < frames_at(b, off, idx, ch, rate)->Ok_0.len() ==> header_valid(
                #[trigger] frames_at(b, off, idx, ch, rate)->Ok_0[i],
            ),
    decreases b.len() - off,
{
    if off < b.len() && b.len() - off >= 8 {
        let h = header_at(b, off);
        let next = off + h.frame_size;
        lemma_frames_valid(b, next, idx + 1, h.num_channels, h.sample_rate);
        let rest = frames_at(b, next, idx + 1, h.num_channels, h.sample_rate)->Ok_0;
        assert forall|i: int| 0 <= i < rest.len() + 1 implies header_valid(
            #[trigger] (seq![h] + rest)[i],
        ) by {
            if i > 0 {
                assert((seq![h] + rest)[i] == rest[i - 1]);
            }
        }
    }
}

/// A valid frame holds at least one sample per channel.
proof fn lemma_valid_frame_has_samples(h: FrameInfo)
    requires
        header_valid(h),
    ensures
        h.samples_per_channel >= 1,
{
    let data = h.frame_size - prefix_size(h);
    let ch = h.num_channels as int;
    let slices = data / 8;
    assert(slices >= 1);
    assert(slices / ch >= 1) by (nonlinear_arith)
        requires
            slices >= 1,
            ch >= 1,
            slices % ch == 0,
    ;
}

proof fn lemma_total_at_least_count(fs: Seq<FrameInfo>)
    requires
        forall|i: int| 0 <= i < fs.len() ==> (#[trigger] fs[i]).samples_per_channel >= 1,
    ensures
        total_samples(fs) >= fs.len(),
    decreases fs.len(),
{
    if fs.len() > 0 {
        let init = fs.drop_last();
        assert forall|i: int| 0 <= i < init.len() implies (#[trigger] init[i]).samples_per_channel
            >= 1 by {
            assert(init[i] == fs[i]);
        }
        lemma_total_at_least_count(init);
    }
}

/// The frames of a valid stream add up to its declared number of samples
/// per channel.
pub proof fn lemma_layout_sums_to_total(b: Seq<u8>)
    requires
        layout_of(b) is Ok,
    ensures
        total_samples(layout_of(b)->Ok_0.1) == layout_of(b)->Ok_0.0 as int,
{
}

/// A valid stream that declares zero samples holds no frames.
pub proof fn lemma_zero_total_has_no_frames(b: Seq<u8>)
    requires
        layout_of(b) is Ok,
        layout_of(b)->Ok_0.0 == 0,
    ensures
        layout_of(b)->Ok_0.1.len() == 0,
{
    let fs = layout_of(b)->Ok_0.1;
    lemma_frames_valid(b, 8, 0, 0, 0);
    assert forall|i: int| 0 <= i < fs.len() implies (#[trigger] fs[i]).samples_per_channel
        >= 1 by {
        lemma_valid_frame_has_samples(fs[i]);
    }
    lemma_total_at_least_count(fs);
}

/// A stream whose first frame header is valid but whose declared frame size
/// reaches past the end of the stream is refused as a truncated frame.
pub proof fn lemma_truncated_first_frame(b: Seq<u8>)
    requires
        b.len() >= 16,
        has_magic(b),
        header_valid(header_at(b, 8)),
        header_at(b, 8).frame_size > b.len() - 8,
    ensures
        layout_of(b) == Err::<(u32, Seq<FrameInfo>), FormatError>(
            FormatError::TruncatedFrame { offset: 8, frame: 0 },
        ),
{
}

} // verus!
