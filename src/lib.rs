//! Checks decoded QOA audio against reference PCM: the layout of a QOA byte
//! stream is scanned and validated, the stream is decoded, and its samples are
//! compared one by one with those of a reference WAV file.

pub mod compare;
pub mod decode;
pub mod format;
pub mod paths;

pub use compare::{
    Comparison, MIN_PASSES, Tally, Verdict, compare, compare_samples, judge, run_succeeded, tally,
};
pub use decode::{
    CodecFault, DecodedStream, StreamError, WavFault, assemble, decode_stream, read_wav,
};
pub use format::{FormatError, FrameInfo, Layout, scan_stream};
pub use paths::get_qoa_path;
