use qoa_compare::{
    CodecFault, FormatError, StreamError, assemble, decode_stream, scan_stream,
};

fn stream(total: u32, frames: &[Vec<u8>]) -> Vec<u8> {
    let mut b = b"qoaf".to_vec();
    b.extend_from_slice(&total.to_be_bytes());
    for f in frames {
        b.extend_from_slice(f);
    }
    b
}

fn frame_header(channels: u8, rate: u32, samples: u16, size: u16) -> Vec<u8> {
    let mut h = vec![channels];
    h.extend_from_slice(&rate.to_be_bytes()[1..]);
    h.extend_from_slice(&samples.to_be_bytes());
    h.extend_from_slice(&size.to_be_bytes());
    h
}

/// One mono frame of `samples` samples at `rate`, with zero LMS state and
/// all-zero slices.
fn silent_mono_frame(rate: u32, samples: u16) -> Vec<u8> {
    let slices = (samples as usize + 19) / 20;
    let size = 8 + 16 + 8 * slices;
    let mut f = frame_header(1, rate, samples, size as u16);
    f.extend(std::iter::repeat(0u8).take(16 + 8 * slices));
    f
}

#[test]
fn zero_residual_slice_decodes_to_constant_samples() {
    let b = stream(20, &[silent_mono_frame(8000, 20)]);
    let d = decode_stream(&b).unwrap();
    assert_eq!(d.num_channels, 1);
    assert_eq!(d.sample_rate, 8000);
    assert_eq!(d.samples.len(), 20);
    assert!(d.samples.iter().all(|&s| s == d.samples[0]));
    assert_eq!(d.samples, vec![1i16; 20]);
}

#[test]
fn decoding_twice_gives_identical_samples() {
    let b = stream(45, &[silent_mono_frame(8000, 40), silent_mono_frame(8000, 5)]);
    let first = decode_stream(&b).unwrap();
    let second = decode_stream(&b).unwrap();
    assert_eq!(first.samples, second.samples);
    assert_eq!(first.samples.len(), 45);
}

#[test]
fn frame_sample_counts_sum_to_declared_total() {
    let b = stream(65, &[silent_mono_frame(44100, 40), silent_mono_frame(44100, 25)]);
    let layout = scan_stream(&b).unwrap();
    assert_eq!(layout.samples_per_channel, 65);
    assert_eq!(layout.frames.len(), 2);
    let sum: u32 = layout.frames.iter().map(|f| f.samples_per_channel as u32).sum();
    assert_eq!(sum, 65);
    assert_eq!(layout.frames[1].offset, 8 + 8 + 16 + 16);
}

#[test]
fn zero_total_decodes_to_nothing() {
    let b = stream(0, &[]);
    let layout = scan_stream(&b).unwrap();
    assert_eq!(layout.samples_per_channel, 0);
    assert!(layout.frames.is_empty());
    let d = decode_stream(&b).unwrap();
    assert!(d.samples.is_empty());
}

#[test]
fn truncated_frame_is_refused() {
    let mut f = silent_mono_frame(8000, 40);
    f.truncate(32);
    let b = stream(40, &[f]);
    let err = FormatError::TruncatedFrame { offset: 8, frame: 0 };
    assert_eq!(scan_stream(&b).err(), Some(err));
    assert_eq!(decode_stream(&b).err(), Some(StreamError::Format(err)));
}

#[test]
fn short_stream_is_unexpected_eof() {
    assert_eq!(scan_stream(b"qoaf").err(), Some(FormatError::UnexpectedEof { offset: 4 }));
    let mut b = stream(20, &[silent_mono_frame(8000, 20)]);
    b.extend_from_slice(&[1, 0, 0]);
    assert_eq!(scan_stream(&b).err(), Some(FormatError::UnexpectedEof { offset: 40 }));
}

#[test]
fn wrong_magic_is_refused() {
    let mut b = stream(20, &[silent_mono_frame(8000, 20)]);
    b[0] = b'x';
    assert_eq!(scan_stream(&b).err(), Some(FormatError::BadMagic));
}

#[test]
fn zero_channels_is_malformed() {
    let mut f = silent_mono_frame(8000, 20);
    f[0] = 0;
    let b = stream(20, &[f]);
    assert_eq!(
        scan_stream(&b).err(),
        Some(FormatError::MalformedHeader { offset: 8, frame: 0 })
    );
}

#[test]
fn slice_count_must_match_samples() {
    let mut f = silent_mono_frame(8000, 20);
    f[5] = 21;
    let b = stream(21, &[f]);
    assert_eq!(
        scan_stream(&b).err(),
        Some(FormatError::MalformedHeader { offset: 8, frame: 0 })
    );
}

#[test]
fn rate_change_is_incompatible() {
    let b = stream(40, &[silent_mono_frame(8000, 20), silent_mono_frame(16000, 20)]);
    assert_eq!(
        scan_stream(&b).err(),
        Some(FormatError::IncompatibleFrame { offset: 40, frame: 1 })
    );
}

#[test]
fn declared_total_must_match_frames() {
    let b = stream(21, &[silent_mono_frame(8000, 20)]);
    assert_eq!(
        scan_stream(&b).err(),
        Some(FormatError::SampleCountMismatch { declared: 21, found: 20 })
    );
}

#[test]
fn assemble_checks_decoded_length() {
    let b = stream(20, &[silent_mono_frame(8000, 20)]);
    let layout = scan_stream(&b).unwrap();
    assert_eq!(
        assemble(&layout, Ok(vec![0; 19])).err(),
        Some(StreamError::SampleCountMismatch { expected: 20, decoded: 19 })
    );
    assert_eq!(
        assemble(&layout, Err(CodecFault::Io)).err(),
        Some(StreamError::Codec(CodecFault::Io))
    );
    let d = assemble(&layout, Ok(vec![7; 20])).unwrap();
    assert_eq!(d.samples, vec![7; 20]);
    assert_eq!(d.sample_rate, 8000);
}
