use qoa_compare::{
    Comparison, DecodedStream, StreamError, Tally, Verdict, WavFault, compare, compare_samples,
    get_qoa_path, judge, read_wav, run_succeeded, tally, FormatError,
};

fn wav_mono_16(rate: u32, samples: &[i16]) -> Vec<u8> {
    let data_len = (samples.len() * 2) as u32;
    let mut b = b"RIFF".to_vec();
    b.extend_from_slice(&(36 + data_len).to_le_bytes());
    b.extend_from_slice(b"WAVEfmt ");
    b.extend_from_slice(&16u32.to_le_bytes());
    b.extend_from_slice(&1u16.to_le_bytes());
    b.extend_from_slice(&1u16.to_le_bytes());
    b.extend_from_slice(&rate.to_le_bytes());
    b.extend_from_slice(&(rate * 2).to_le_bytes());
    b.extend_from_slice(&2u16.to_le_bytes());
    b.extend_from_slice(&16u16.to_le_bytes());
    b.extend_from_slice(b"data");
    b.extend_from_slice(&data_len.to_le_bytes());
    for s in samples {
        b.extend_from_slice(&s.to_le_bytes());
    }
    b
}

fn silent_qoa_mono_20() -> Vec<u8> {
    let mut b = b"qoaf".to_vec();
    b.extend_from_slice(&20u32.to_be_bytes());
    b.extend_from_slice(&[1, 0x00, 0x1f, 0x40, 0, 20, 0, 32]);
    b.extend(std::iter::repeat(0u8).take(24));
    b
}

#[test]
fn equal_sequences_compare_equal() {
    assert_eq!(compare_samples(&[1, -2, 3], &[1, -2, 3]), Comparison::Equal);
    assert_eq!(compare_samples(&[], &[]), Comparison::Equal);
}

#[test]
fn first_differing_sample_is_reported() {
    assert_eq!(compare_samples(&[1, 2, 3, 4], &[1, 2, 5, 6]), Comparison::Differ { index: 2 });
}

#[test]
fn length_mismatch_is_reported_at_shorter_end() {
    assert_eq!(compare_samples(&[1, 2], &[1, 2, 3]), Comparison::Differ { index: 2 });
    assert_eq!(compare_samples(&[1, 2, 3], &[1]), Comparison::Differ { index: 1 });
}

#[test]
fn wav_reader_returns_samples() {
    assert_eq!(read_wav(&wav_mono_16(8000, &[2, -3, 5])).unwrap(), vec![2, -3, 5]);
    assert_eq!(read_wav(b"not a wav file").err(), Some(WavFault::Header));
}

#[test]
fn matching_pair_passes() {
    let wav = wav_mono_16(8000, &[1; 20]);
    assert_eq!(compare(&wav, &silent_qoa_mono_20()), Verdict::Pass);
}

#[test]
fn differing_pair_fails_at_first_difference() {
    let mut samples = [1i16; 20];
    samples[7] = 2;
    let wav = wav_mono_16(8000, &samples);
    assert_eq!(compare(&wav, &silent_qoa_mono_20()), Verdict::Fail { index: 7 });
    let short = wav_mono_16(8000, &[1; 19]);
    assert_eq!(compare(&short, &silent_qoa_mono_20()), Verdict::Fail { index: 19 });
}

#[test]
fn unreadable_inputs_are_errors() {
    let wav = wav_mono_16(8000, &[1; 20]);
    assert_eq!(
        compare(b"RIFF", &silent_qoa_mono_20()),
        Verdict::ReferenceError(WavFault::Header)
    );
    assert_eq!(
        compare(&wav, b"qoaf"),
        Verdict::DecodeError(StreamError::Format(FormatError::UnexpectedEof { offset: 4 }))
    );
}

#[test]
fn judge_takes_results() {
    let decoded: Result<DecodedStream, StreamError> =
        Ok(DecodedStream { num_channels: 1, sample_rate: 8000, samples: vec![4, 5] });
    assert_eq!(judge(&Ok(vec![4, 5]), &decoded), Verdict::Pass);
    assert_eq!(judge(&Ok(vec![4, 6]), &decoded), Verdict::Fail { index: 1 });
    assert_eq!(judge(&Err(WavFault::Samples), &decoded), Verdict::ReferenceError(WavFault::Samples));
}

#[test]
fn tally_counts_each_outcome() {
    let vs = [
        Verdict::Pass,
        Verdict::Fail { index: 3 },
        Verdict::Pass,
        Verdict::ReferenceError(WavFault::Header),
        Verdict::DecodeError(StreamError::Format(FormatError::BadMagic)),
    ];
    assert_eq!(tally(&vs), Tally { success: 2, failures: 1, errors: 2 });
    assert_eq!(tally(&[]), Tally { success: 0, failures: 0, errors: 0 });
}

#[test]
fn run_needs_more_than_twenty_passes_and_nothing_else() {
    assert!(run_succeeded(&Tally { success: 21, failures: 0, errors: 0 }));
    assert!(!run_succeeded(&Tally { success: 20, failures: 0, errors: 0 }));
    assert!(!run_succeeded(&Tally { success: 30, failures: 1, errors: 0 }));
    assert!(!run_succeeded(&Tally { success: 30, failures: 0, errors: 1 }));
}

#[test]
fn qoa_path_follows_wav_path() {
    assert_eq!(get_qoa_path("data/qoa_wav/piano.qoa.wav"), "data/qoa/piano.qoa");
    assert_eq!(get_qoa_path("/x/qoa_wav/a/b.qoa.wav"), "/x/qoa/a/b.qoa");
}
