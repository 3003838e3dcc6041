use vstd::prelude::*;
use crate::decode::{
    DecodedStream, StreamError, WavFault, decode_stream, read_wav, stream_result, wav_decoded,
};

verus! {

/// Fewer passing pairs than this, or as many, fail a run.
pub const MIN_PASSES: usize = 20;

/// How two sample sequences compare.
#[derive(Clone, Copy, Debug, PartialEq, Eq, Structural)]
pub enum Comparison {
    Equal,
    /// The sequences first differ at `index`: there the samples differ, or
    /// one sequence has ended and the other has not.
    Differ { index: usize },
}

/// The outcome of checking one decoded stream against its reference.
#[derive(Clone, Copy, Debug, PartialEq, Eq, Structural)]
pub enum Verdict {
    Pass,
    Fail { index: usize },
    ReferenceError(WavFault),
    DecodeError(StreamError),
}

/// Counts of the outcomes of a run.
#[derive(Clone, Copy, Debug, PartialEq, Eq, Structural)]
pub struct Tally {
    pub success: usize,
    pub failures: usize,
    pub errors: usize,
}

/// `i` is the first index at which `a` and `b` differ.
pub open spec fn first_difference(a: Seq<i16>, b: Seq<i16>, i: int) -> bool {
    &&& 0 <= i <= a.len()
    &&& i <= b.len()
    &&& forall|j: int| 0 <= j < i ==> a[j] == b[j]
    &&& (i < a.len() && i < b.len() && a[i] != b[i]) || (a.len() != b.len() && (i == a.len()
        || i == b.len()))
}

/// What comparing two sequences yields.
pub open spec fn compared(a: Seq<i16>, b: Seq<i16>, c: Comparison) -> bool {
    match c {
        Comparison::Equal => a == b,
        Comparison::Differ { index } => first_difference(a, b, index as int),
    }
}

/// Compares a reference sequence with a decoded one, sample by sample.
pub fn compare_samples(reference: &[i16], decoded: &[i16]) -> (r: Comparison)
    ensures
        compared(reference@, decoded@, r),
        r == Comparison::Equal <==> reference@ == decoded@,
{
    let n = if reference.len() < decoded.len() {
        reference.len()
    } else {
        decoded.len()
    };
    let mut i: usize = 0;
    while i < n
        invariant
            n <= reference@.len(),
            n <= decoded@.len(),
            n == reference@.len() || n == decoded@.len(),
            i <= n,
            forall|j: int| 0 <= j < i ==> reference@[j] == decoded@[j],
        decreases n - i,
    {
        if reference[i] != decoded[i] {
            return Comparison::Differ { index: i };
        }
        i = i + 1;
    }
    if reference.len() != decoded.len() {
        return Comparison::Differ { index: n };
    }
    assert(reference@ =~= decoded@);
    Comparison::Equal
}

/// The verdict that a reference and a decoding call for.
pub open spec fn verdict_of(
    reference: Result<Seq<i16>, WavFault>,
    decoded: Result<(u8, u32, Seq<i16>), StreamError>,
    v: Verdict,
) -> bool {
    match reference {
        Err(f) => v == Verdict::ReferenceError(f),
        Ok(a) => match decoded {
            Err(e) => v == Verdict::DecodeError(e),
            Ok((_, _, b)) => match v {
                Verdict::Pass => a == b,
                Verdict::Fail { index } => first_difference(a, b, index as int),
                _ => false,
            },
        },
    }
}

/// Judges a decoded stream against its reference samples. A reference that
/// could not be read, or a stream that did not decode, is an error; otherwise
/// the pair passes exactly when the two sequences are equal.
pub fn judge(reference: &Result<Vec<i16>, WavFault>, decoded: &Result<DecodedStream, StreamError>) -> (r: Verdict)
    ensures
        verdict_of(
            match reference {
                Ok(v) => Ok(v@),
                Err(f) => Err(*f),
            },
            match decoded {
                Ok(d) => Ok((d.num_channels, d.sample_rate, d.samples@)),
                Err(e) => Err(*e),
            },
            r,
        ),
{
    match reference {
        Err(f) => Verdict::ReferenceError(*f),
        Ok(a) => match decoded {
            Err(e) => Verdict::DecodeError(*e),
            Ok(d) => match compare_samples(a.as_slice(), d.samples.as_slice()) {
                Comparison::Equal => Verdict::Pass,
                Comparison::Differ { index } => Verdict::Fail { index },
            },
        },
    }
}

/// Checks a QOA stream against the reference WAV file of the same audio,
/// both held in memory.
pub fn compare(wav: &[u8], qoa: &[u8]) -> (r: Verdict)
    ensures
        verdict_of(wav_decoded(wav@), stream_result(qoa@), r),
{
    let reference = read_wav(wav);
    let decoded = decode_stream(qoa);
    judge(&reference, &decoded)
}

/// The counts of passes, failures and errors among verdicts.
pub open spec fn tally_of(vs: Seq<Verdict>) -> (int, int, int)
    decreases vs.len(),
{
    if vs.len() == 0 {
        (0, 0, 0)
    } else {
        let (s, f, e) = tally_of(vs.drop_last());
        match vs.last() {
            Verdict::Pass => (s + 1, f, e),
            Verdict::Fail { .. } => (s, f + 1, e),
            _ => (s, f, e + 1),
        }
    }
}

proof fn lemma_tally_bound(vs: Seq<Verdict>)
    ensures
        0 <= tally_of(vs).0,
        0 <= tally_of(vs).1,
        0 <= tally_of(vs).2,
        tally_of(vs).0 + tally_of(vs).1 + tally_of(vs).2 == vs.len(),
    decreases vs.len(),
{
    if vs.len() > 0 {
        lemma_tally_bound(vs.drop_last());
    }
}

/// Counts the passes, failures and errors among the verdicts of a run.
pub fn tally(verdicts: &[Verdict]) -> (r: Tally)
    ensures
        (r.success as int, r.failures as int, r.errors as int) == tally_of(verdicts@),
{
    let mut t = Tally { success: 0, failures: 0, errors: 0 };
    let mut i: usize = 0;
    while i < verdicts.len()
        invariant
            i <= verdicts@.len(),
            (t.success as int, t.failures as int, t.errors as int) == tally_of(
                verdicts@.subrange(0, i as int),
            ),
        decreases verdicts@.len() - i,
    {
        proof {
            lemma_tally_bound(verdicts@.subrange(0, i as int));
            assert(verdicts@.subrange(0, i + 1).drop_last() == verdicts@.subrange(0, i as int));
        }
        match verdicts[i] {
            Verdict::Pass => t.success = t.success + 1,
            Verdict::Fail { .. } => t.failures = t.failures + 1,
            _ => t.errors = t.errors + 1,
        }
        i = i + 1;
    }
    assert(verdicts@.subrange(0, i as int) == verdicts@);
    t
}

/// A run succeeds when more than `MIN_PASSES` pairs passed and none failed
/// or hit an error.
pub fn run_succeeded(t: &Tally) -> (r: bool)
    ensures
        r == (t.success > MIN_PASSES && t.failures == 0 && t.errors == 0),
{
    t.success > MIN_PASSES && t.failures == 0 && t.errors == 0
}

} // verus!
