use vstd::prelude::*;

verus! {

/// `s` with every occurrence of the nonempty `from` replaced by `to`,
/// occurrences found left to right without overlap.
pub open spec fn replaced(s: Seq<char>, from: Seq<char>, to: Seq<char>) -> Seq<char>
    decreases s.len(),
{
    if from.len() == 0 || s.len() < from.len() {
        s
    } else if s.subrange(0, from.len() as int) == from {
        to + replaced(s.subrange(from.len() as int, s.len() as int), from, to)
    } else {
        seq![s[0]] + replaced(s.subrange(1, s.len() as int), from, to)
    }
}

/// Relies on str::replace: every match of `from`, found left to right without
/// overlap, is replaced by `to`.
#[verifier::external_body]
fn replace_all(s: &str, from: &str, to: &str) -> (r: String)
    requires
        from@.len() > 0,
    ensures
        r@ == replaced(s@, from@, to@),
{
    s.replace(from, to)
}

/// The path of the QOA file that belongs to a reference WAV path: `.wav` is
/// removed wherever it occurs, then a `/qoa_wav/` directory becomes `/qoa/`.
pub fn get_qoa_path(path: &str) -> (r: String)
    ensures
        r@ == replaced(replaced(path@, ".wav"@, ""@), "/qoa_wav/"@, "/qoa/"@),
{
    proof {
        reveal_strlit(".wav");
        reveal_strlit("/qoa_wav/");
    }
    let stripped = replace_all(path, ".wav", "");
    replace_all(stripped.as_str(), "/qoa_wav/", "/qoa/")
}

} // verus!
