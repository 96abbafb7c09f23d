use vstd::prelude::*;

verus! {

/// The classification of one compared position. Every position an alignment
/// examines receives exactly one of these five values; no position is left
/// unclassified.
#[derive(Clone, Copy, Debug, PartialEq, Eq, Structural)]
pub enum ResultStatus {
    /// Expected and actual agree exactly at this position.
    Success,
    /// Present in expected but absent in actual: the actual sequence is too short.
    Missing,
    /// Present in actual but absent in expected: the actual sequence is too long.
    Additional,
    /// The diagnostic message matches, but it was reported at a different
    /// source position. Only the diagnostic alignment produces this value;
    /// tree lines never do.
    IncorrectPosition,
    /// Both sides are present at this position, but their content differs.
    Mismatch,
}

} // verus!
