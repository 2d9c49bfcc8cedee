//! Questions about the file system, asked through a function that the caller
//! supplies.

use vstd::prelude::*;

verus! {

/// Whether `probe` can be asked about every path.
pub open spec fn askable<F: Fn(&str) -> bool>(probe: F) -> bool {
    forall|path: &str| #[trigger] call_requires(probe, (path,))
}

/// Whether `probe` answered `answer` for `path`.
pub open spec fn answers<F: Fn(&str) -> bool>(probe: F, path: Seq<char>, answer: bool) -> bool {
    exists|asked: &str| asked@ == path && #[trigger] call_ensures(probe, (asked,), answer)
}

/// Ask `probe` about `path`.
pub fn ask<F: Fn(&str) -> bool>(probe: &F, path: &str) -> (answer: bool)
    requires
        askable(*probe),
    ensures
        answers(*probe, path@, answer),
{
    probe(path)
}

} // verus!
