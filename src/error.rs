use vstd::prelude::*;

use crate::corpus_id::CorpusId;

verus! {

/// Why a corpus operation did not succeed.
#[derive(Clone, Copy, Debug, PartialEq, Eq, Structural)]
pub enum Error {
    /// The id is not present in the partition(s) that the operation looks at.
    KeyNotFound(CorpusId),
    /// An internal invariant would break: an id was to be stored that was never issued.
    IllegalState(CorpusId),
}

} // verus!
