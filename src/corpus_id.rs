use vstd::prelude::*;

verus! {

/// The stable identifier of a test case within one corpus.
#[derive(Clone, Copy, Debug, PartialEq, Eq, Hash, PartialOrd, Ord, Structural)]
pub struct CorpusId(pub usize);

impl From<usize> for CorpusId {
    fn from(id: usize) -> (r: CorpusId)
        ensures
            r.0 == id,
    {
        CorpusId(id)
    }
}

impl vstd::std_specs::convert::FromSpecImpl<usize> for CorpusId {
    open spec fn obeys_from_spec() -> bool {
        true
    }

    open spec fn from_spec(id: usize) -> CorpusId {
        CorpusId(id)
    }
}

impl From<CorpusId> for usize {
    fn from(id: CorpusId) -> (r: usize)
        ensures
            r == id.0,
    {
        id.0
    }
}

impl vstd::std_specs::convert::FromSpecImpl<CorpusId> for usize {
    open spec fn obeys_from_spec() -> bool {
        true
    }

    open spec fn from_spec(id: CorpusId) -> usize {
        id.0
    }
}

} // verus!
