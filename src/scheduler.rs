use vstd::prelude::*;

use crate::corpus_id::CorpusId;
use crate::inmemory::InMemoryCorpus;
use crate::storage_map::next_in;

verus! {

/// The id that the queue policy picks next: the enabled id after the current one,
/// or the first enabled id when there is no current one, it is the last, or it is
/// no longer enabled. `None` when nothing is enabled.
pub open spec fn queue_pick<I>(c: InMemoryCorpus<I>) -> Option<CorpusId> {
    let ids = c.enabled_ids();
    if ids.len() == 0 {
        None
    } else {
        match c.current {
            Some(cur) => match next_in(ids, cur) {
                Some(n) => Some(n),
                None => Some(ids[0]),
            },
            None => Some(ids[0]),
        }
    }
}

/// A scheduler that walks the enabled test cases in insertion order, round after round.
pub struct QueueScheduler {}

impl QueueScheduler {
    /// A queue scheduler.
    pub fn new() -> (r: QueueScheduler) {
        QueueScheduler {  }
    }

    /// Picks the next test case and makes it the corpus's current one.
    pub fn next<I>(&mut self, corpus: &mut InMemoryCorpus<I>) -> (r: Option<CorpusId>)
        requires
            old(corpus).wf(),
        ensures
            r == queue_pick(*old(corpus)),
            final(corpus).current == (if r.is_some() {
                r
            } else {
                old(corpus).current
            }),
            final(corpus).storage == old(corpus).storage,
    {
        if corpus.count() == 0 {
            return None;
        }
        let first = corpus.first();
        let picked = match *corpus.current() {
            Some(cur) => match corpus.next(cur) {
                Some(n) => Some(n),
                None => first,
            },
            None => first,
        };
        *corpus.current_mut() = picked;
        picked
    }
}

} // verus!
