use vstd::prelude::*;

use crate::corpus_id::CorpusId;
use crate::error::Error;
use crate::laws::law_partition;
use crate::storage::TestcaseStorage;
use crate::storage_map::{
    first_in, last_in, lemma_index_of_unique, lemma_push_contains, lemma_remove_contains, next_in,
    prev_in,
};
use crate::testcase::Testcase;

verus! {

/// A corpus that keeps every test case in memory, with a cursor for the scheduler.
pub struct InMemoryCorpus<I> {
    /// Where the test cases are held.
    pub storage: TestcaseStorage<I>,
    /// The test case that the scheduler picked last.
    pub current: Option<CorpusId>,
}

impl<I> InMemoryCorpus<I> {
    /// The corpus invariant: that of its storage.
    pub open spec fn wf(&self) -> bool {
        self.storage.wf()
    }

    /// The enabled ids, in the order in which they were added or re-enabled.
    pub open spec fn enabled_ids(&self) -> Seq<CorpusId> {
        self.storage.enabled.ids()
    }

    /// The disabled ids, in the order in which they were added or disabled.
    pub open spec fn disabled_ids(&self) -> Seq<CorpusId> {
        self.storage.disabled.ids()
    }

    /// The enabled test cases by id.
    pub open spec fn enabled_contents(&self) -> Map<CorpusId, Testcase<I>> {
        self.storage.enabled.contents()
    }

    /// The disabled test cases by id.
    pub open spec fn disabled_contents(&self) -> Map<CorpusId, Testcase<I>> {
        self.storage.disabled.contents()
    }

    /// The id that the next `add` or `add_disabled` issues.
    pub open spec fn free_id(&self) -> usize {
        self.storage.progressive_id
    }

    /// The number of test cases, enabled and disabled together.
    pub open spec fn total(&self) -> nat {
        self.enabled_ids().len() + self.disabled_ids().len()
    }

    /// `after` is this corpus with nothing stored or issued changed.
    pub open spec fn same_store(self, after: Self) -> bool {
        &&& after.wf()
        &&& after.enabled_ids() == self.enabled_ids()
        &&& after.disabled_ids() == self.disabled_ids()
        &&& after.enabled_contents() == self.enabled_contents()
        &&& after.disabled_contents() == self.disabled_contents()
        &&& after.free_id() == self.free_id()
        &&& after.current == self.current
    }

    /// `after` is this corpus with `testcase` added as the newest enabled entry, under `id`.
    pub open spec fn adds(self, testcase: Testcase<I>, id: CorpusId, after: Self) -> bool {
        &&& after.wf()
        &&& id == CorpusId(self.free_id())
        &&& after.free_id() == self.free_id() + 1
        &&& after.enabled_ids() == self.enabled_ids().push(id)
        &&& after.enabled_contents() == self.enabled_contents().insert(id, testcase)
        &&& after.disabled_ids() == self.disabled_ids()
        &&& after.disabled_contents() == self.disabled_contents()
        &&& after.current == self.current
    }

    /// `after` is this corpus with `testcase` added as the newest disabled entry, under `id`.
    pub open spec fn adds_disabled(self, testcase: Testcase<I>, id: CorpusId, after: Self) -> bool {
        &&& after.wf()
        &&& id == CorpusId(self.free_id())
        &&& after.free_id() == self.free_id() + 1
        &&& after.disabled_ids() == self.disabled_ids().push(id)
        &&& after.disabled_contents() == self.disabled_contents().insert(id, testcase)
        &&& after.enabled_ids() == self.enabled_ids()
        &&& after.enabled_contents() == self.enabled_contents()
        &&& after.current == self.current
    }

    /// What `remove(id)` returns: the stored test case, looked up in the enabled
    /// partition first.
    pub open spec fn remove_result(self, id: CorpusId) -> Result<Testcase<I>, Error> {
        if self.enabled_ids().contains(id) {
            Ok(self.enabled_contents()[id])
        } else if self.disabled_ids().contains(id) {
            Ok(self.disabled_contents()[id])
        } else {
            Err(Error::KeyNotFound(id))
        }
    }

    /// `after` is this corpus with `id` gone from the partition that held it.
    pub open spec fn removes(self, id: CorpusId, after: Self) -> bool {
        &&& after.wf()
        &&& after.enabled_ids() == (if self.enabled_ids().contains(id) {
            self.enabled_ids().remove(self.enabled_ids().index_of(id))
        } else {
            self.enabled_ids()
        })
        &&& after.disabled_ids() == (if !self.enabled_ids().contains(id)
            && self.disabled_ids().contains(id) {
            self.disabled_ids().remove(self.disabled_ids().index_of(id))
        } else {
            self.disabled_ids()
        })
        &&& after.enabled_contents() == self.enabled_contents().remove(id)
        &&& after.disabled_contents() == self.disabled_contents().remove(id)
        &&& after.free_id() == self.free_id()
        &&& after.current == self.current
    }

    /// What `disable(id)` returns: success exactly when `id` is enabled.
    pub open spec fn disable_result(self, id: CorpusId) -> Result<(), Error> {
        if self.enabled_ids().contains(id) {
            Ok(())
        } else {
            Err(Error::KeyNotFound(id))
        }
    }

    /// What `enable(id)` returns: success exactly when `id` is disabled.
    pub open spec fn enable_result(self, id: CorpusId) -> Result<(), Error> {
        if self.disabled_ids().contains(id) {
            Ok(())
        } else {
            Err(Error::KeyNotFound(id))
        }
    }

    /// `after` is this corpus with the enabled `id` moved to the end of the disabled order.
    pub open spec fn disables(self, id: CorpusId, after: Self) -> bool {
        &&& after.wf()
        &&& after.enabled_ids() == self.enabled_ids().remove(self.enabled_ids().index_of(id))
        &&& after.disabled_ids() == self.disabled_ids().push(id)
        &&& after.enabled_contents() == self.enabled_contents().remove(id)
        &&& after.disabled_contents() == self.disabled_contents().insert(
            id,
            self.enabled_contents()[id],
        )
        &&& after.free_id() == self.free_id()
        &&& after.current == self.current
    }

    /// `after` is this corpus with the disabled `id` moved to the end of the enabled order.
    pub open spec fn enables(self, id: CorpusId, after: Self) -> bool {
        &&& after.wf()
        &&& after.disabled_ids() == self.disabled_ids().remove(self.disabled_ids().index_of(id))
        &&& after.enabled_ids() == self.enabled_ids().push(id)
        &&& after.disabled_contents() == self.disabled_contents().remove(id)
        &&& after.enabled_contents() == self.enabled_contents().insert(
            id,
            self.disabled_contents()[id],
        )
        &&& after.free_id() == self.free_id()
        &&& after.current == self.current
    }

    /// An empty corpus, with no current entry, whose first id is 0.
    pub fn new() -> (r: InMemoryCorpus<I>)
        ensures
            r.wf(),
            r.enabled_ids() == Seq::<CorpusId>::empty(),
            r.disabled_ids() == Seq::<CorpusId>::empty(),
            r.free_id() == 0,
            r.current == None::<CorpusId>,
    {
        InMemoryCorpus { storage: TestcaseStorage::new(), current: None }
    }

    /// The number of enabled test cases.
    pub fn count(&self) -> (r: usize)
        requires
            self.wf(),
        ensures
            r == self.enabled_ids().len(),
    {
        self.storage.enabled.len()
    }

    /// The number of disabled test cases.
    pub fn count_disabled(&self) -> (r: usize)
        requires
            self.wf(),
        ensures
            r == self.disabled_ids().len(),
    {
        self.storage.disabled.len()
    }

    /// The number of test cases, enabled and disabled. The sum is taken saturating,
    /// though ids are unique and below the counter, so it never saturates.
    pub fn count_all(&self) -> (r: usize)
        requires
            self.wf(),
        ensures
            r == self.total(),
    {
        proof {
            law_partition(*self);
        }
        self.storage.enabled.len().saturating_add(self.storage.disabled.len())
    }

    /// Adds `testcase` as the newest enabled entry and returns its fresh id.
    pub fn add(&mut self, testcase: Testcase<I>) -> (r: Result<CorpusId, Error>)
        requires
            old(self).wf(),
            old(self).free_id() < usize::MAX,
        ensures
            r == Ok::<CorpusId, Error>(CorpusId(old(self).free_id())),
            old(self).adds(testcase, CorpusId(old(self).free_id()), *final(self)),
    {
        Ok(self.storage.insert(testcase))
    }

    /// Adds `testcase` as the newest disabled entry and returns its fresh id.
    pub fn add_disabled(&mut self, testcase: Testcase<I>) -> (r: Result<CorpusId, Error>)
        requires
            old(self).wf(),
            old(self).free_id() < usize::MAX,
        ensures
            r == Ok::<CorpusId, Error>(CorpusId(old(self).free_id())),
            old(self).adds_disabled(testcase, CorpusId(old(self).free_id()), *final(self)),
    {
        Ok(self.storage.insert_disabled(testcase))
    }

    /// Puts `testcase` in place of the enabled test case `id` and returns the old one.
    /// A disabled `id` is not replaced.
    pub fn replace(&mut self, id: CorpusId, testcase: Testcase<I>) -> (r: Result<
        Testcase<I>,
        Error,
    >)
        requires
            old(self).wf(),
        ensures
            r is Ok <==> old(self).enabled_ids().contains(id),
            r is Ok ==> r == Ok::<Testcase<I>, Error>(old(self).enabled_contents()[id]),
            r is Err ==> r == Err::<Testcase<I>, Error>(Error::KeyNotFound(id)),
            final(self).wf(),
            final(self).enabled_ids() == old(self).enabled_ids(),
            final(self).enabled_contents() == (if old(self).enabled_ids().contains(id) {
                old(self).enabled_contents().insert(id, testcase)
            } else {
                old(self).enabled_contents()
            }),
            final(self).disabled_ids() == old(self).disabled_ids(),
            final(self).disabled_contents() == old(self).disabled_contents(),
            final(self).free_id() == old(self).free_id(),
            final(self).current == old(self).current,
    {
        match self.storage.enabled.replace(id, testcase) {
            Some(previous) => Ok(previous),
            None => Err(Error::KeyNotFound(id)),
        }
    }

    /// Removes the test case `id`, enabled or disabled, and hands it back.
    pub fn remove(&mut self, id: CorpusId) -> (r: Result<Testcase<I>, Error>)
        requires
            old(self).wf(),
        ensures
            r == old(self).remove_result(id),
            old(self).removes(id, *final(self)),
    {
        let ghost old_self = *self;
        let mut testcase = self.storage.enabled.remove(id);
        if testcase.is_none() {
            testcase = self.storage.disabled.remove(id);
        }
        proof {
            let e = old_self.enabled_ids();
            let d = old_self.disabled_ids();
            if e.contains(id) {
                lemma_index_of_unique(e, e.index_of(id));
                lemma_remove_contains(e, e.index_of(id));
                assert(old_self.disabled_contents().remove(id) =~= old_self.disabled_contents());
            } else if d.contains(id) {
                lemma_index_of_unique(d, d.index_of(id));
                lemma_remove_contains(d, d.index_of(id));
                assert(old_self.enabled_contents().remove(id) =~= old_self.enabled_contents());
            } else {
                assert(old_self.disabled_contents().remove(id) =~= old_self.disabled_contents());
                assert(old_self.enabled_contents().remove(id) =~= old_self.enabled_contents());
            }
        }
        match testcase {
            Some(t) => Ok(t),
            None => Err(Error::KeyNotFound(id)),
        }
    }

    /// The enabled test case `id`.
    pub fn get(&self, id: CorpusId) -> (r: Result<&Testcase<I>, Error>)
        requires
            self.wf(),
        ensures
            r is Ok <==> self.enabled_ids().contains(id),
            r is Ok ==> *r.unwrap() == self.enabled_contents()[id],
            r is Err ==> r == Err::<&Testcase<I>, Error>(Error::KeyNotFound(id)),
    {
        match self.storage.enabled.get(id) {
            Some(t) => Ok(t),
            None => Err(Error::KeyNotFound(id)),
        }
    }

    /// The test case `id`, looked up among the enabled and then the disabled ones.
    pub fn get_from_all(&self, id: CorpusId) -> (r: Result<&Testcase<I>, Error>)
        requires
            self.wf(),
        ensures
            r is Ok <==> self.enabled_ids().contains(id) || self.disabled_ids().contains(id),
            r is Ok && self.enabled_ids().contains(id) ==> *r.unwrap()
                == self.enabled_contents()[id],
            r is Ok && !self.enabled_ids().contains(id) ==> *r.unwrap()
                == self.disabled_contents()[id],
            r is Err ==> r == Err::<&Testcase<I>, Error>(Error::KeyNotFound(id)),
    {
        let mut testcase = self.storage.enabled.get(id);
        if testcase.is_none() {
            testcase = self.storage.disabled.get(id);
        }
        match testcase {
            Some(t) => Ok(t),
            None => Err(Error::KeyNotFound(id)),
        }
    }

    /// The test case that the scheduler picked last; it may have been removed since.
    pub fn current(&self) -> (r: &Option<CorpusId>)
        ensures
            *r == self.current,
    {
        &self.current
    }

    /// The scheduler's cursor, to be moved.
    pub fn current_mut(&mut self) -> (r: &mut Option<CorpusId>)
        ensures
            *r == old(self).current,
            final(self).current == *final(r),
            final(self).storage == old(self).storage,
    {
        &mut self.current
    }

    /// The enabled id after `id`, in enabled order.
    pub fn next(&self, id: CorpusId) -> (r: Option<CorpusId>)
        requires
            self.wf(),
        ensures
            r == next_in(self.enabled_ids(), id),
    {
        self.storage.enabled.next(id)
    }

    /// The enabled id before `id`, in enabled order.
    pub fn prev(&self, id: CorpusId) -> (r: Option<CorpusId>)
        requires
            self.wf(),
        ensures
            r == prev_in(self.enabled_ids(), id),
    {
        self.storage.enabled.prev(id)
    }

    /// The oldest enabled id.
    pub fn first(&self) -> (r: Option<CorpusId>)
        requires
            self.wf(),
        ensures
            r == first_in(self.enabled_ids()),
    {
        self.storage.enabled.first()
    }

    /// The newest enabled id.
    pub fn last(&self) -> (r: Option<CorpusId>)
        requires
            self.wf(),
        ensures
            r == last_in(self.enabled_ids()),
    {
        self.storage.enabled.last()
    }

    /// The id that the next `add` or `add_disabled` will return.
    pub fn peek_free_id(&self) -> (r: CorpusId)
        ensures
            r == CorpusId(self.free_id()),
    {
        self.storage.peek_free_id()
    }

    /// The `nth` smallest enabled id.
    pub fn nth(&self, nth: usize) -> (r: CorpusId)
        requires
            self.wf(),
            nth < self.enabled_ids().len(),
        ensures
            r == self.storage.enabled.keys@[nth as int],
    {
        self.storage.enabled.nth(nth)
    }

    /// The `nth` id when the enabled ids, ascending, are followed by the disabled ids,
    /// ascending.
    pub fn nth_from_all(&self, nth: usize) -> (r: CorpusId)
        requires
            self.wf(),
            nth < self.total(),
        ensures
            r == (if nth < self.enabled_ids().len() {
                self.storage.enabled.keys@[nth as int]
            } else {
                self.storage.disabled.keys@[nth - self.enabled_ids().len()]
            }),
    {
        let enabled_count = self.count();
        if nth >= enabled_count {
            return self.storage.disabled.nth(nth - enabled_count);
        }
        self.storage.enabled.nth(nth)
    }

    /// Inputs stay in memory, so there is nothing to load.
    pub fn load_input_into(&self, testcase: &mut Testcase<I>) -> (r: Result<(), Error>)
        ensures
            r == Ok::<(), Error>(()),
            *final(testcase) == *old(testcase),
    {
        Ok(())
    }

    /// Inputs stay in memory, so there is nothing to store.
    pub fn store_input_from(&self, testcase: &Testcase<I>) -> (r: Result<(), Error>)
        ensures
            r == Ok::<(), Error>(()),
    {
        Ok(())
    }

    /// Moves the enabled `id` to the end of the disabled order, under the same id.
    pub fn disable(&mut self, id: CorpusId) -> (r: Result<(), Error>)
        requires
            old(self).wf(),
        ensures
            r == old(self).disable_result(id),
            r is Ok ==> old(self).disables(id, *final(self)),
            r is Err ==> old(self).same_store(*final(self)),
    {
        let ghost old_self = *self;
        match self.storage.enabled.remove(id) {
            Some(testcase) => {
                proof {
                    let e = old_self.enabled_ids();
                    lemma_index_of_unique(e, e.index_of(id));
                    lemma_remove_contains(e, e.index_of(id));
                    assert(old_self.storage.enabled.ids().contains(id));
                    assert(id.0 < self.storage.progressive_id);
                }
                let res = self.storage.insert_inner_with_id(testcase, true, id);
                proof {
                    lemma_push_contains(old_self.disabled_ids(), id);
                }
                res
            },
            None => Err(Error::KeyNotFound(id)),
        }
    }

    /// Moves the disabled `id` to the end of the enabled order, under the same id.
    pub fn enable(&mut self, id: CorpusId) -> (r: Result<(), Error>)
        requires
            old(self).wf(),
        ensures
            r == old(self).enable_result(id),
            r is Ok ==> old(self).enables(id, *final(self)),
            r is Err ==> old(self).same_store(*final(self)),
    {
        let ghost old_self = *self;
        match self.storage.disabled.remove(id) {
            Some(testcase) => {
                proof {
                    let d = old_self.disabled_ids();
                    lemma_index_of_unique(d, d.index_of(id));
                    lemma_remove_contains(d, d.index_of(id));
                    assert(old_self.storage.disabled.ids().contains(id));
                    assert(id.0 < self.storage.progressive_id);
                }
                let res = self.storage.insert_inner_with_id(testcase, false, id);
                proof {
                    lemma_push_contains(old_self.enabled_ids(), id);
                }
                res
            },
            None => Err(Error::KeyNotFound(id)),
        }
    }

    /// The enabled test case `id`, to be read.
    pub fn testcase(&self, id: CorpusId) -> (r: Result<&Testcase<I>, Error>)
        requires
            self.wf(),
        ensures
            r is Ok <==> self.enabled_ids().contains(id),
            r is Ok ==> *r.unwrap() == self.enabled_contents()[id],
            r is Err ==> r == Err::<&Testcase<I>, Error>(Error::KeyNotFound(id)),
    {
        self.get(id)
    }
    /// The enabled test case `id`, to be changed in place.
    pub fn testcase_mut(&mut self, id: CorpusId) -> (r: Result<&mut Testcase<I>, Error>)
        requires
            old(self).wf(),
        ensures
            r is Ok <==> old(self).enabled_ids().contains(id),
            match r {
                Ok(t) => *t == old(self).enabled_contents()[id] && final(self).wf()
                    && final(self).enabled_ids() == old(self).enabled_ids()
                    && final(self).enabled_contents() == old(self).enabled_contents().insert(
                    id,
                    *final(t),
                ) && final(self).disabled_ids() == old(self).disabled_ids()
                    && final(self).disabled_contents() == old(self).disabled_contents()
                    && final(self).free_id() == old(self).free_id() && final(self).current == old(
                    self,
                ).current,
                Err(e) => e == Error::KeyNotFound(id) && old(self).same_store(*final(self)),
            },
    {
        if self.storage.enabled.get(id).is_none() {
            return Err(Error::KeyNotFound(id));
        }
        Ok(self.storage.enabled.get_mut(id))
    }
}

} // verus!
