use vstd::prelude::*;

use crate::corpus_id::CorpusId;
use crate::error::Error;
use crate::storage_map::TestcaseStorageMap;
use crate::testcase::Testcase;

verus! {

/// The enabled and the disabled test cases, with one id counter shared by both.
pub struct TestcaseStorage<I> {
    /// The test cases that take part in scheduling.
    pub enabled: TestcaseStorageMap<I>,
    /// The test cases that are held but not scheduled.
    pub disabled: TestcaseStorageMap<I>,
    /// The id that the next insertion issues.
    pub progressive_id: usize,
}

impl<I> TestcaseStorage<I> {
    /// Both maps are well formed, no id is in both, and every id was issued already.
    pub open spec fn wf(&self) -> bool {
        &&& self.enabled.wf()
        &&& self.disabled.wf()
        &&& forall|id: CorpusId| #[trigger]
            self.enabled.ids().contains(id) ==> id.0 < self.progressive_id
                && !self.disabled.ids().contains(id)
        &&& forall|id: CorpusId| #[trigger]
            self.disabled.ids().contains(id) ==> id.0 < self.progressive_id
    }

    /// An empty storage whose first id is 0.
    pub fn new() -> (r: TestcaseStorage<I>)
        ensures
            r.wf(),
            r.enabled.ids() == Seq::<CorpusId>::empty(),
            r.disabled.ids() == Seq::<CorpusId>::empty(),
            r.progressive_id == 0,
    {
        TestcaseStorage {
            enabled: TestcaseStorageMap::new(),
            disabled: TestcaseStorageMap::new(),
            progressive_id: 0,
        }
    }

    /// The id that the next insertion will issue.
    pub fn peek_free_id(&self) -> (r: CorpusId)
        ensures
            r == CorpusId(self.progressive_id),
    {
        CorpusId::from(self.progressive_id)
    }

    /// Stores `testcase` as the newest enabled entry under a fresh id.
    pub fn insert(&mut self, testcase: Testcase<I>) -> (r: CorpusId)
        requires
            old(self).wf(),
            old(self).progressive_id < usize::MAX,
        ensures
            final(self).wf(),
            r == CorpusId(old(self).progressive_id),
            final(self).progressive_id == old(self).progressive_id + 1,
            final(self).enabled.ids() == old(self).enabled.ids().push(r),
            final(self).enabled.contents() == old(self).enabled.contents().insert(r, testcase),
            final(self).disabled == old(self).disabled,
    {
        self.insert_inner(testcase, false)
    }

    /// Stores `testcase` as the newest disabled entry under a fresh id.
    pub fn insert_disabled(&mut self, testcase: Testcase<I>) -> (r: CorpusId)
        requires
            old(self).wf(),
            old(self).progressive_id < usize::MAX,
        ensures
            final(self).wf(),
            r == CorpusId(old(self).progressive_id),
            final(self).progressive_id == old(self).progressive_id + 1,
            final(self).disabled.ids() == old(self).disabled.ids().push(r),
            final(self).disabled.contents() == old(self).disabled.contents().insert(r, testcase),
            final(self).enabled == old(self).enabled,
    {
        self.insert_inner(testcase, true)
    }

    /// Stores `testcase` under a fresh id, in the partition that `is_disabled` names.
    fn insert_inner(&mut self, testcase: Testcase<I>, is_disabled: bool) -> (r: CorpusId)
        requires
            old(self).wf(),
            old(self).progressive_id < usize::MAX,
        ensures
            final(self).wf(),
            r == CorpusId(old(self).progressive_id),
            final(self).progressive_id == old(self).progressive_id + 1,
            is_disabled ==> final(self).disabled.ids() == old(self).disabled.ids().push(r)
                && final(self).disabled.contents() == old(self).disabled.contents().insert(
                r,
                testcase,
            ) && final(self).enabled == old(self).enabled,
            !is_disabled ==> final(self).enabled.ids() == old(self).enabled.ids().push(r)
                && final(self).enabled.contents() == old(self).enabled.contents().insert(
                r,
                testcase,
            ) && final(self).disabled == old(self).disabled,
    {
        let id = CorpusId::from(self.progressive_id);
        self.progressive_id = self.progressive_id + 1;
        if is_disabled {
            self.disabled.push_back(id, testcase);
        } else {
            self.enabled.push_back(id, testcase);
        }
        id
    }

    /// Stores `testcase` again under its own `id`, as the newest entry of the partition
    /// that `is_disabled` names. Fails, changing nothing, when `id` was never issued.
    pub(crate) fn insert_inner_with_id(
        &mut self,
        testcase: Testcase<I>,
        is_disabled: bool,
        id: CorpusId,
    ) -> (r: Result<(), Error>)
        requires
            old(self).wf(),
            !old(self).enabled.ids().contains(id),
            !old(self).disabled.ids().contains(id),
        ensures
            r is Err <==> id.0 >= old(self).progressive_id,
            r is Ok ==> r == Ok::<(), Error>(()),
            r is Err ==> r == Err::<(), Error>(Error::IllegalState(id)) && *final(self) == *old(
                self,
            ),
            r is Ok ==> final(self).wf() && final(self).progressive_id == old(self).progressive_id
                && (is_disabled ==> final(self).disabled.ids() == old(self).disabled.ids().push(id)
                && final(self).disabled.contents() == old(self).disabled.contents().insert(
                id,
                testcase,
            ) && final(self).enabled == old(self).enabled) && (!is_disabled
                ==> final(self).enabled.ids() == old(self).enabled.ids().push(id)
                && final(self).enabled.contents() == old(self).enabled.contents().insert(
                id,
                testcase,
            ) && final(self).disabled == old(self).disabled),
    {
        if id.0 >= self.progressive_id {
            return Err(Error::IllegalState(id));
        }
        if is_disabled {
            self.disabled.push_back(id, testcase);
        } else {
            self.enabled.push_back(id, testcase);
        }
        Ok(())
    }
}

} // verus!
