use vstd::prelude::*;

use std::collections::BTreeMap;

use crate::corpus_id::CorpusId;
use crate::sorted_keys::{insert_key, remove_key, search_key, strictly_ascending};
use crate::storage_map::{first_in, last_in, lemma_index_of_unique, next_in, prev_in};
use crate::testcase::Testcase;

verus! {

broadcast use vstd::std_specs::btree::group_btree_axioms;

/// Test cases under their ids in an ordered map: the alternative to
/// `TestcaseStorageMap` that keeps no links and navigates by ascending id.
///
/// The navigation of the two agrees as long as ids enter in ascending order, which
/// fresh ids do; an id stored again under its old number takes its numeric place here.
pub struct OrderedStorageMap<I> {
    /// The test case under each id.
    pub map: BTreeMap<usize, Testcase<I>>,
    /// The stored ids, ascending.
    pub keys: Vec<CorpusId>,
}

impl<I> OrderedStorageMap<I> {
    /// The stored ids, ascending: the order in which this map navigates.
    pub open spec fn ids(&self) -> Seq<CorpusId> {
        self.keys@
    }

    /// The test case stored under each id.
    pub open spec fn contents(&self) -> Map<CorpusId, Testcase<I>> {
        Map::new(|id: CorpusId| self.map@.contains_key(id.0), |id: CorpusId| self.map@[id.0])
    }

    /// The map's invariant: the keys ascend and are exactly the ids of the map.
    pub open spec fn wf(&self) -> bool {
        &&& strictly_ascending(self.keys@)
        &&& forall|id: CorpusId| #[trigger]
            self.keys@.contains(id) <==> self.map@.contains_key(id.0)
    }

    /// An empty map.
    pub fn new() -> (r: OrderedStorageMap<I>)
        ensures
            r.wf(),
            r.ids() == Seq::<CorpusId>::empty(),
    {
        OrderedStorageMap { map: BTreeMap::new(), keys: Vec::new() }
    }

    /// The number of stored test cases.
    pub fn len(&self) -> (r: usize)
        requires
            self.wf(),
        ensures
            r == self.ids().len(),
    {
        self.keys.len()
    }

    /// The test case stored under `id`, if any.
    pub fn get(&self, id: CorpusId) -> (r: Option<&Testcase<I>>)
        requires
            self.wf(),
        ensures
            r.is_some() == self.ids().contains(id),
            r.is_some() ==> *r.unwrap() == self.contents()[id],
    {
        self.map.get(&id.0)
    }

    /// Stores `testcase` under `id`, which takes its place by number.
    pub fn insert(&mut self, id: CorpusId, testcase: Testcase<I>)
        requires
            old(self).wf(),
            !old(self).ids().contains(id),
        ensures
            final(self).wf(),
            final(self).ids().to_set() == old(self).ids().to_set().insert(id),
            final(self).contents() == old(self).contents().insert(id, testcase),
    {
        let ghost old_self = *self;
        insert_key(&mut self.keys, id);
        self.map.insert(id.0, testcase);
        proof {
            assert forall|x: CorpusId| #[trigger]
                self.keys@.contains(x) <==> self.map@.contains_key(x.0) by {
                assert(self.keys@.to_set().contains(x) == self.keys@.contains(x));
                assert(old_self.keys@.to_set().contains(x) == old_self.keys@.contains(x));
                assert(old_self.keys@.contains(x) <==> old_self.map@.contains_key(x.0));
            }
            assert(self.contents() =~= old_self.contents().insert(id, testcase));
        }
    }

    /// Puts `testcase` in place of the one stored under `id` and hands the old one
    /// back. Nothing changes when `id` is absent.
    pub fn replace(&mut self, id: CorpusId, testcase: Testcase<I>) -> (r: Option<Testcase<I>>)
        requires
            old(self).wf(),
        ensures
            final(self).wf(),
            final(self).ids() == old(self).ids(),
            r.is_some() == old(self).ids().contains(id),
            r.is_some() ==> r == Some(old(self).contents()[id]) && final(self).contents() == old(
                self,
            ).contents().insert(id, testcase),
            r.is_none() ==> final(self).contents() == old(self).contents(),
    {
        let ghost old_self = *self;
        if !self.map.contains_key(&id.0) {
            return None;
        }
        let previous = self.map.insert(id.0, testcase);
        proof {
            assert(self.contents() =~= old_self.contents().insert(id, testcase));
        }
        previous
    }

    /// Removes the test case stored under `id` and hands it back. Nothing changes
    /// when `id` is absent.
    pub fn remove(&mut self, id: CorpusId) -> (r: Option<Testcase<I>>)
        requires
            old(self).wf(),
        ensures
            final(self).wf(),
            r.is_some() == old(self).ids().contains(id),
            r.is_some() ==> r == Some(old(self).contents()[id]),
            final(self).ids().to_set() == old(self).ids().to_set().remove(id),
            final(self).contents() == old(self).contents().remove(id),
    {
        let ghost old_self = *self;
        remove_key(&mut self.keys, id);
        let r = self.map.remove(&id.0);
        proof {
            assert forall|x: CorpusId| #[trigger]
                self.keys@.contains(x) <==> self.map@.contains_key(x.0) by {
                assert(self.keys@.to_set().contains(x) == self.keys@.contains(x));
                assert(old_self.keys@.to_set().contains(x) == old_self.keys@.contains(x));
                assert(old_self.keys@.contains(x) <==> old_self.map@.contains_key(x.0));
            }
            assert(self.contents() =~= old_self.contents().remove(id));
        }
        r
    }

    /// The id right after `id` by number, or `None` at the end or when `id` is absent.
    pub fn next(&self, id: CorpusId) -> (r: Option<CorpusId>)
        requires
            self.wf(),
        ensures
            r == next_in(self.ids(), id),
    {
        match search_key(&self.keys, id) {
            Ok(i) => {
                proof {
                    self.lemma_no_duplicates();
                    lemma_index_of_unique(self.ids(), i as int);
                }
                if i < self.keys.len() - 1 {
                    Some(self.keys[i + 1])
                } else {
                    None
                }
            },
            Err(i) => {
                proof {
                    self.lemma_absent(id, i as int);
                }
                None
            },
        }
    }

    /// The id right before `id` by number, or `None` at the start or when `id` is absent.
    pub fn prev(&self, id: CorpusId) -> (r: Option<CorpusId>)
        requires
            self.wf(),
        ensures
            r == prev_in(self.ids(), id),
    {
        match search_key(&self.keys, id) {
            Ok(i) => {
                proof {
                    self.lemma_no_duplicates();
                    lemma_index_of_unique(self.ids(), i as int);
                }
                if i > 0 {
                    Some(self.keys[i - 1])
                } else {
                    None
                }
            },
            Err(i) => {
                proof {
                    self.lemma_absent(id, i as int);
                }
                None
            },
        }
    }

    /// The smallest stored id.
    pub fn first(&self) -> (r: Option<CorpusId>)
        requires
            self.wf(),
        ensures
            r == first_in(self.ids()),
    {
        if self.keys.len() > 0 {
            Some(self.keys[0])
        } else {
            None
        }
    }

    /// The largest stored id.
    pub fn last(&self) -> (r: Option<CorpusId>)
        requires
            self.wf(),
        ensures
            r == last_in(self.ids()),
    {
        let n = self.keys.len();
        if n > 0 {
            Some(self.keys[n - 1])
        } else {
            None
        }
    }

    /// The `n`th smallest stored id.
    pub fn nth(&self, n: usize) -> (r: CorpusId)
        requires
            self.wf(),
            n < self.ids().len(),
        ensures
            r == self.ids()[n as int],
    {
        self.keys[n]
    }

    /// Ascending keys hold no duplicate.
    proof fn lemma_no_duplicates(&self)
        requires
            self.wf(),
        ensures
            self.ids().no_duplicates(),
    {
    }

    /// An id that the search did not find is not stored.
    proof fn lemma_absent(&self, id: CorpusId, i: int)
        requires
            self.wf(),
            0 <= i <= self.keys@.len(),
            forall|j: int| 0 <= j < i ==> self.keys@[j].0 < id.0,
            forall|j: int| i <= j < self.keys@.len() ==> self.keys@[j].0 > id.0,
        ensures
            !self.ids().contains(id),
    {
        if self.ids().contains(id) {
            let j = choose|j: int| 0 <= j < self.keys@.len() && self.keys@[j] == id;
            assert(j < i || j >= i);
        }
    }
}

} // verus!
