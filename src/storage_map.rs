use vstd::prelude::*;

use crate::corpus_id::CorpusId;
use crate::slot_index::SlotIndex;
use crate::sorted_keys::{insert_key, remove_key, strictly_ascending};
use crate::testcase::Testcase;

verus! {

/// The id that follows `id` in `order`, if `id` is there and is not the last.
pub open spec fn next_in(order: Seq<CorpusId>, id: CorpusId) -> Option<CorpusId> {
    if order.contains(id) && order.index_of(id) + 1 < order.len() {
        Some(order[order.index_of(id) + 1])
    } else {
        None
    }
}

/// The id that precedes `id` in `order`, if `id` is there and is not the first.
pub open spec fn prev_in(order: Seq<CorpusId>, id: CorpusId) -> Option<CorpusId> {
    if order.contains(id) && order.index_of(id) > 0 {
        Some(order[order.index_of(id) - 1])
    } else {
        None
    }
}

/// The first id of `order`, if any.
pub open spec fn first_in(order: Seq<CorpusId>) -> Option<CorpusId> {
    if order.len() > 0 {
        Some(order[0])
    } else {
        None
    }
}

/// The last id of `order`, if any.
pub open spec fn last_in(order: Seq<CorpusId>) -> Option<CorpusId> {
    if order.len() > 0 {
        Some(order.last())
    } else {
        None
    }
}

/// In a sequence without duplicates, the element at `i` is found at `i`.
pub proof fn lemma_index_of_unique(s: Seq<CorpusId>, i: int)
    requires
        s.no_duplicates(),
        0 <= i < s.len(),
    ensures
        s.contains(s[i]),
        s.index_of(s[i]) == i,
{
    assert(s.contains(s[i]));
}

/// Removing the element at `i` from a sequence without duplicates leaves exactly
/// the other elements.
pub proof fn lemma_remove_contains(s: Seq<CorpusId>, i: int)
    requires
        s.no_duplicates(),
        0 <= i < s.len(),
    ensures
        s.remove(i).no_duplicates(),
        forall|x: CorpusId| #[trigger] s.remove(i).contains(x) <==> s.contains(x) && x != s[i],
{
    let r = s.remove(i);
    assert forall|x: CorpusId| #[trigger] r.contains(x) <==> s.contains(x) && x != s[i] by {
        if r.contains(x) {
            let k = choose|k: int| 0 <= k < r.len() && r[k] == x;
            if k < i {
                assert(s[k] == x);
            } else {
                assert(s[k + 1] == x);
            }
        }
        if s.contains(x) && x != s[i] {
            let k = choose|k: int| 0 <= k < s.len() && s[k] == x;
            if k < i {
                assert(r[k] == x);
            } else {
                assert(r[k - 1] == x);
            }
        }
    }
}

/// Appending `y` adds exactly `y`.
pub proof fn lemma_push_contains(s: Seq<CorpusId>, y: CorpusId)
    ensures
        forall|x: CorpusId| #[trigger] s.push(y).contains(x) <==> s.contains(x) || x == y,
{
    let r = s.push(y);
    assert forall|x: CorpusId| #[trigger] r.contains(x) <==> s.contains(x) || x == y by {
        if r.contains(x) {
            let k = choose|k: int| 0 <= k < r.len() && r[k] == x;
            if k < s.len() {
                assert(s[k] == x);
            }
        }
        if s.contains(x) {
            let k = choose|k: int| 0 <= k < s.len() && s[k] == x;
            assert(r[k] == x);
        }
        if x == y {
            assert(r[s.len() as int] == x);
        }
    }
}

/// A stored test case together with the ids stored just before and after it.
pub struct TestcaseStorageItem<I> {
    /// The stored test case.
    pub testcase: Testcase<I>,
    /// The id inserted just before, in this map's order.
    pub prev: Option<CorpusId>,
    /// The id inserted just after, in this map's order.
    pub next: Option<CorpusId>,
    /// The id under which this item is stored.
    pub id: CorpusId,
}

/// Test cases under their ids, in insertion order.
///
/// Items sit in a slot vector; `index` tells the slot of each id, and the items
/// link to their neighbours, so lookups, removal and navigation take constant time.
pub struct TestcaseStorageMap<I> {
    /// The slot of each stored id.
    pub index: SlotIndex,
    /// The stored items, in no particular order.
    pub items: Vec<TestcaseStorageItem<I>>,
    /// The stored ids, ascending.
    pub keys: Vec<CorpusId>,
    /// The oldest stored id.
    pub first_id: Option<CorpusId>,
    /// The newest stored id.
    pub last_id: Option<CorpusId>,
    /// The stored ids in insertion order.
    pub order: Ghost<Seq<CorpusId>>,
}

impl<I> TestcaseStorageMap<I> {
    /// The stored ids, oldest first.
    pub open spec fn ids(&self) -> Seq<CorpusId> {
        self.order@
    }

    /// The slot of each stored id, keyed by the id's number.
    pub open spec fn slots(&self) -> Map<usize, usize> {
        self.index@
    }

    /// The item stored under `id`.
    pub open spec fn item(&self, id: CorpusId) -> TestcaseStorageItem<I> {
        self.items@[self.slots()[id.0] as int]
    }

    /// The test case stored under each id.
    pub open spec fn contents(&self) -> Map<CorpusId, Testcase<I>> {
        Map::new(|id: CorpusId| self.ids().contains(id), |id: CorpusId| self.item(id).testcase)
    }

    /// The item at position `i` of the order links to the ids beside it.
    pub open spec fn links_ok(&self, i: int) -> bool {
        let ids = self.ids();
        &&& self.item(ids[i]).prev == (if i == 0 {
            None
        } else {
            Some(ids[i - 1])
        })
        &&& self.item(ids[i]).next == (if i + 1 == ids.len() {
            None
        } else {
            Some(ids[i + 1])
        })
    }

    /// The map's invariant: slots, links, ends and sorted keys agree with `ids`.
    pub open spec fn wf(&self) -> bool {
        let ids = self.ids();
        &&& ids.no_duplicates()
        &&& self.items@.len() == ids.len()
        &&& forall|i: int| 0 <= i < ids.len() ==> self.slots().contains_key(#[trigger] ids[i].0)
        &&& forall|k: usize| #[trigger]
            self.slots().contains_key(k) ==> ids.contains(CorpusId(k))
        &&& forall|k: usize| #[trigger]
            self.slots().contains_key(k) ==> self.slots()[k] < self.items@.len()
                && self.items@[self.slots()[k] as int].id == CorpusId(k)
        &&& forall|j: int|
            0 <= j < self.items@.len() ==> self.slots().contains_key(#[trigger] self.items@[j].id.0)
                && self.slots()[self.items@[j].id.0] == j
        &&& forall|i: int| 0 <= i < ids.len() ==> #[trigger] self.links_ok(i)
        &&& self.first_id == first_in(ids)
        &&& self.last_id == last_in(ids)
        &&& strictly_ascending(self.keys@)
        &&& self.keys@.to_set() == ids.to_set()
    }

    /// An empty map.
    pub fn new() -> (r: TestcaseStorageMap<I>)
        ensures
            r.wf(),
            r.ids() == Seq::<CorpusId>::empty(),
    {
        let r = TestcaseStorageMap {
            index: SlotIndex::new(),
            items: Vec::new(),
            keys: Vec::new(),
            first_id: None,
            last_id: None,
            order: Ghost(Seq::empty()),
        };
        assert(r.keys@.to_set() =~= r.ids().to_set());
        r
    }

    /// The number of stored test cases.
    pub fn len(&self) -> (r: usize)
        requires
            self.wf(),
        ensures
            r == self.ids().len(),
    {
        self.items.len()
    }

    /// The test case stored under `id`, if any.
    pub fn get(&self, id: CorpusId) -> (r: Option<&Testcase<I>>)
        requires
            self.wf(),
        ensures
            r.is_some() == self.ids().contains(id),
            r.is_some() ==> *r.unwrap() == self.contents()[id],
    {
        match self.index.get(id.0) {
            Some(slot) => {
                assert(self.ids().contains(CorpusId(id.0)));
                Some(&self.items[slot].testcase)
            },
            None => {
                proof {
                    if self.ids().contains(id) {
                        let i = self.ids().index_of(id);
                        assert(self.slots().contains_key(self.ids()[i].0));
                    }
                }
                None
            },
        }
    }

    /// The id stored right after `id`, or `None` at the end or when `id` is absent.
    pub fn next(&self, id: CorpusId) -> (r: Option<CorpusId>)
        requires
            self.wf(),
        ensures
            r == next_in(self.ids(), id),
    {
        match self.index.get(id.0) {
            Some(slot) => {
                proof {
                    assert(self.ids().contains(CorpusId(id.0)));
                    let i = self.ids().index_of(id);
                    assert(self.links_ok(i));
                }
                self.items[slot].next
            },
            None => {
                proof {
                    if self.ids().contains(id) {
                        let i = self.ids().index_of(id);
                        assert(self.slots().contains_key(self.ids()[i].0));
                    }
                }
                None
            },
        }
    }

    /// The id stored right before `id`, or `None` at the start or when `id` is absent.
    pub fn prev(&self, id: CorpusId) -> (r: Option<CorpusId>)
        requires
            self.wf(),
        ensures
            r == prev_in(self.ids(), id),
    {
        match self.index.get(id.0) {
            Some(slot) => {
                proof {
                    assert(self.ids().contains(CorpusId(id.0)));
                    let i = self.ids().index_of(id);
                    assert(self.links_ok(i));
                }
                self.items[slot].prev
            },
            None => {
                proof {
                    if self.ids().contains(id) {
                        let i = self.ids().index_of(id);
                        assert(self.slots().contains_key(self.ids()[i].0));
                    }
                }
                None
            },
        }
    }

    /// The oldest stored id.
    pub fn first(&self) -> (r: Option<CorpusId>)
        requires
            self.wf(),
        ensures
            r == first_in(self.ids()),
    {
        self.first_id
    }

    /// The newest stored id.
    pub fn last(&self) -> (r: Option<CorpusId>)
        requires
            self.wf(),
        ensures
            r == last_in(self.ids()),
    {
        self.last_id
    }
    /// Stores `testcase` under `id` as the newest entry.
    pub fn push_back(&mut self, id: CorpusId, testcase: Testcase<I>)
        requires
            old(self).wf(),
            !old(self).ids().contains(id),
        ensures
            final(self).wf(),
            final(self).ids() == old(self).ids().push(id),
            final(self).contents() == old(self).contents().insert(id, testcase),
    {
        let ghost old_self = *self;
        let ghost ids = self.ids();
        proof {
            if self.slots().contains_key(id.0) {
                assert(CorpusId(id.0) == id);
            }
        }
        let prev = self.last_id;
        match self.last_id {
            Some(last) => {
                proof {
                    lemma_index_of_unique(ids, ids.len() - 1);
                }
                let slot = match self.index.get(last.0) {
                    Some(slot) => slot,
                    None => {
                        proof {
                            assert(self.slots().contains_key(ids[ids.len() - 1].0));
                        }
                        0
                    },
                };
                self.items[slot].next = Some(id);
            },
            None => {},
        }
        if self.first_id.is_none() {
            self.first_id = Some(id);
        }
        self.last_id = Some(id);
        insert_key(&mut self.keys, id);
        let slot = self.items.len();
        self.items.push(TestcaseStorageItem { testcase, prev, next: None, id });
        self.index.insert(id.0, slot);
        self.order = Ghost(ids.push(id));
        proof {
            let new_ids = self.ids();
            assert(new_ids.no_duplicates());
            assert forall|i: int| 0 <= i < new_ids.len() implies self.slots().contains_key(
                #[trigger] new_ids[i].0,
            ) by {
                if i < ids.len() {
                    assert(old_self.slots().contains_key(ids[i].0));
                }
            }
            assert forall|k: usize| #[trigger]
                self.slots().contains_key(k) implies new_ids.contains(CorpusId(k)) by {
                if k == id.0 {
                    assert(new_ids[ids.len() as int] == CorpusId(k));
                } else {
                    assert(old_self.slots().contains_key(k));
                    let j = choose|j: int| 0 <= j < ids.len() && ids[j] == CorpusId(k);
                    assert(new_ids[j] == CorpusId(k));
                }
            }
            assert forall|k: usize| #[trigger] self.slots().contains_key(k) implies self.slots()[k]
                < self.items@.len() && self.items@[self.slots()[k] as int].id == CorpusId(k) by {
                if k != id.0 {
                    assert(old_self.slots().contains_key(k));
                }
            }
            assert forall|j: int| 0 <= j < self.items@.len() implies self.slots().contains_key(
                #[trigger] self.items@[j].id.0,
            ) && self.slots()[self.items@[j].id.0] == j by {
                if j < ids.len() {
                    assert(old_self.slots().contains_key(old_self.items@[j].id.0));
                    assert(old_self.items@[j].id.0 != id.0) by {
                        assert(old_self.slots().contains_key(old_self.items@[j].id.0));
                        assert(ids.contains(CorpusId(old_self.items@[j].id.0)));
                    }
                }
            }
            assert forall|i: int| 0 <= i < new_ids.len() implies #[trigger] self.links_ok(i) by {
                if i < ids.len() {
                    assert(old_self.links_ok(i));
                    assert(old_self.slots().contains_key(ids[i].0));
                    if i + 1 < ids.len() {
                        assert(old_self.slots().contains_key(ids[ids.len() - 1].0));
                        assert(ids[i] != ids[ids.len() - 1]);
                        assert(old_self.slots()[ids[i].0] != old_self.slots()[ids[ids.len()
                            - 1].0]);
                    }
                }
            }
            assert(self.keys@.to_set() =~= new_ids.to_set()) by {
                assert forall|x: CorpusId| new_ids.to_set().contains(x) <==> #[trigger]
                    ids.to_set().insert(id).contains(x) by {
                    if new_ids.contains(x) {
                        let j = choose|j: int| 0 <= j < new_ids.len() && new_ids[j] == x;
                        if j < ids.len() {
                            assert(ids[j] == x);
                        }
                    }
                    if ids.contains(x) {
                        let j = choose|j: int| 0 <= j < ids.len() && ids[j] == x;
                        assert(new_ids[j] == x);
                    }
                    if x == id {
                        assert(new_ids[ids.len() as int] == x);
                    }
                }
            }
            assert forall|x: CorpusId| #[trigger] self.contents().contains_key(x) implies
                old_self.contents().insert(id, testcase).contains_key(x) && self.contents()[x]
                == old_self.contents().insert(id, testcase)[x] by {
                let j = choose|j: int| 0 <= j < new_ids.len() && new_ids[j] == x;
                if j < ids.len() {
                    assert(ids[j] == x);
                    assert(old_self.slots().contains_key(x.0));
                    if ids.len() > 0 {
                        assert(old_self.slots().contains_key(ids[ids.len() - 1].0));
                    }
                }
            }
            assert forall|x: CorpusId| #[trigger]
                old_self.contents().insert(id, testcase).contains_key(x)
                implies self.contents().contains_key(x) by {
                if x != id {
                    let j = choose|j: int| 0 <= j < ids.len() && ids[j] == x;
                    assert(new_ids[j] == x);
                } else {
                    assert(new_ids[ids.len() as int] == x);
                }
            }
            assert(self.contents() =~= old_self.contents().insert(id, testcase));
        }
    }
    /// The slot that holds `id`.
    fn slot_of(&self, id: CorpusId) -> (r: usize)
        requires
            self.slots().contains_key(id.0),
        ensures
            r == self.slots()[id.0],
    {
        match self.index.get(id.0) {
            Some(slot) => slot,
            None => 0,
        }
    }

    /// Removes the test case stored under `id` and hands it back; the neighbours of
    /// `id` are linked to each other. Nothing changes when `id` is absent.
    #[verifier::rlimit(80)]
    pub fn remove(&mut self, id: CorpusId) -> (r: Option<Testcase<I>>)
        requires
            old(self).wf(),
        ensures
            final(self).wf(),
            r.is_some() == old(self).ids().contains(id),
            r.is_some() ==> r == Some(old(self).contents()[id]) && final(self).ids() == old(
                self,
            ).ids().remove(old(self).ids().index_of(id)) && final(self).contents() == old(
                self,
            ).contents().remove(id),
            r.is_none() ==> final(self).ids() == old(self).ids() && final(self).contents()
                == old(self).contents(),
    {
        let ghost old_self = *self;
        let ghost ids = self.ids();
        let ghost n = ids.len();
        if self.index.get(id.0).is_none() {
            proof {
                if ids.contains(id) {
                    let i = ids.index_of(id);
                    assert(self.slots().contains_key(ids[i].0));
                }
            }
            return None;
        }
        proof {
            assert(ids.contains(CorpusId(id.0)));
        }
        let ghost pos = ids.index_of(id);
        proof {
            lemma_index_of_unique(ids, pos);
            assert(self.links_ok(pos));
        }
        let slot = self.slot_of(id);
        let prev = self.items[slot].prev;
        let next = self.items[slot].next;
        match prev {
            Some(p) => {
                proof {
                    assert(self.slots().contains_key(ids[pos - 1].0));
                }
                let ps = self.slot_of(p);
                proof {
                    assert(ids[pos - 1] != ids[pos]);
                }
                self.items[ps].next = next;
            },
            None => {
                self.first_id = next;
            },
        }
        match next {
            Some(nx) => {
                proof {
                    assert(self.slots().contains_key(ids[pos + 1].0));
                }
                let ns = self.slot_of(nx);
                proof {
                    assert(ids[pos + 1] != ids[pos]);
                }
                self.items[ns].prev = prev;
            },
            None => {
                self.last_id = prev;
            },
        }
        let ghost relinked = self.items@;
        proof {
            // Relinking touched no id and no test case, and only the neighbours' links.
            assert forall|j: int| 0 <= j < n implies #[trigger] relinked[j].id == old_self.items@[
                j].id && relinked[j].testcase == old_self.items@[j].testcase by {}
            assert forall|x: CorpusId|
                #![trigger old_self.slots()[x.0]]
                ids.contains(x) && x != id && (pos == 0 || x != ids[pos - 1]) && (pos + 1 == n
                    || x != ids[pos + 1]) implies relinked[old_self.slots()[x.0] as int]
                == old_self.item(x) by {
                let j = choose|j: int| 0 <= j < n && ids[j] == x;
                assert(old_self.slots().contains_key(ids[j].0));
                if pos > 0 {
                    assert(old_self.slots().contains_key(ids[pos - 1].0));
                }
                if pos + 1 < n {
                    assert(old_self.slots().contains_key(ids[pos + 1].0));
                }
            }
        }
        remove_key(&mut self.keys, id);
        let item = self.items.swap_remove(slot);
        self.index.remove(id.0);
        let ghost moved = relinked[n - 1].id;
        if slot < self.items.len() {
            let moved_id = self.items[slot].id;
            self.index.insert(moved_id.0, slot);
        }
        let ghost new_ids = ids.remove(pos);
        self.order = Ghost(new_ids);
        proof {
            assert(old_self.slots().contains_key(moved.0));
            assert(old_self.slots()[moved.0] == n - 1);
            // Where each remaining id now sits, and what is stored there.
            assert forall|x: CorpusId| #[trigger]
                old_self.slots().contains_key(x.0) && x != id implies self.slots().contains_key(
                x.0) && self.items@[self.slots()[x.0] as int] == relinked[old_self.slots()[x.0] as int] by {
                if slot as int != n - 1 && x == moved {
                } else {
                    assert(old_self.items@[old_self.slots()[x.0] as int].id == CorpusId(x.0));
                    assert(old_self.slots()[x.0] != slot);
                    assert(old_self.slots()[x.0] != n - 1);
                }
            }
            assert(new_ids.no_duplicates());
            assert forall|i: int| 0 <= i < new_ids.len() implies self.slots().contains_key(
                #[trigger] new_ids[i].0,
            ) by {
                let j = if i < pos { i } else { i + 1 };
                assert(new_ids[i] == ids[j]);
                assert(old_self.slots().contains_key(ids[j].0));
            }
            assert forall|k: usize| #[trigger]
                self.slots().contains_key(k) implies new_ids.contains(CorpusId(k)) by {
                assert(old_self.slots().contains_key(k));
                assert(k != id.0);
                let j = choose|j: int| 0 <= j < n && ids[j] == CorpusId(k);
                if j < pos {
                    assert(new_ids[j] == CorpusId(k));
                } else {
                    assert(j != pos);
                    assert(new_ids[j - 1] == CorpusId(k));
                }
            }
            assert forall|k: usize| #[trigger] self.slots().contains_key(k) implies self.slots()[k]
                < self.items@.len() && self.items@[self.slots()[k] as int].id == CorpusId(k) by {
                assert(old_self.slots().contains_key(k));
                assert(k != id.0);
                assert(old_self.slots().contains_key(CorpusId(k).0));
            }
            assert forall|j: int| 0 <= j < self.items@.len() implies self.slots().contains_key(
                #[trigger] self.items@[j].id.0,
            ) && self.slots()[self.items@[j].id.0] == j by {
                if j == slot {
                    assert(self.items@[j].id == moved);
                } else {
                    assert(self.items@[j] == relinked[j]);
                    assert(old_self.slots().contains_key(old_self.items@[j].id.0));
                    assert(old_self.items@[j].id != id);
                    assert(old_self.items@[j].id != moved);
                }
            }
            assert forall|i: int| 0 <= i < new_ids.len() implies #[trigger] self.links_ok(i) by {
                let j = if i < pos { i } else { i + 1 };
                let x = new_ids[i];
                assert(x == ids[j]);
                assert(old_self.links_ok(j));
                assert(old_self.slots().contains_key(x.0));
                assert(self.item(x) == relinked[old_self.slots()[x.0] as int]);
                if i > 0 {
                    let jp = if i - 1 < pos { i - 1 } else { i };
                    assert(new_ids[i - 1] == ids[jp]);
                }
                if i + 1 < new_ids.len() {
                    let jn = if i + 1 < pos { i + 1 } else { i + 2 };
                    assert(new_ids[i + 1] == ids[jn]);
                }
            }
            assert(self.keys@.to_set() =~= new_ids.to_set()) by {
                assert forall|x: CorpusId| new_ids.to_set().contains(x) <==> #[trigger]
                    ids.to_set().remove(id).contains(x) by {
                    if new_ids.contains(x) {
                        let i = choose|i: int| 0 <= i < new_ids.len() && new_ids[i] == x;
                        let j = if i < pos { i } else { i + 1 };
                        assert(ids[j] == x);
                    }
                    if ids.contains(x) && x != id {
                        let j = choose|j: int| 0 <= j < n && ids[j] == x;
                        if j < pos {
                            assert(new_ids[j] == x);
                        } else {
                            assert(new_ids[j - 1] == x);
                        }
                    }
                }
            }
            assert forall|x: CorpusId| #[trigger] self.contents().contains_key(x) implies
                old_self.contents().remove(id).contains_key(x) && self.contents()[x]
                == old_self.contents()[x] by {
                let i = choose|i: int| 0 <= i < new_ids.len() && new_ids[i] == x;
                let j = if i < pos { i } else { i + 1 };
                assert(ids[j] == x);
                assert(old_self.slots().contains_key(x.0));
            }
            assert forall|x: CorpusId| #[trigger]
                old_self.contents().remove(id).contains_key(x) implies self.contents().contains_key(x) by {
                let j = choose|j: int| 0 <= j < n && ids[j] == x;
                if j < pos {
                    assert(new_ids[j] == x);
                } else {
                    assert(new_ids[j - 1] == x);
                }
            }
            assert(self.contents() =~= old_self.contents().remove(id));
        }
        Some(item.testcase)
    }
    /// Puts `testcase` in place of the one stored under `id` and hands the old one
    /// back; the order is kept. Nothing changes when `id` is absent.
    pub fn replace(&mut self, id: CorpusId, testcase: Testcase<I>) -> (r: Option<Testcase<I>>)
        requires
            old(self).wf(),
        ensures
            final(self).wf(),
            final(self).ids() == old(self).ids(),
            r.is_some() == old(self).ids().contains(id),
            r.is_some() ==> r == Some(old(self).contents()[id]) && final(self).contents() == old(
                self,
            ).contents().insert(id, testcase),
            r.is_none() ==> final(self).contents() == old(self).contents(),
    {
        let ghost old_self = *self;
        let ghost ids = self.ids();
        match self.index.get(id.0) {
            Some(slot) => {
                proof {
                    assert(ids.contains(CorpusId(id.0)));
                }
                let mut previous = testcase;
                std::mem::swap(&mut self.items[slot].testcase, &mut previous);
                proof {
                    assert forall|i: int| 0 <= i < ids.len() implies #[trigger] self.links_ok(i) by {
                        assert(old_self.links_ok(i));
                    }
                    assert forall|x: CorpusId| #[trigger] self.contents().contains_key(x) implies
                        self.contents()[x] == old_self.contents().insert(id, testcase)[x] by {
                        if x != id {
                            let j = choose|j: int| 0 <= j < ids.len() && ids[j] == x;
                            assert(old_self.slots().contains_key(ids[j].0));
                        }
                    }
                    assert(self.contents() =~= old_self.contents().insert(id, testcase));
                }
                Some(previous)
            },
            None => {
                proof {
                    if ids.contains(id) {
                        let i = ids.index_of(id);
                        assert(self.slots().contains_key(ids[i].0));
                    }
                    assert(self.contents() =~= old_self.contents());
                }
                None
            },
        }
    }

    /// The `n`th smallest stored id.
    pub fn nth(&self, n: usize) -> (r: CorpusId)
        requires
            self.wf(),
            n < self.ids().len(),
        ensures
            r == self.keys@[n as int],
    {
        proof {
            self.lemma_keys_len();
        }
        self.keys[n]
    }

    /// The sorted keys hold as many ids as the order does.
    pub proof fn lemma_keys_len(&self)
        requires
            self.wf(),
        ensures
            self.keys@.len() == self.ids().len(),
    {
        self.keys@.unique_seq_to_set();
        self.ids().unique_seq_to_set();
    }
    /// The test case stored under `id`, to be changed in place; `id` must be stored.
    pub fn get_mut(&mut self, id: CorpusId) -> (r: &mut Testcase<I>)
        requires
            old(self).wf(),
            old(self).ids().contains(id),
        ensures
            *r == old(self).contents()[id],
            final(self).wf(),
            final(self).ids() == old(self).ids(),
            final(self).contents() == old(self).contents().insert(id, *final(r)),
    {
        let ghost old_self = *self;
        proof {
            let i = old_self.ids().index_of(id);
            assert(old_self.slots().contains_key(old_self.ids()[i].0));
        }
        let slot = self.slot_of(id);
        let r = &mut self.items[slot].testcase;
        proof {
            let ids = old_self.ids();
            assert forall|i: int| 0 <= i < ids.len() implies #[trigger] after_borrow(
                *self,
            ).links_ok(i) by {
                assert(old_self.links_ok(i));
            }
            assert forall|x: CorpusId| #[trigger] after_borrow(*self).contents().contains_key(x)
                implies after_borrow(*self).contents()[x] == old_self.contents().insert(
                id,
                *final(r),
            )[x] by {
                if x != id {
                    let j = choose|j: int| 0 <= j < ids.len() && ids[j] == x;
                    assert(old_self.slots().contains_key(ids[j].0));
                }
            }
            assert(after_borrow(*self).contents() =~= old_self.contents().insert(id, *final(r)));
        }
        r
    }
}

} // verus!
