use vstd::prelude::*;
use vstd::set_lib::{lemma_len_subset, lemma_int_range, set_int_range};

use crate::corpus_id::CorpusId;
use crate::error::Error;
use crate::inmemory::InMemoryCorpus;
use crate::ordered_map::OrderedStorageMap;
use crate::sorted_keys::strictly_ascending;
use crate::storage_map::{first_in, last_in, next_in, prev_in, TestcaseStorageMap};
use crate::testcase::Testcase;

verus! {

/// No id is live twice: the enabled ids followed by the disabled ids hold no
/// duplicate. Every operation keeps `wf`, so this holds after any sequence of
/// `add`, `add_disabled`, `enable` and `disable`.
pub proof fn law_ids_unique<I>(c: InMemoryCorpus<I>)
    requires
        c.wf(),
    ensures
        (c.enabled_ids() + c.disabled_ids()).no_duplicates(),
{
    let e = c.enabled_ids();
    let d = c.disabled_ids();
    let all = e + d;
    assert forall|i: int, j: int| 0 <= i < j < all.len() implies all[i] != all[j] by {
        if j < e.len() {
        } else if i >= e.len() {
            assert(all[i] == d[i - e.len()]);
            assert(all[j] == d[j - e.len()]);
        } else {
            assert(all[i] == e[i]);
            assert(all[j] == d[j - e.len()]);
            assert(e.contains(e[i]));
            assert(d.contains(d[j - e.len()]));
        }
    }
}

/// The partitions are disjoint, and the total never saturates: `count() +
/// count_disabled()` equals `count_all()`.
pub proof fn law_partition<I>(c: InMemoryCorpus<I>)
    requires
        c.wf(),
    ensures
        forall|id: CorpusId| !(#[trigger] c.enabled_ids().contains(id) && c.disabled_ids().contains(id)),
        c.total() <= c.free_id(),
        c.total() <= usize::MAX,
{
    law_ids_unique(c);
    let all = c.enabled_ids() + c.disabled_ids();
    let nums = all.map_values(|x: CorpusId| x.0 as int);
    assert(nums.no_duplicates()) by {
        assert forall|i: int, j: int| 0 <= i < j < nums.len() implies nums[i] != nums[j] by {
            assert(all[i] != all[j]);
        }
    }
    assert(nums.to_set().subset_of(set_int_range(0, c.free_id() as int))) by {
        assert forall|v: int| nums.to_set().contains(v) implies set_int_range(
            0,
            c.free_id() as int,
        ).contains(v) by {
            let k = choose|k: int| 0 <= k < nums.len() && nums[k] == v;
            if k < c.enabled_ids().len() {
                assert(c.enabled_ids().contains(all[k]));
            } else {
                assert(all[k] == c.disabled_ids()[k - c.enabled_ids().len()]);
                assert(c.disabled_ids().contains(all[k]));
            }
        }
    }
    lemma_int_range(0, c.free_id() as int);
    lemma_len_subset(nums.to_set(), set_int_range(0, c.free_id() as int));
    nums.unique_seq_to_set();
}

/// Disabling an enabled id and enabling it again moves it to the end of the
/// enabled order: the others keep their order and it comes last.
pub proof fn law_disable_then_enable<I>(
    c1: InMemoryCorpus<I>,
    c2: InMemoryCorpus<I>,
    c3: InMemoryCorpus<I>,
    id: CorpusId,
)
    requires
        c1.wf(),
        c1.enabled_ids().contains(id),
        c1.disables(id, c2),
        c2.enables(id, c3),
    ensures
        c3.enabled_ids() == c1.enabled_ids().remove(c1.enabled_ids().index_of(id)).push(id),
        c3.enabled_contents() == c1.enabled_contents(),
        c3.disabled_ids() == c1.disabled_ids(),
        c3.disabled_contents() == c1.disabled_contents(),
{
    let d = c2.disabled_ids();
    assert(d == c1.disabled_ids().push(id));
    law_partition(c1);
    assert(!c1.disabled_ids().contains(id));
    assert(d.no_duplicates());
    assert(d[d.len() - 1] == id);
    assert(d.contains(id));
    assert(d.index_of(id) == d.len() - 1);
    assert(c3.disabled_ids() =~= c1.disabled_ids());
    assert(c3.enabled_contents() =~= c1.enabled_contents());
    assert(c3.disabled_contents() =~= c1.disabled_contents());
}

/// A test case added and then removed comes back unchanged, and its id is then
/// found in neither partition.
pub proof fn law_add_then_remove<I>(
    c1: InMemoryCorpus<I>,
    c2: InMemoryCorpus<I>,
    c3: InMemoryCorpus<I>,
    testcase: Testcase<I>,
    id: CorpusId,
)
    requires
        c1.wf(),
        c1.adds(testcase, id, c2),
        c2.removes(id, c3),
    ensures
        c2.remove_result(id) == Ok::<Testcase<I>, Error>(testcase),
        !c3.enabled_ids().contains(id),
        !c3.disabled_ids().contains(id),
{
    let e = c2.enabled_ids();
    assert(e[e.len() - 1] == id);
    assert(e.contains(id));
    law_partition(c2);
    crate::storage_map::lemma_remove_contains(e, e.index_of(id));
    crate::storage_map::lemma_index_of_unique(e, e.len() - 1);
}

/// Disabling an id that was just disabled fails with `KeyNotFound`.
pub proof fn law_double_disable<I>(c1: InMemoryCorpus<I>, c2: InMemoryCorpus<I>, id: CorpusId)
    requires
        c1.wf(),
        c1.enabled_ids().contains(id),
        c1.disables(id, c2),
    ensures
        c2.disable_result(id) == Err::<(), Error>(Error::KeyNotFound(id)),
{
    let e = c1.enabled_ids();
    crate::storage_map::lemma_index_of_unique(e, e.index_of(id));
    crate::storage_map::lemma_remove_contains(e, e.index_of(id));
}

/// The id that `peek_free_id` shows is the one that the next `add` returns.
pub proof fn law_peek_then_add<I>(
    c1: InMemoryCorpus<I>,
    c2: InMemoryCorpus<I>,
    testcase: Testcase<I>,
    id: CorpusId,
)
    requires
        c1.adds(testcase, id, c2),
    ensures
        id == CorpusId(c1.free_id()),
        c2.free_id() == c1.free_id() + 1,
{
}

/// Two ascending sequences of ids with the same elements are equal.
pub proof fn lemma_ascending_unique(a: Seq<CorpusId>, b: Seq<CorpusId>)
    requires
        strictly_ascending(a),
        strictly_ascending(b),
        a.to_set() == b.to_set(),
    ensures
        a == b,
    decreases a.len(),
{
    if a.len() == 0 {
        if b.len() > 0 {
            assert(b.to_set().contains(b[0]));
            assert(a.to_set().contains(b[0]));
        }
        assert(a =~= b);
    } else {
        assert(a.to_set().contains(a[0]));
        assert(b.to_set().contains(a[0]));
        let j = choose|j: int| 0 <= j < b.len() && b[j] == a[0];
        assert(b.to_set().contains(b[0]));
        assert(a.to_set().contains(b[0]));
        let k = choose|k: int| 0 <= k < a.len() && a[k] == b[0];
        assert(b[0].0 <= b[j].0);
        assert(a[0].0 <= a[k].0);
        assert(a[0] == b[0]);
        let a1 = a.drop_first();
        let b1 = b.drop_first();
        assert(a1.to_set() =~= b1.to_set()) by {
            assert forall|x: CorpusId| a1.to_set().contains(x) <==> b1.to_set().contains(x) by {
                if a1.contains(x) {
                    let i = choose|i: int| 0 <= i < a1.len() && a1[i] == x;
                    assert(a[i + 1] == x);
                    assert(b.to_set().contains(x));
                    let m = choose|m: int| 0 <= m < b.len() && b[m] == x;
                    assert(x.0 > a[0].0);
                    assert(m != 0);
                    assert(b1[m - 1] == x);
                }
                if b1.contains(x) {
                    let i = choose|i: int| 0 <= i < b1.len() && b1[i] == x;
                    assert(b[i + 1] == x);
                    assert(a.to_set().contains(x));
                    let m = choose|m: int| 0 <= m < a.len() && a[m] == x;
                    assert(x.0 > b[0].0);
                    assert(m != 0);
                    assert(a1[m - 1] == x);
                }
            }
        }
        lemma_ascending_unique(a1, b1);
        assert(a =~= b) by {
            assert forall|i: int| 0 <= i < a.len() implies a[i] == b[i] by {
                if i > 0 {
                    assert(a[i] == a1[i - 1]);
                    assert(b[i] == b1[i - 1]);
                }
            }
        }
    }
}

/// The linked and the ordered storage map navigate alike when they hold the same ids
/// and the linked order ascends, as it does while every id is stored fresh.
pub proof fn law_variants_agree<I>(linked: TestcaseStorageMap<I>, ordered: OrderedStorageMap<I>)
    requires
        linked.wf(),
        ordered.wf(),
        linked.contents().dom() == ordered.contents().dom(),
        strictly_ascending(linked.ids()),
    ensures
        linked.ids() == ordered.ids(),
        forall|id: CorpusId| #[trigger]
            next_in(linked.ids(), id) == next_in(ordered.ids(), id) && prev_in(linked.ids(), id)
                == prev_in(ordered.ids(), id),
        first_in(linked.ids()) == first_in(ordered.ids()),
        last_in(linked.ids()) == last_in(ordered.ids()),
{
    assert(linked.ids().to_set() =~= linked.contents().dom());
    assert(ordered.ids().to_set() =~= ordered.contents().dom());
    lemma_ascending_unique(linked.ids(), ordered.ids());
}

/// Storing a fresh id, larger than every id stored, keeps the linked order ascending.
pub proof fn law_fresh_push_ascends(ids: Seq<CorpusId>, id: CorpusId)
    requires
        strictly_ascending(ids),
        forall|i: int| 0 <= i < ids.len() ==> (#[trigger] ids[i]).0 < id.0,
    ensures
        strictly_ascending(ids.push(id)),
{
}

} // verus!
