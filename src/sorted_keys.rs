use vstd::prelude::*;

use crate::corpus_id::CorpusId;

verus! {

/// Whether the ids of `s` strictly increase.
pub open spec fn strictly_ascending(s: Seq<CorpusId>) -> bool {
    forall|i: int, j: int| 0 <= i < j < s.len() ==> s[i].0 < s[j].0
}

/// Where `id` stands in `keys`, or the position where it would be inserted.
pub(crate) fn search_key(keys: &Vec<CorpusId>, id: CorpusId) -> (r: Result<usize, usize>)
    requires
        strictly_ascending(keys@),
    ensures
        match r {
            Ok(i) => i < keys@.len() && keys@[i as int] == id,
            Err(i) => i <= keys@.len() && (forall|j: int|
                0 <= j < i ==> keys@[j].0 < id.0) && (forall|j: int|
                i <= j < keys@.len() ==> keys@[j].0 > id.0),
        },
{
    let mut lo: usize = 0;
    let mut hi: usize = keys.len();
    while lo < hi
        invariant
            lo <= hi <= keys@.len(),
            strictly_ascending(keys@),
            forall|j: int| 0 <= j < lo ==> keys@[j].0 < id.0,
            forall|j: int| hi <= j < keys@.len() ==> keys@[j].0 > id.0,
        decreases hi - lo,
    {
        let mid: usize = lo + (hi - lo) / 2;
        let k: usize = keys[mid].0;
        if k == id.0 {
            return Ok(mid);
        } else if k < id.0 {
            lo = mid + 1;
        } else {
            hi = mid;
        }
    }
    Err(lo)
}

/// Adds `id` to the sorted keys; nothing changes when it is there already.
pub(crate) fn insert_key(keys: &mut Vec<CorpusId>, id: CorpusId)
    requires
        strictly_ascending(old(keys)@),
    ensures
        strictly_ascending(final(keys)@),
        final(keys)@.to_set() == old(keys)@.to_set().insert(id),
{
    match search_key(keys, id) {
        Ok(i) => {
            assert(keys@.to_set().insert(id) =~= keys@.to_set());
        },
        Err(i) => {
            let ghost before = keys@;
            keys.insert(i, id);
            proof {
                before.insert_ensures(i as int, id);
                let after = keys@;
                assert forall|a: int, b: int| 0 <= a < b < after.len() implies after[a].0
                    < after[b].0 by {
                    if b < i {
                    } else if b == i {
                    } else if a < i {
                    } else if a == i {
                        assert(after[b] == before[b - 1]);
                    } else {
                        assert(after[a] == before[a - 1]);
                        assert(after[b] == before[b - 1]);
                    }
                }
                assert forall|x: CorpusId| after.to_set().contains(x) <==> #[trigger]
                    before.to_set().insert(id).contains(x) by {
                    if after.contains(x) {
                        let j = choose|j: int| 0 <= j < after.len() && after[j] == x;
                        if j < i {
                            assert(before[j] == x);
                        } else if j > i {
                            assert(before[j - 1] == x);
                        }
                    }
                    if before.contains(x) {
                        let j = choose|j: int| 0 <= j < before.len() && before[j] == x;
                        if j < i {
                            assert(after[j] == x);
                        } else {
                            assert(after[j + 1] == x);
                        }
                    }
                    if x == id {
                        assert(after[i as int] == x);
                    }
                }
                assert(after.to_set() =~= before.to_set().insert(id));
            }
        },
    }
}

/// Removes `id` from the sorted keys; nothing changes when it is absent.
pub(crate) fn remove_key(keys: &mut Vec<CorpusId>, id: CorpusId)
    requires
        strictly_ascending(old(keys)@),
    ensures
        strictly_ascending(final(keys)@),
        final(keys)@.to_set() == old(keys)@.to_set().remove(id),
{
    match search_key(keys, id) {
        Ok(i) => {
            let ghost before = keys@;
            keys.remove(i);
            proof {
                let after = keys@;
                assert(after =~= before.remove(i as int));
                assert forall|a: int, b: int| 0 <= a < b < after.len() implies after[a].0
                    < after[b].0 by {
                    if b < i {
                    } else if a < i {
                        assert(after[b] == before[b + 1]);
                    } else {
                        assert(after[a] == before[a + 1]);
                        assert(after[b] == before[b + 1]);
                    }
                }
                assert forall|x: CorpusId| after.to_set().contains(x) <==> #[trigger]
                    before.to_set().remove(id).contains(x) by {
                    if after.contains(x) {
                        let j = choose|j: int| 0 <= j < after.len() && after[j] == x;
                        if j < i {
                            assert(before[j] == x);
                        } else {
                            assert(before[j + 1] == x);
                        }
                    }
                    if before.contains(x) && x != id {
                        let j = choose|j: int| 0 <= j < before.len() && before[j] == x;
                        if j < i {
                            assert(after[j] == x);
                        } else {
                            assert(j != i);
                            assert(after[j - 1] == x);
                        }
                    }
                }
                assert(after.to_set() =~= before.to_set().remove(id));
            }
        },
        Err(i) => {
            proof {
                if keys@.contains(id) {
                    let j = choose|j: int| 0 <= j < keys@.len() && keys@[j] == id;
                    assert(j < i || j >= i);
                }
            }
            assert(keys@.to_set().remove(id) =~= keys@.to_set());
        },
    }
}

} // verus!
