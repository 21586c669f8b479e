use libafl_corpus::{
    BytesInput, CorpusId, InMemoryCorpus, OrderedStorageMap, QueueScheduler, Testcase,
    TestcaseStorage, TestcaseStorageMap,
};

fn tc(bytes: &[u8]) -> Testcase<BytesInput> {
    Testcase::new(BytesInput::new(bytes.to_vec()))
}

fn payload(tc: &Testcase<BytesInput>) -> Vec<u8> {
    tc.input().as_ref().unwrap().mutator_bytes().clone()
}

fn linked_order(map: &TestcaseStorageMap<BytesInput>) -> Vec<CorpusId> {
    let mut out = Vec::new();
    let mut cur = map.first();
    while let Some(id) = cur {
        out.push(id);
        cur = map.next(id);
    }
    out
}

fn ordered_order(map: &OrderedStorageMap<BytesInput>) -> Vec<CorpusId> {
    let mut out = Vec::new();
    let mut cur = map.first();
    while let Some(id) = cur {
        out.push(id);
        cur = map.next(id);
    }
    out
}

#[test]
fn linked_map_keeps_insertion_order_not_numeric_order() {
    let mut map = TestcaseStorageMap::<BytesInput>::new();
    map.push_back(CorpusId(5), tc(&[5]));
    map.push_back(CorpusId(2), tc(&[2]));
    map.push_back(CorpusId(9), tc(&[9]));
    assert_eq!(linked_order(&map), vec![CorpusId(5), CorpusId(2), CorpusId(9)]);
    assert_eq!(map.nth(0), CorpusId(2));
    assert_eq!(map.nth(1), CorpusId(5));
    assert_eq!(map.nth(2), CorpusId(9));
    assert_eq!(map.len(), 3);
    assert_eq!(map.prev(CorpusId(2)), Some(CorpusId(5)));
    assert_eq!(map.last(), Some(CorpusId(9)));
}

#[test]
fn linked_map_remove_and_replace() {
    let mut map = TestcaseStorageMap::<BytesInput>::new();
    for i in 0..5usize {
        map.push_back(CorpusId(i), tc(&[i as u8]));
    }
    assert_eq!(payload(&map.remove(CorpusId(0)).unwrap()), vec![0]);
    assert_eq!(payload(&map.remove(CorpusId(3)).unwrap()), vec![3]);
    assert!(map.remove(CorpusId(3)).is_none());
    assert_eq!(linked_order(&map), vec![CorpusId(1), CorpusId(2), CorpusId(4)]);
    for i in [1usize, 2, 4] {
        assert_eq!(payload(map.get(CorpusId(i)).unwrap()), vec![i as u8]);
    }
    let old = map.replace(CorpusId(2), tc(&[20])).unwrap();
    assert_eq!(payload(&old), vec![2]);
    assert_eq!(payload(map.get(CorpusId(2)).unwrap()), vec![20]);
    assert!(map.replace(CorpusId(3), tc(&[30])).is_none());
    assert!(map.get(CorpusId(3)).is_none());
    map.get_mut(CorpusId(4)).set_exec_time_nanos(7);
    assert_eq!(map.get(CorpusId(4)).unwrap().exec_time_nanos(), Some(7));
    assert_eq!(linked_order(&map), vec![CorpusId(1), CorpusId(2), CorpusId(4)]);
}

#[test]
fn ordered_map_navigates_by_number() {
    let mut map = OrderedStorageMap::<BytesInput>::new();
    map.insert(CorpusId(5), tc(&[5]));
    map.insert(CorpusId(2), tc(&[2]));
    map.insert(CorpusId(9), tc(&[9]));
    assert_eq!(ordered_order(&map), vec![CorpusId(2), CorpusId(5), CorpusId(9)]);
    assert_eq!(map.prev(CorpusId(5)), Some(CorpusId(2)));
    assert_eq!(map.prev(CorpusId(2)), None);
    assert_eq!(map.next(CorpusId(9)), None);
    assert_eq!(map.next(CorpusId(6)), None);
    assert_eq!(map.last(), Some(CorpusId(9)));
    assert_eq!(map.nth(1), CorpusId(5));
    assert_eq!(payload(&map.remove(CorpusId(5)).unwrap()), vec![5]);
    assert!(map.remove(CorpusId(5)).is_none());
    assert_eq!(map.next(CorpusId(2)), Some(CorpusId(9)));
    assert_eq!(payload(&map.replace(CorpusId(9), tc(&[90])).unwrap()), vec![9]);
    assert_eq!(payload(map.get(CorpusId(9)).unwrap()), vec![90]);
    assert!(map.replace(CorpusId(1), tc(&[1])).is_none());
    assert_eq!(map.len(), 2);
}

#[test]
fn both_maps_agree_on_fresh_ids() {
    let mut linked = TestcaseStorageMap::<BytesInput>::new();
    let mut ordered = OrderedStorageMap::<BytesInput>::new();
    for i in 0..6usize {
        linked.push_back(CorpusId(i), tc(&[i as u8]));
        ordered.insert(CorpusId(i), tc(&[i as u8]));
    }
    for i in [4usize, 0, 2] {
        linked.remove(CorpusId(i));
        ordered.remove(CorpusId(i));
    }
    assert_eq!(linked_order(&linked), ordered_order(&ordered));
    for i in 0..7usize {
        assert_eq!(linked.next(CorpusId(i)), ordered.next(CorpusId(i)));
        assert_eq!(linked.prev(CorpusId(i)), ordered.prev(CorpusId(i)));
    }
    assert_eq!(linked.first(), ordered.first());
    assert_eq!(linked.last(), ordered.last());
}

#[test]
fn storage_issues_ids_across_partitions() {
    let mut storage = TestcaseStorage::<BytesInput>::new();
    assert_eq!(storage.peek_free_id(), CorpusId(0));
    assert_eq!(storage.insert(tc(&[1])), CorpusId(0));
    assert_eq!(storage.insert_disabled(tc(&[2])), CorpusId(1));
    assert_eq!(storage.insert(tc(&[3])), CorpusId(2));
    assert_eq!(storage.peek_free_id(), CorpusId(3));
    assert_eq!(storage.enabled.len(), 2);
    assert_eq!(storage.disabled.len(), 1);
    assert!(storage.disabled.get(CorpusId(1)).is_some());
    assert!(storage.enabled.get(CorpusId(1)).is_none());
}

#[test]
fn queue_scheduler_walks_and_wraps() {
    let mut corpus = InMemoryCorpus::<BytesInput>::new();
    let mut scheduler = QueueScheduler::new();
    assert_eq!(scheduler.next(&mut corpus), None);
    assert_eq!(*corpus.current(), None);
    let a = corpus.add(tc(&[1])).unwrap();
    let b = corpus.add(tc(&[2])).unwrap();
    let c = corpus.add(tc(&[3])).unwrap();
    assert_eq!(scheduler.next(&mut corpus), Some(a));
    assert_eq!(scheduler.next(&mut corpus), Some(b));
    assert_eq!(scheduler.next(&mut corpus), Some(c));
    assert_eq!(scheduler.next(&mut corpus), Some(a));
    assert_eq!(*corpus.current(), Some(a));
}

#[test]
fn queue_scheduler_restarts_when_current_is_gone() {
    let mut corpus = InMemoryCorpus::<BytesInput>::new();
    let mut scheduler = QueueScheduler::new();
    let a = corpus.add(tc(&[1])).unwrap();
    let b = corpus.add(tc(&[2])).unwrap();
    let c = corpus.add(tc(&[3])).unwrap();
    assert_eq!(scheduler.next(&mut corpus), Some(a));
    assert_eq!(scheduler.next(&mut corpus), Some(b));
    corpus.disable(b).unwrap();
    assert_eq!(scheduler.next(&mut corpus), Some(a));
    assert_eq!(scheduler.next(&mut corpus), Some(c));
    corpus.enable(b).unwrap();
    assert_eq!(scheduler.next(&mut corpus), Some(b));
}

#[test]
fn testcase_mut_changes_in_place() {
    let mut corpus = InMemoryCorpus::<BytesInput>::new();
    let a = corpus.add(tc(&[1])).unwrap();
    let b = corpus.add_disabled(tc(&[2])).unwrap();
    corpus.testcase_mut(a).unwrap().set_exec_time_nanos(99);
    assert_eq!(corpus.testcase(a).unwrap().exec_time_nanos(), Some(99));
    assert_eq!(payload(corpus.testcase(a).unwrap()), vec![1]);
    assert_eq!(
        corpus.testcase_mut(b).err(),
        Some(libafl_corpus::Error::KeyNotFound(b))
    );
}
