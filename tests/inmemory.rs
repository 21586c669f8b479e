use libafl_corpus::{BytesInput, CorpusId, Error, InMemoryCorpus, Testcase};

/// A corpus holding the inputs [1,2,3], [2,3,4] and [3,4,5], in that order.
fn setup_corpus() -> (InMemoryCorpus<BytesInput>, Vec<CorpusId>) {
    let mut corpus = InMemoryCorpus::<BytesInput>::new();
    let mut ids = Vec::new();
    for i in 0..3u8 {
        let input = BytesInput::new(vec![i + 1, i + 2, i + 3]);
        let tc_id = corpus.add(Testcase::new(input)).unwrap();
        ids.push(tc_id);
    }
    (corpus, ids)
}

fn assert_corpus_counts(corpus: &InMemoryCorpus<BytesInput>, enabled: usize, disabled: usize) {
    let total = enabled + disabled;
    assert_eq!(corpus.count(), enabled, "Wrong number of enabled testcases");
    assert_eq!(
        corpus.count_disabled(),
        disabled,
        "Wrong number of disabled testcases"
    );
    assert_eq!(corpus.count_all(), total, "Wrong total number of testcases");
}

fn payload(tc: &Testcase<BytesInput>) -> Vec<u8> {
    tc.input().as_ref().unwrap().mutator_bytes().clone()
}

/// The enabled ids, walked from `first` through `next`.
fn enabled_order(corpus: &InMemoryCorpus<BytesInput>) -> Vec<CorpusId> {
    let mut out = Vec::new();
    let mut cur = corpus.first();
    while let Some(id) = cur {
        out.push(id);
        cur = corpus.next(id);
    }
    out
}

/// The enabled ids, walked from `last` through `prev`.
fn enabled_order_backwards(corpus: &InMemoryCorpus<BytesInput>) -> Vec<CorpusId> {
    let mut out = Vec::new();
    let mut cur = corpus.last();
    while let Some(id) = cur {
        out.push(id);
        cur = corpus.prev(id);
    }
    out
}

#[test]
fn test_corpus_basic_operations() {
    let (corpus, ids) = setup_corpus();
    assert_corpus_counts(&corpus, 3, 0);

    for id in &ids {
        assert!(corpus.get(*id).is_ok(), "Failed to get testcase {id:?}");
        assert!(
            corpus.get_from_all(*id).is_ok(),
            "Failed to get testcase from all {id:?}"
        );
    }

    let invalid_id = CorpusId(999);
    assert!(corpus.get(invalid_id).is_err());
    assert!(corpus.get_from_all(invalid_id).is_err());
}

#[test]
fn test_corpus_disable_enable() -> Result<(), Error> {
    let (mut corpus, ids) = setup_corpus();
    let invalid_id = CorpusId(999);

    corpus.disable(ids[1])?;
    assert_corpus_counts(&corpus, 2, 1);

    assert!(
        corpus.get(ids[1]).is_err(),
        "Disabled testcase should not be accessible via get()"
    );
    assert!(
        corpus.get_from_all(ids[1]).is_ok(),
        "Disabled testcase should be accessible via get_from_all()"
    );

    assert!(corpus.get(ids[0]).is_ok());
    assert!(corpus.get(ids[2]).is_ok());

    corpus.enable(ids[1])?;
    assert_corpus_counts(&corpus, 3, 0);

    for id in &ids {
        assert!(corpus.get(*id).is_ok());
    }

    assert!(
        corpus.disable(ids[1]).is_ok(),
        "Should be able to disable testcase"
    );
    assert!(
        corpus.disable(ids[1]).is_err(),
        "Should not be able to disable already disabled testcase"
    );
    assert!(
        corpus.enable(ids[0]).is_err(),
        "Should not be able to enable already enabled testcase"
    );
    assert!(
        corpus.disable(invalid_id).is_err(),
        "Should not be able to disable non-existent testcase"
    );
    assert!(
        corpus.enable(invalid_id).is_err(),
        "Should not be able to enable non-existent testcase"
    );

    Ok(())
}

#[test]
fn test_corpus_operations_after_disabled() -> Result<(), Error> {
    let (mut corpus, ids) = setup_corpus();

    corpus.disable(ids[0])?;
    assert_corpus_counts(&corpus, 2, 1);

    let removed = corpus.remove(ids[0])?;
    let removed_data = removed.input().as_ref().unwrap().mutator_bytes();
    assert_eq!(
        removed_data,
        &vec![1, 2, 3],
        "Removed testcase has incorrect data"
    );
    assert_corpus_counts(&corpus, 2, 0);

    let removed = corpus.remove(ids[1])?;
    let removed_data = removed.input().as_ref().unwrap().mutator_bytes();
    assert_eq!(
        removed_data,
        &vec![2, 3, 4],
        "Removed testcase has incorrect data"
    );
    assert_corpus_counts(&corpus, 1, 0);

    assert!(corpus.get(ids[0]).is_err());
    assert!(corpus.get_from_all(ids[0]).is_err());
    assert!(corpus.get(ids[1]).is_err());
    assert!(corpus.get_from_all(ids[1]).is_err());

    assert!(corpus.get(ids[2]).is_ok());

    Ok(())
}

#[test]
fn ids_are_issued_from_zero() {
    let (_, ids) = setup_corpus();
    assert_eq!(ids, vec![CorpusId(0), CorpusId(1), CorpusId(2)]);
}

#[test]
fn scenario_disable_then_remove_both() {
    let (mut corpus, ids) = setup_corpus();
    assert_eq!(ids, vec![CorpusId(0), CorpusId(1), CorpusId(2)]);
    corpus.disable(CorpusId(1)).unwrap();
    assert_corpus_counts(&corpus, 2, 1);
    assert_eq!(corpus.get(CorpusId(1)).err(), Some(Error::KeyNotFound(CorpusId(1))));
    assert_eq!(payload(corpus.get_from_all(CorpusId(1)).unwrap()), vec![2, 3, 4]);
    assert_eq!(payload(&corpus.remove(CorpusId(0)).unwrap()), vec![1, 2, 3]);
    assert_eq!(payload(&corpus.remove(CorpusId(1)).unwrap()), vec![2, 3, 4]);
    assert_corpus_counts(&corpus, 1, 0);
    assert!(corpus.get_from_all(CorpusId(0)).is_err());
    assert!(corpus.get_from_all(CorpusId(1)).is_err());
    assert_eq!(payload(corpus.get(CorpusId(2)).unwrap()), vec![3, 4, 5]);
}

#[test]
fn reenabled_id_goes_to_the_end() {
    let (mut corpus, ids) = setup_corpus();
    let (a, b, c) = (ids[0], ids[1], ids[2]);
    corpus.disable(b).unwrap();
    assert_eq!(enabled_order(&corpus), vec![a, c]);
    corpus.enable(b).unwrap();
    assert_eq!(enabled_order(&corpus), vec![a, c, b]);
    assert_eq!(enabled_order_backwards(&corpus), vec![b, c, a]);
    assert_eq!(corpus.first(), Some(a));
    assert_eq!(corpus.last(), Some(b));
    assert_eq!(corpus.next(c), Some(b));
    assert_eq!(corpus.prev(b), Some(c));
}

#[test]
fn disabled_ids_are_appended_in_order() {
    let (mut corpus, ids) = setup_corpus();
    corpus.disable(ids[2]).unwrap();
    corpus.disable(ids[0]).unwrap();
    assert_eq!(corpus.nth_from_all(0), ids[1]);
    assert_eq!(corpus.nth_from_all(1), ids[0]);
    assert_eq!(corpus.nth_from_all(2), ids[2]);
    assert_eq!(enabled_order(&corpus), vec![ids[1]]);
}

#[test]
fn add_then_remove_round_trip() {
    let mut corpus = InMemoryCorpus::<BytesInput>::new();
    let id = corpus.add(Testcase::new(BytesInput::new(vec![9, 8, 7]))).unwrap();
    let back = corpus.remove(id).unwrap();
    assert_eq!(payload(&back), vec![9, 8, 7]);
    assert_eq!(corpus.get(id).err(), Some(Error::KeyNotFound(id)));
    assert_eq!(corpus.get_from_all(id).err(), Some(Error::KeyNotFound(id)));
    assert_eq!(corpus.remove(id).err(), Some(Error::KeyNotFound(id)));
    assert_corpus_counts(&corpus, 0, 0);
}

#[test]
fn double_disable_is_key_not_found() {
    let (mut corpus, ids) = setup_corpus();
    assert_eq!(corpus.disable(ids[0]), Ok(()));
    assert_eq!(corpus.disable(ids[0]), Err(Error::KeyNotFound(ids[0])));
    assert_eq!(corpus.enable(ids[0]), Ok(()));
    assert_eq!(corpus.enable(ids[0]), Err(Error::KeyNotFound(ids[0])));
    assert_corpus_counts(&corpus, 3, 0);
}

#[test]
fn peek_free_id_matches_next_add() {
    let mut corpus = InMemoryCorpus::<BytesInput>::new();
    assert_eq!(corpus.peek_free_id(), CorpusId(0));
    let peeked = corpus.peek_free_id();
    let id = corpus.add(Testcase::new(BytesInput::new(vec![1]))).unwrap();
    assert_eq!(peeked, id);
    let peeked = corpus.peek_free_id();
    let id = corpus.add_disabled(Testcase::new(BytesInput::new(vec![2]))).unwrap();
    assert_eq!(peeked, id);
    assert_eq!(corpus.peek_free_id(), CorpusId(2));
}

#[test]
fn ids_stay_unique_across_moves() {
    let mut corpus = InMemoryCorpus::<BytesInput>::new();
    let a = corpus.add(Testcase::new(BytesInput::new(vec![1]))).unwrap();
    let b = corpus.add_disabled(Testcase::new(BytesInput::new(vec![2]))).unwrap();
    corpus.disable(a).unwrap();
    corpus.enable(b).unwrap();
    let c = corpus.add(Testcase::new(BytesInput::new(vec![3]))).unwrap();
    corpus.remove(b).unwrap();
    let d = corpus.add(Testcase::new(BytesInput::new(vec![4]))).unwrap();
    let mut all = vec![a, b, c, d];
    all.sort();
    all.dedup();
    assert_eq!(all.len(), 4);
    assert_eq!(d, CorpusId(3));
    assert_eq!(payload(corpus.get_from_all(a).unwrap()), vec![1]);
    assert!(corpus.get(a).is_err());
}

#[test]
fn counts_add_up() {
    let (mut corpus, ids) = setup_corpus();
    corpus.add_disabled(Testcase::new(BytesInput::new(vec![7]))).unwrap();
    corpus.disable(ids[1]).unwrap();
    assert_corpus_counts(&corpus, 2, 2);
    assert_eq!(corpus.count() + corpus.count_disabled(), corpus.count_all());
}

#[test]
fn replace_only_touches_enabled() {
    let (mut corpus, ids) = setup_corpus();
    let old = corpus
        .replace(ids[0], Testcase::new(BytesInput::new(vec![42])))
        .unwrap();
    assert_eq!(payload(&old), vec![1, 2, 3]);
    assert_eq!(payload(corpus.get(ids[0]).unwrap()), vec![42]);
    assert_eq!(enabled_order(&corpus), ids);
    corpus.disable(ids[1]).unwrap();
    let refused = corpus.replace(ids[1], Testcase::new(BytesInput::new(vec![0])));
    assert_eq!(refused.err(), Some(Error::KeyNotFound(ids[1])));
    assert_eq!(payload(corpus.get_from_all(ids[1]).unwrap()), vec![2, 3, 4]);
    let missing = corpus.replace(CorpusId(999), Testcase::new(BytesInput::new(vec![0])));
    assert_eq!(missing.err(), Some(Error::KeyNotFound(CorpusId(999))));
}

#[test]
fn removing_the_middle_links_its_neighbours() {
    let (mut corpus, ids) = setup_corpus();
    corpus.remove(ids[1]).unwrap();
    assert_eq!(corpus.next(ids[0]), Some(ids[2]));
    assert_eq!(corpus.prev(ids[2]), Some(ids[0]));
    assert_eq!(corpus.next(ids[1]), None);
    assert_eq!(corpus.prev(ids[1]), None);
    assert_eq!(payload(corpus.get(ids[2]).unwrap()), vec![3, 4, 5]);
    assert_eq!(payload(corpus.get(ids[0]).unwrap()), vec![1, 2, 3]);
}

#[test]
fn removing_the_ends_moves_first_and_last() {
    let (mut corpus, ids) = setup_corpus();
    corpus.remove(ids[0]).unwrap();
    assert_eq!(corpus.first(), Some(ids[1]));
    assert_eq!(corpus.prev(ids[1]), None);
    corpus.remove(ids[2]).unwrap();
    assert_eq!(corpus.last(), Some(ids[1]));
    assert_eq!(corpus.next(ids[1]), None);
    corpus.remove(ids[1]).unwrap();
    assert_eq!(corpus.first(), None);
    assert_eq!(corpus.last(), None);
}

#[test]
fn empty_corpus_navigation() {
    let corpus = InMemoryCorpus::<BytesInput>::new();
    assert_corpus_counts(&corpus, 0, 0);
    assert_eq!(corpus.first(), None);
    assert_eq!(corpus.last(), None);
    assert_eq!(corpus.next(CorpusId(0)), None);
    assert_eq!(corpus.prev(CorpusId(0)), None);
    assert_eq!(*corpus.current(), None);
}

#[test]
fn nth_follows_ascending_ids() {
    let (mut corpus, ids) = setup_corpus();
    corpus.disable(ids[0]).unwrap();
    corpus.enable(ids[0]).unwrap();
    assert_eq!(enabled_order(&corpus), vec![ids[1], ids[2], ids[0]]);
    assert_eq!(corpus.nth(0), ids[0]);
    assert_eq!(corpus.nth(1), ids[1]);
    assert_eq!(corpus.nth(2), ids[2]);
}

#[test]
fn current_cursor_is_kept() {
    let (mut corpus, ids) = setup_corpus();
    *corpus.current_mut() = Some(ids[1]);
    assert_eq!(*corpus.current(), Some(ids[1]));
    corpus.remove(ids[1]).unwrap();
    assert_eq!(*corpus.current(), Some(ids[1]));
}

#[test]
fn testcase_keeps_exec_time() {
    let (mut corpus, ids) = setup_corpus();
    let mut tc = corpus.remove(ids[0]).unwrap();
    assert_eq!(tc.exec_time_nanos(), None);
    tc.set_exec_time_nanos(1500);
    assert_eq!(corpus.load_input_into(&mut tc), Ok(()));
    assert_eq!(corpus.store_input_from(&tc), Ok(()));
    let id = corpus.add(tc).unwrap();
    assert_eq!(id, CorpusId(3));
    assert_eq!(corpus.testcase(id).unwrap().exec_time_nanos(), Some(1500));
}

#[test]
fn corpus_id_converts_both_ways() {
    let id = CorpusId::from(17usize);
    assert_eq!(id, CorpusId(17));
    assert_eq!(usize::from(id), 17);
}
