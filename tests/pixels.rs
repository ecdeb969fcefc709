use grimmod::pixels::{HqImageAsyncData, HqImageState};

#[test]
fn fresh_cell_asks_to_wait() {
    let d = HqImageAsyncData::new();
    assert!(d.get_or_wait().is_none());
}

#[test]
fn loaded_cell_answers_buffer() {
    let mut d = HqImageAsyncData::new();
    d.loaded(vec![1, 2, 3, 4], true);
    let r = d.get_or_wait().unwrap().unwrap();
    assert_eq!((r.0.clone(), r.1), (vec![1, 2, 3, 4], true));
}

#[test]
fn failed_cell_answers_none() {
    let mut d = HqImageAsyncData::new();
    d.failed();
    assert!(matches!(d.get_or_wait(), Some(None)));
    assert!(matches!(d.state, HqImageState::Failed));
}

#[test]
fn repeated_reads_agree() {
    let mut d = HqImageAsyncData::new();
    d.loaded(vec![9, 8], false);
    let a = d.get_or_wait().unwrap().unwrap().0.clone();
    let b = d.get_or_wait().unwrap().unwrap().0.clone();
    assert_eq!(a, b);
}

#[test]
fn readers_before_terminal_wait_and_after_agree() {
    let mut d = HqImageAsyncData::new();
    let readers = 3;
    for _ in 0..readers {
        assert!(d.get_or_wait().is_none());
    }
    d.loaded(vec![5, 6, 7, 8], true);
    let answers: Vec<Option<(Vec<u8>, bool)>> =
        (0..readers).map(|_| d.get_or_wait().unwrap().map(|(b, a)| (b.clone(), a))).collect();
    for a in answers {
        assert_eq!(a, Some((vec![5, 6, 7, 8], true)));
    }
}
