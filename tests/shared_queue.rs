use deno_core::{OpId, ResponseBatch, SharedQueue, HEAD_INIT, MAX_RECORDS, RECOMMENDED_SIZE};

fn shift_all(q: &mut SharedQueue) -> Vec<(OpId, Vec<u8>)> {
    let mut out = Vec::new();
    while let Some(r) = q.shift() {
        out.push(r);
    }
    out
}

#[test]
fn new_queue_is_empty() {
    let mut q = SharedQueue::new(RECOMMENDED_SIZE);
    assert_eq!(q.size(), 0);
    assert_eq!(q.bytes().len(), HEAD_INIT + RECOMMENDED_SIZE);
    assert!(q.shift().is_none());
}

#[test]
fn push_then_shift_keeps_order() {
    let mut q = SharedQueue::new(RECOMMENDED_SIZE);
    assert!(q.push(1, &[1, 2, 3, 4, 5]));
    assert!(q.push(2, &[6, 7]));
    assert!(q.push(3, &[]));
    assert_eq!(q.size(), 3);
    assert_eq!(q.shift(), Some((1, vec![1, 2, 3, 4, 5])));
    assert_eq!(q.size(), 2);
    assert_eq!(q.shift(), Some((2, vec![6, 7])));
    assert_eq!(q.shift(), Some((3, vec![])));
    assert_eq!(q.size(), 0);
    assert!(q.shift().is_none());
}

#[test]
fn header_words_are_little_endian() {
    let mut q = SharedQueue::new(64);
    assert!(q.push(7, &[9, 9, 9]));
    let b = q.bytes();
    // one record, none shifted, head at the aligned end of the payload
    assert_eq!(&b[0..4], &[1, 0, 0, 0]);
    assert_eq!(&b[4..8], &[0, 0, 0, 0]);
    let head = (HEAD_INIT + 4) as u32;
    assert_eq!(&b[8..12], &head.to_le_bytes());
    let end = (HEAD_INIT + 3) as u32;
    assert_eq!(&b[12..16], &end.to_le_bytes());
    assert_eq!(&b[16..20], &[7, 0, 0, 0]);
    assert_eq!(&b[HEAD_INIT..HEAD_INIT + 3], &[9, 9, 9]);
}

#[test]
fn oversized_record_is_refused_whole() {
    let mut q = SharedQueue::new(16);
    assert!(q.push(1, &[1; 8]));
    let before = q.bytes().to_vec();
    assert!(!q.push(2, &[2; 9]));
    assert_eq!(q.bytes(), &before[..]);
    assert_eq!(shift_all(&mut q), vec![(1, vec![1; 8])]);
}

#[test]
fn padding_counts_against_the_arena() {
    // 5 bytes take 8 with padding; 8 more fit exactly, one more does not
    let mut q = SharedQueue::new(16);
    assert!(q.push(1, &[0; 5]));
    assert!(!q.push(2, &[0; 9]));
    assert!(q.push(3, &[0; 8]));
    assert!(q.push(4, &[]));
    assert!(!q.push(5, &[0]));
    assert_eq!(q.size(), 3);
}

#[test]
fn offsets_table_caps_the_records() {
    let mut q = SharedQueue::new(RECOMMENDED_SIZE);
    for i in 0..MAX_RECORDS {
        assert!(q.push(i as OpId, &[i as u8]));
    }
    assert!(!q.push(999, &[0]));
    assert_eq!(q.size(), MAX_RECORDS);
    let all = shift_all(&mut q);
    assert_eq!(all.len(), MAX_RECORDS);
    assert_eq!(all[42], (42, vec![42]));
}

#[test]
fn last_shift_frees_the_arena() {
    let mut q = SharedQueue::new(8);
    assert!(q.push(1, &[1; 8]));
    assert!(!q.push(2, &[2]));
    assert_eq!(q.shift(), Some((1, vec![1; 8])));
    assert!(q.push(2, &[2; 8]));
    assert_eq!(q.shift(), Some((2, vec![2; 8])));
}

#[test]
fn reset_empties_the_queue() {
    let mut q = SharedQueue::new(32);
    assert!(q.push(1, &[1]));
    assert!(q.push(2, &[2]));
    q.reset();
    assert_eq!(q.size(), 0);
    assert!(q.shift().is_none());
    assert!(q.push(3, &[3; 32]));
}

#[test]
fn batch_queues_small_and_overflows_large() {
    let mut q = SharedQueue::new(RECOMMENDED_SIZE);
    let mut batch = ResponseBatch::new();
    batch.accept(&mut q, 1, vec![43]);
    assert!(!batch.is_full());
    assert_eq!(q.size(), 1);
    let big = vec![4u8; RECOMMENDED_SIZE + 1];
    batch.accept(&mut q, 1, big.clone());
    assert!(batch.is_full());
    assert_eq!(q.size(), 1);
    let (op, bytes) = batch.take_overflow().unwrap();
    assert_eq!(op, 1);
    assert_eq!(bytes.len(), RECOMMENDED_SIZE + 1);
    assert_eq!(bytes[0], 4);
    assert!(!batch.is_full());
    assert!(batch.take_overflow().is_none());
    assert_eq!(q.shift(), Some((1, vec![43])));
}
