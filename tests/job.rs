use void_index::job::{CodeChunk, IndexJob, DEFAULT_CONCURRENCY};
use void_index::store::VectorStore;

fn chunks(n: usize) -> Vec<CodeChunk> {
    (0..n)
        .map(|i| CodeChunk {
            path: "a.rs".to_string(),
            content: format!("fn f{i}() {{}}"),
            start_line: i as u32 + 1,
            end_line: i as u32 + 1,
            chunk_type: "function".to_string(),
        })
        .collect()
}

/// Admits and records the row of chunk `i` as written by the engine.
fn write(job: &mut IndexJob, store: &mut VectorStore, i: usize) {
    let c = job.chunk(i);
    let row = match store.insert(job.path(), &c.content, c.start_line, c.end_line, &c.chunk_type, 3) {
        Ok(r) => r,
        Err(_) => panic!("insert"),
    };
    assert!(store.can_write(&row));
    job.finish_written(store, i, &row);
}

#[test]
fn zero_cap_is_refused() {
    assert!(IndexJob::new("a.rs", chunks(3), 0).is_none());
}

#[test]
fn no_task_before_delete() {
    let mut store = VectorStore::new("db", None);
    let mut j = IndexJob::new("a.rs", chunks(2), 10).unwrap();
    assert_eq!(j.start_task(), None);
    j.clear_path(&mut store);
    assert_eq!(j.start_task(), Some(0));
}

#[test]
fn empty_batch_indexes_nothing() {
    let mut store = VectorStore::new("db", None);
    let mut j = IndexJob::new("a.rs", Vec::new(), DEFAULT_CONCURRENCY).unwrap();
    assert!(!j.is_complete());
    j.clear_path(&mut store);
    assert_eq!(j.start_task(), None);
    assert!(j.is_complete());
    let r = j.report();
    assert_eq!(r.indexed, 0);
    assert!(r.failed.is_empty());
    assert_eq!(store.dimension(), None);
}

#[test]
fn fifty_chunks_never_exceed_ten_in_flight() {
    assert_eq!(DEFAULT_CONCURRENCY, 10);
    let mut store = VectorStore::new("db", None);
    let mut j = IndexJob::new("big.rs", chunks(50), DEFAULT_CONCURRENCY).unwrap();
    j.clear_path(&mut store);
    let mut running: Vec<usize> = Vec::new();
    let mut max_seen = 0;
    let mut started = 0;
    loop {
        while let Some(i) = j.start_task() {
            running.push(i);
            started += 1;
        }
        assert!(j.in_flight() <= 10);
        max_seen = max_seen.max(j.in_flight());
        if running.is_empty() {
            break;
        }
        // finish the oldest task; every seventh chunk fails
        let i = running.remove(0);
        assert!(j.is_running(i));
        if i % 7 == 0 {
            j.finish_failed(i);
        } else {
            write(&mut j, &mut store, i);
        }
    }
    assert_eq!(started, 50);
    assert_eq!(max_seen, 10);
    assert!(j.is_complete());
    let r = j.report();
    assert_eq!(r.failed, vec![0, 7, 14, 21, 28, 35, 42, 49]);
    assert_eq!(r.indexed, 42);
    assert_eq!(store.dimension(), Some(3));
}

#[test]
fn failure_does_not_stop_others() {
    let mut store = VectorStore::new("db", None);
    let mut j = IndexJob::new("a.rs", chunks(3), 2).unwrap();
    j.clear_path(&mut store);
    assert_eq!(j.start_task(), Some(0));
    assert_eq!(j.start_task(), Some(1));
    assert_eq!(j.start_task(), None);
    j.finish_failed(1);
    assert_eq!(j.start_task(), Some(2));
    write(&mut j, &mut store, 0);
    write(&mut j, &mut store, 2);
    assert!(j.is_complete());
    let r = j.report();
    assert_eq!(r.indexed, 2);
    assert_eq!(r.failed, vec![1]);
    assert_eq!(j.path(), "a.rs");
    assert_eq!(j.chunk_count(), 3);
    assert_eq!(j.chunk(2).start_line, 3);
}
