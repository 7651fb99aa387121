use apalis_core::error::StorageError;
use apalis_core::job::JobState;
use apalis_core::memory::MemoryStorage;
use apalis_core::storage::{Storage, StorageJobExt};

fn seeded() -> MemoryStorage {
    // page size 2, five pending jobs, one of them delivered
    let mut st = MemoryStorage::new(1_000, 3, 2);
    for p in ["a", "b", "c", "d", "e"] {
        st.push(String::from(p), 0, 0).unwrap();
    }
    st.consume(0).unwrap().unwrap();
    st
}

#[test]
fn list_by_page_filters_and_paginates() {
    let mut st = seeded();
    // pending jobs are b, c, d, e in push order; pages hold 2 each
    let first = st.list_by_page(JobState::Pending, 1).unwrap();
    assert_eq!(first.len(), 2);
    assert_eq!(first[0].payload, "b");
    assert_eq!(first[1].payload, "c");
    let second = st.list_by_page(JobState::Pending, 2).unwrap();
    assert_eq!(second.len(), 2);
    assert_eq!(second[0].payload, "d");
    assert_eq!(second[1].payload, "e");
    let running = st.list_by_page(JobState::Running, 1).unwrap();
    assert_eq!(running.len(), 1);
    assert_eq!(running[0].payload, "a");
}

#[test]
fn list_by_page_past_end_is_empty_not_an_error() {
    let mut st = seeded();
    assert_eq!(st.list_by_page(JobState::Pending, 3).unwrap().len(), 0);
    assert_eq!(st.list_by_page(JobState::Pending, 999_999).unwrap().len(), 0);
    assert_eq!(st.list_by_page(JobState::Done, 1).unwrap().len(), 0);
}

#[test]
fn list_by_page_rejects_pages_below_one() {
    let mut st = seeded();
    assert!(matches!(
        st.list_by_page(JobState::Pending, 0),
        Err(StorageError::InvalidArgument)
    ));
    assert!(matches!(
        st.list_by_page(JobState::Pending, -5),
        Err(StorageError::InvalidArgument)
    ));
}

#[test]
fn find_by_id_reads_without_mutating() {
    let mut st = seeded();
    let job = st.find_by_id(3).unwrap();
    assert_eq!(job.id, 3);
    assert_eq!(job.payload, "d");
    assert_eq!(job.attempts, 0);
    // a lookup is not a delivery: attempts and state are untouched
    let again = st.find_by_id(3).unwrap();
    assert_eq!(again.state, JobState::Pending);
    assert_eq!(again.attempts, 0);
}
