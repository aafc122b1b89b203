use rust_study::tasky::{Priority, TaskStore, TaskyError};

#[test]
fn add_hands_out_increasing_ids() {
    let mut store = TaskStore::new();
    assert_eq!(store.add("写周报".to_string(), Priority::High), 1);
    assert_eq!(store.add("买菜".to_string(), Priority::Normal), 2);
    assert_eq!(store.next_id, 2);
    assert_eq!(store.tasks.len(), 2);
    assert_eq!(store.tasks[0].title, "写周报");
    assert_eq!(store.tasks[1].priority, Priority::Normal);
    assert!(!store.tasks[1].done);
}

#[test]
fn list_hides_finished_tasks_unless_all() {
    let mut store = TaskStore::default();
    store.add("a".to_string(), Priority::Low);
    store.add("b".to_string(), Priority::Low);
    store.add("c".to_string(), Priority::Low);
    assert_eq!(store.mark_done(2), Ok(()));
    let open: Vec<u32> = store.list(false).iter().map(|t| t.id).collect();
    assert_eq!(open, vec![1, 3]);
    let all: Vec<u32> = store.list(true).iter().map(|t| t.id).collect();
    assert_eq!(all, vec![1, 2, 3]);
}

#[test]
fn done_and_remove_unknown_ids() {
    let mut store = TaskStore::new();
    store.add("a".to_string(), Priority::Normal);
    assert_eq!(store.mark_done(9), Err(TaskyError::NotFound(9)));
    assert_eq!(store.remove(9), Err(TaskyError::NotFound(9)));
    assert_eq!(store.tasks.len(), 1);
}

#[test]
fn remove_then_done_is_not_found() {
    let mut store = TaskStore::new();
    store.add("a".to_string(), Priority::Normal);
    store.add("b".to_string(), Priority::Normal);
    assert_eq!(store.remove(1), Ok(()));
    assert_eq!(store.tasks.len(), 1);
    assert_eq!(store.tasks[0].id, 2);
    assert_eq!(store.mark_done(1), Err(TaskyError::NotFound(1)));
    // ids are not reused
    assert_eq!(store.add("c".to_string(), Priority::Low), 3);
}

#[test]
fn stats_count_done_and_pending() {
    let mut store = TaskStore::new();
    assert_eq!(store.stats(), (0, 0, 0));
    store.add("a".to_string(), Priority::Normal);
    store.add("b".to_string(), Priority::Normal);
    store.add("c".to_string(), Priority::Normal);
    store.mark_done(1).unwrap();
    store.mark_done(3).unwrap();
    store.mark_done(3).unwrap();
    assert_eq!(store.stats(), (3, 2, 1));
}

#[test]
fn open_listing_agrees_with_stats() {
    let mut store = TaskStore::new();
    for t in ["a", "b", "c", "d"] {
        store.add(t.to_string(), Priority::High);
    }
    store.mark_done(2).unwrap();
    store.remove(4).unwrap();
    let (total, done, pending) = store.stats();
    assert_eq!(store.list(false).len(), pending);
    assert!(store.list(false).iter().all(|t| !t.done));
    assert_eq!(store.list(true).len(), total);
    assert_eq!(done + pending, total);
}

#[test]
fn ids_stay_distinct_and_handed_out() {
    let mut store = TaskStore::new();
    store.add("a".to_string(), Priority::Low);
    store.add("b".to_string(), Priority::Low);
    store.remove(1).unwrap();
    store.add("c".to_string(), Priority::Low);
    let ids: Vec<u32> = store.tasks.iter().map(|t| t.id).collect();
    assert_eq!(ids, vec![2, 3]);
    assert!(ids.iter().all(|&i| i <= store.next_id));
}
