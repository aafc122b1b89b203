use rust_study::delay_queue::{new_task, schedule, task_at, NextStep, Task, TaskHeap};

fn make_task(delay_ms: u128) -> Task {
    new_task(String::new(), delay_ms * 1_000_000).unwrap()
}

fn now_nanos() -> i128 {
    chrono::Utc::now().timestamp_nanos_opt().unwrap() as i128
}

#[test]
fn test_min_heap_ordering() {
    let mut heap = TaskHeap::new();
    heap.push(make_task(300));
    heap.push(make_task(100));
    heap.push(make_task(200));

    let order: Vec<i128> = (0..3)
        .map(|_| {
            let task = heap.pop().unwrap();
            (task.execute_at - now_nanos()) / 1_000_000
        })
        .collect();

    assert!(order.windows(2).all(|w| w[0] <= w[1]), "弹出顺序应为到期时间升序: {:?}", order);
}

#[test]
fn ties_leave_by_larger_id_first() {
    let mut heap = TaskHeap::new();
    heap.push(schedule("a".to_string(), 10, 0, 1));
    heap.push(schedule("b".to_string(), 10, 0, 5));
    heap.push(schedule("c".to_string(), 5, 0, 0));
    heap.push(schedule("d".to_string(), 10, 0, 3));
    let ids: Vec<u128> = (0..4).map(|_| heap.pop().unwrap().id).collect();
    assert_eq!(ids, vec![0, 5, 3, 1]);
    assert!(heap.pop().is_none());
}

#[test]
fn many_tasks_leave_sorted() {
    let mut heap = TaskHeap::new();
    let times = [50i128, 3, 99, 3, 17, 0, 42, 8, 8, 61, 23, 5];
    for (i, t) in times.iter().enumerate() {
        heap.push(schedule(String::new(), *t as u128, 0, i as u128));
    }
    assert_eq!(heap.len(), times.len());
    let mut popped = Vec::new();
    while let Some(t) = heap.pop() {
        popped.push(t.execute_at);
    }
    let mut sorted = times.to_vec();
    sorted.sort();
    assert_eq!(popped, sorted);
}

#[test]
fn next_step_decisions() {
    let mut heap = TaskHeap::new();
    assert!(matches!(heap.next_step_at(100), NextStep::Idle));
    heap.push(schedule("later".to_string(), 500, 0, 1));
    heap.push(schedule("soon".to_string(), 200, 0, 2));
    match heap.next_step_at(100) {
        NextStep::Sleep(d) => assert_eq!(d, 100),
        _ => panic!("expected a sleep"),
    }
    assert_eq!(heap.len(), 2);
    match heap.next_step_at(200) {
        NextStep::Execute(t) => assert_eq!(t.payload, "soon"),
        _ => panic!("expected an execution"),
    }
    assert_eq!(heap.len(), 1);
    assert_eq!(heap.peek().map(|t| t.id), Some(1));
}

#[test]
fn tasks_are_equal_when_neither_leaves_first() {
    let a = schedule("x".to_string(), 1, 0, 7);
    let b = schedule("y".to_string(), 1, 0, 7);
    let c = schedule("x".to_string(), 1, 0, 8);
    let d = schedule("x".to_string(), 2, 0, 7);
    assert!(a == b);
    assert!(!a.pops_before(&b) && !b.pops_before(&a));
    assert!(a != c);
    assert!(c.pops_before(&a));
    assert!(a != d);
    assert!(a.pops_before(&d));
}

#[test]
fn due_times_keep_nanoseconds() {
    let mut heap = TaskHeap::new();
    heap.push(schedule("late".to_string(), 2, 1_000, 9));
    heap.push(schedule("early".to_string(), 1, 1_000, 1));
    assert_eq!(heap.pop().unwrap().payload, "early");
    match heap.next_step_at(1_000) {
        NextStep::Sleep(d) => assert_eq!(d, 2),
        _ => panic!("expected a sleep"),
    }
    assert!(matches!(heap.next_step_at(-5), NextStep::Sleep(1_007)));
}

#[test]
fn new_tasks_carry_payload_and_version_four_ids() {
    let t = new_task("hello".to_string(), 0).unwrap();
    assert_eq!(t.payload, "hello");
    assert_eq!((t.id >> 76) & 0xf, 4);
    assert!(t.execute_at > 0);
    assert!(new_task(String::new(), u128::MAX).is_none());
    // the last instant chrono represents lies in the year 262142
    assert!(new_task(String::new(), 1_000_000_000u128 * 3600 * 24 * 365 * 300_000).is_none());
    assert!(new_task(String::new(), 1_000_000_000u128 * 3600 * 24 * 365 * 1_000).is_some());
}

#[test]
fn task_at_refuses_instants_past_the_last_date() {
    let last: i128 = 8_210_266_876_799_999_999_999;
    let t = task_at("p".to_string(), 10, 5, 42).unwrap();
    assert_eq!((t.id, t.execute_at, t.payload.as_str()), (42, 15, "p"));
    assert!(task_at(String::new(), 0, last, 1).is_some());
    assert!(task_at(String::new(), 1, last, 1).is_none());
    assert!(task_at(String::new(), 0, last + 1, 1).is_none());
    assert_eq!(task_at(String::new(), 100, last - 100, 1).unwrap().execute_at, last);
    assert!(task_at(String::new(), u128::MAX, i128::MIN, 1).is_none());
    assert_eq!(task_at(String::new(), 10, i128::MIN, 1).unwrap().execute_at, i128::MIN + 10);
}

#[test]
fn next_step_reads_the_clock() {
    let mut heap = TaskHeap::new();
    assert!(matches!(heap.next_step(), Some(NextStep::Idle)));
    heap.push(schedule("past".to_string(), 0, 0, 1));
    match heap.next_step() {
        Some(NextStep::Execute(t)) => assert_eq!(t.payload, "past"),
        _ => panic!("expected an execution"),
    }
}
