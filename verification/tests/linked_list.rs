use rust_study::linked_list::LinkedList;

fn collect(list: &LinkedList<i32>) -> Vec<i32> {
    let mut it = list.iter();
    let mut out = Vec::new();
    while let Some(v) = it.next() {
        out.push(*v);
    }
    out
}

#[test]
fn push_iter_and_pop_in_front_order() {
    let mut list = LinkedList::new();
    list.push_front(3);
    list.push_front(2);
    list.push_front(1);
    assert_eq!(list.len(), 3);
    assert_eq!(collect(&list), vec![1, 2, 3]);
    assert_eq!(list.pop_front(), Some(1));
    assert_eq!(list.pop_front(), Some(2));
    assert_eq!(list.len(), 1);
}

#[test]
fn pop_undoes_push() {
    let mut list: LinkedList<i32> = LinkedList::default();
    list.push_front(7);
    list.push_front(8);
    let before = collect(&list);
    list.push_front(9);
    assert_eq!(list.pop_front(), Some(9));
    assert_eq!(collect(&list), before);
}

#[test]
fn empty_list_behaviour() {
    let mut list: LinkedList<String> = LinkedList::new();
    assert_eq!(list.len(), 0);
    assert_eq!(list.pop_front(), None);
    assert!(list.iter().next().is_none());
    list.push_front("x".to_string());
    assert_eq!(list.pop_front().as_deref(), Some("x"));
    assert_eq!(list.pop_front(), None);
}

#[test]
fn long_list_is_dropped_without_trouble() {
    let mut list = LinkedList::new();
    for i in 0..1000 {
        list.push_front(i);
    }
    assert_eq!(list.len(), 1000);
    assert_eq!(list.iter().next(), Some(&999));
}
