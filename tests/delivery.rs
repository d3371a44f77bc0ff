use vaksms::delivery::DeliveryQueue;

fn texts(t: &[&str]) -> Vec<String> {
    t.iter().map(|s| s.to_string()).collect()
}

#[test]
fn empty_queue_pops_nothing() {
    let mut q = DeliveryQueue::new();
    assert_eq!(q.len(), 0);
    assert_eq!(q.pop(), None);
}

#[test]
fn cycles_come_out_flattened_in_order() {
    let mut q = DeliveryQueue::new();
    q.push_cycle(texts(&["a", "b"]));
    q.push_cycle(texts(&[]));
    q.push_cycle(texts(&["c"]));
    assert_eq!(q.len(), 3);
    assert_eq!(q.pop(), Some("a".to_string()));
    q.push_cycle(texts(&["d", "e"]));
    assert_eq!(q.pop(), Some("b".to_string()));
    assert_eq!(q.pop(), Some("c".to_string()));
    assert_eq!(q.pop(), Some("d".to_string()));
    assert_eq!(q.pop(), Some("e".to_string()));
    assert_eq!(q.pop(), None);
}

#[test]
fn repeated_texts_are_not_deduplicated() {
    let mut q = DeliveryQueue::new();
    q.push_cycle(texts(&["code 1"]));
    q.push_cycle(texts(&["code 1"]));
    assert_eq!(q.len(), 2);
    assert_eq!(q.pop(), Some("code 1".to_string()));
    assert_eq!(q.pop(), Some("code 1".to_string()));
}
