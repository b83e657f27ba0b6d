use dapd::queue::{InFlightRequest, InFlightRequestQueue};

fn req(seq: i64) -> InFlightRequest {
    InFlightRequest::SetBreakpoint { seq, lines: vec![seq], pending: 1, failed: false }
}

#[test]
fn queue_is_fifo() {
    let mut q = InFlightRequestQueue::new();
    assert!(q.is_empty());
    q.push(req(1));
    q.push(req(2));
    q.push(req(3));
    assert_eq!(q.len(), 3);
    assert_eq!(q.pop(), Some(req(1)));
    assert_eq!(q.pop(), Some(req(2)));
    assert_eq!(q.len(), 1);
}

#[test]
fn queue_restore_front_and_clear() {
    let mut q = InFlightRequestQueue::new();
    assert_eq!(q.pop(), None);
    q.push(req(1));
    q.push(req(2));
    let head = q.pop().unwrap();
    q.restore_front(head);
    assert_eq!(q.pop(), Some(req(1)));
    q.clear();
    assert!(q.is_empty());
}
