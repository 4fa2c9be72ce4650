use framecore::InputLatch;

#[test]
fn capture_is_a_snapshot() {
    // The latch copies the host state: changing the host's input afterwards
    // cannot reach a frame already underway.
    let mut host = vec![true, false];
    let latch = InputLatch::capture(&host);
    host[0] = false;
    host[1] = true;
    assert!(latch.pressed(0));
    assert!(!latch.pressed(1));
    assert_eq!(latch.len(), 2);
}

#[test]
fn unknown_input_reads_released() {
    let latch = InputLatch::capture(&vec![true]);
    assert!(!latch.pressed(1));
    assert!(!latch.pressed(100));
    let empty = InputLatch::released();
    assert_eq!(empty.len(), 0);
    assert!(!empty.pressed(0));
}
