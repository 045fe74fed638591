use lexscan::multipeek;

#[test]
fn peek_reset_peek_peek_returns_same_item() {
    // The lookahead buffer over the character-position pairs of the input "(".
    let mut buffer = multipeek(vec![(0usize, '(')]);
    let first = buffer.peek().copied();
    assert_eq!(first, Some((0, '(')));
    buffer.reset_peek();
    let second = buffer.peek().copied();
    assert_eq!(second, first);
    // Peeking did not advance the true consumption cursor.
    assert_eq!(buffer.next(), Some((0, '(')));
    assert_eq!(buffer.next(), None);
}

#[test]
fn repeated_peek_walks_forward() {
    let mut buffer = multipeek(vec![10, 20, 30]);
    assert_eq!(buffer.peek().copied(), Some(10));
    assert_eq!(buffer.peek().copied(), Some(20));
    assert_eq!(buffer.peek().copied(), Some(30));
    assert_eq!(buffer.peek().copied(), None);
}

#[test]
fn next_resets_peek_and_keeps_order() {
    let mut buffer = multipeek(vec![10, 20, 30]);
    assert_eq!(buffer.peek().copied(), Some(10));
    assert_eq!(buffer.peek().copied(), Some(20));
    // Consumption starts over at the front, in the original order.
    assert_eq!(buffer.next(), Some(10));
    // After a real consumption the peek cursor is back at the front.
    assert_eq!(buffer.peek().copied(), Some(20));
    assert_eq!(buffer.next(), Some(20));
    assert_eq!(buffer.next(), Some(30));
    assert_eq!(buffer.next(), None);
}

#[test]
fn peeking_does_not_change_len() {
    let mut buffer = multipeek(vec![7, 8]);
    assert_eq!(buffer.len(), 2);
    assert_eq!(buffer.peek().copied(), Some(7));
    assert_eq!(buffer.peek().copied(), Some(8));
    assert_eq!(buffer.len(), 2);
    assert_eq!(buffer.next(), Some(7));
    assert_eq!(buffer.len(), 1);
}

#[test]
fn reset_peek_discards_nothing() {
    let mut buffer = multipeek(vec![1, 2]);
    assert_eq!(buffer.peek().copied(), Some(1));
    assert_eq!(buffer.peek().copied(), Some(2));
    buffer.reset_peek();
    assert_eq!(buffer.peek().copied(), Some(1));
    assert_eq!(buffer.next(), Some(1));
    assert_eq!(buffer.next(), Some(2));
    assert_eq!(buffer.next(), None);
}
