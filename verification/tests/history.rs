use scenable::history::History;

#[test]
fn test() {
    let mut history = History::new(0);
    assert_eq!((&0, 0), history.peek_current());
    assert_eq!(None, history.peek_prev());
    assert_eq!(None, history.peek_next());
    assert_eq!(1, history.len());

    assert_eq!(None, history.undo());

    assert_eq!(1, history.push(5));
    assert_eq!((&5, 1), history.peek_current());
    assert_eq!(Some((&0, 0)), history.peek_prev());
    assert_eq!(None, history.peek_next());
    assert_eq!(2, history.len());

    assert_eq!(2, history.push(10));
    assert_eq!((&10, 2), history.peek_current());
    assert_eq!(Some((&5, 1)), history.peek_prev());
    assert_eq!(None, history.peek_next());
    assert_eq!(3, history.len());

    assert_eq!(Some((&5, 1)), history.undo());
    assert_eq!((&5, 1), history.peek_current());
    assert_eq!(Some((&0, 0)), history.peek_prev());
    assert_eq!(Some((&10, 2)), history.peek_next());
    assert_eq!(3, history.len());

    // Overwrites the previous third entry
    assert_eq!(2, history.push(7));
    assert_eq!((&7, 2), history.peek_current());
    assert_eq!(Some((&5, 1)), history.peek_prev());
    assert_eq!(None, history.peek_next());
    assert_eq!(3, history.len());

    assert_eq!(Some((&5, 1)), history.undo());
    assert_eq!((&5, 1), history.peek_current());
    assert_eq!(Some((&0, 0)), history.peek_prev());
    assert_eq!(Some((&7, 2)), history.peek_next());
    assert_eq!(3, history.len());

    assert_eq!(Some((&7, 2)), history.redo());
    assert_eq!((&7, 2), history.peek_current());
    assert_eq!(Some((&5, 1)), history.peek_prev());
    assert_eq!(None, history.peek_next());
    assert_eq!(3, history.len());

    assert_eq!(None, history.redo());
}

/// Pushing right after an undo discards the redo branch: from [A, B, C] at
/// cursor 2, undo then push(D) gives [A, B, D] at cursor 2, and C is
/// unreachable via redo.
#[test]
fn push_after_undo_truncates() {
    let mut history = History::new("A");
    assert_eq!(1, history.push("B"));
    assert_eq!(2, history.push("C"));

    assert_eq!(Some((&"B", 1)), history.undo());
    assert_eq!(2, history.push("D"));

    assert_eq!(3, history.len());
    assert_eq!((&"D", 2), history.peek_current());
    assert_eq!(Some((&"B", 1)), history.peek_prev());
    assert_eq!(None, history.peek_next());
    assert_eq!(None, history.redo());
}

/// Whenever an undo succeeds, an immediate redo restores the pre-undo
/// cursor and item.
#[test]
fn undo_then_redo_restores() {
    let mut history = History::new(0);
    for value in 1..6 {
        history.push(value * 11);
    }
    while history.position() > 0 {
        let (&before_item, before_position) = history.peek_current();
        assert!(history.undo().is_some());
        assert_eq!(Some((&before_item, before_position)), history.redo());
        assert_eq!((&before_item, before_position), history.peek_current());
        history.undo();
    }
}

/// Resetting replaces the whole stack with one item at cursor 0.
#[test]
fn reset_discards_history() {
    let mut history = History::new(1);
    history.push(2);
    history.push(3);
    history.reset(9);
    assert_eq!(1, history.len());
    assert_eq!(0, history.position());
    assert_eq!((&9, 0), history.peek_current());
    assert_eq!(None, history.peek_prev());
    assert_eq!(None, history.peek_next());
}
