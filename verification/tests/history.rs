use garshot::history::{History, Snapshot};

#[test]
fn test_undo_redo() {
    let mut history = History::new();

    history.push(Snapshot::new(vec![1]));
    history.push(Snapshot::new(vec![2]));
    history.push(Snapshot::new(vec![3]));

    assert!(history.can_undo());
    assert!(!history.can_redo());

    let current = Snapshot::new(vec![4]);
    let restored = history.undo(current).unwrap();
    assert_eq!(restored.data, vec![3]);

    assert!(history.can_undo());
    assert!(history.can_redo());

    let current = Snapshot::new(vec![3]);
    let restored = history.redo(current).unwrap();
    assert_eq!(restored.data, vec![4]);
}

#[test]
fn test_new_action_clears_redo() {
    let mut history = History::new();

    history.push(Snapshot::new(vec![1]));
    history.push(Snapshot::new(vec![2]));

    let _ = history.undo(Snapshot::new(vec![3]));
    assert!(history.can_redo());

    history.push(Snapshot::new(vec![4]));
    assert!(!history.can_redo());
}

#[test]
fn history_depth_limit_drops_oldest() {
    let mut history = History::with_max_depth(2);
    history.push(Snapshot::new(vec![1]));
    history.push(Snapshot::new(vec![2]));
    history.push(Snapshot::new(vec![3]));
    assert_eq!(history.undo_count(), 2);
    let a = history.undo(Snapshot::new(vec![9])).unwrap();
    assert_eq!(a.data, vec![3]);
    let b = history.undo(Snapshot::new(vec![3])).unwrap();
    assert_eq!(b.data, vec![2]);
    assert!(history.undo(Snapshot::new(vec![2])).is_none());
}

#[test]
fn history_undo_then_redo_restores_current() {
    let mut history = History::new();
    history.push(Snapshot::new(vec![1, 1]));
    let prev = history.undo(Snapshot::new(vec![7, 7])).unwrap();
    assert_eq!(prev.data, vec![1, 1]);
    let back = history.redo(prev).unwrap();
    assert_eq!(back.data, vec![7, 7]);
    assert_eq!(history.undo_count(), 1);
    assert_eq!(history.redo_count(), 0);
}

#[test]
fn history_empty_stacks_give_nothing() {
    let mut history = History::default();
    assert!(history.undo(Snapshot::new(vec![1])).is_none());
    assert!(history.redo(Snapshot::new(vec![1])).is_none());
    history.push(Snapshot::new(vec![5]));
    history.clear();
    assert!(!history.can_undo());
    assert!(!history.can_redo());
}

#[test]
fn history_counts_stay_within_depth() {
    let mut h = History::with_max_depth(2);
    for i in 0..5u8 {
        h.push(Snapshot::new(vec![i]));
        assert!(h.undo_count() + h.redo_count() <= 2);
    }
    let _ = h.undo(Snapshot::new(vec![9]));
    assert!(h.undo_count() + h.redo_count() <= 2);
    let _ = h.undo(Snapshot::new(vec![8]));
    assert_eq!((h.undo_count(), h.redo_count()), (0, 2));
    let _ = h.redo(Snapshot::new(vec![7]));
    assert_eq!((h.undo_count(), h.redo_count()), (1, 1));
    assert_eq!(h.can_undo(), h.undo_count() > 0);
    assert_eq!(h.can_redo(), h.redo_count() > 0);
    h.clear();
    assert_eq!((h.undo_count(), h.redo_count()), (0, 0));
}
