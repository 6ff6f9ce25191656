use futures_signals_ext::{fill_moves, fill_removals, prefix_len, Batch, FlattenState};
use futures_signals_ext::{PendingBuilder, VecDiff};

fn child(values: Vec<i32>) -> FlattenState<u8, i32> {
    let mut state = FlattenState::new(0u8);
    state.poll_values(Batch { diffs: vec![VecDiff::Replace { values }], exhausted: false });
    state
}

fn queued(pending: PendingBuilder<VecDiff<i32>>) -> Vec<VecDiff<i32>> {
    let (first, rest) = pending.into_parts();
    let mut all = vec![];
    if let Some(diff) = first {
        all.push(diff);
    }
    all.extend(rest);
    all
}

#[test]
fn validity_of_each_kind_of_change() {
    let replace: VecDiff<i32> = VecDiff::Replace { values: vec![1] };
    assert!(replace.is_valid_on(0));
    assert!(VecDiff::InsertAt { index: 2, value: 0 }.is_valid_on(2));
    assert!(!VecDiff::InsertAt { index: 3, value: 0 }.is_valid_on(2));
    assert!(VecDiff::UpdateAt { index: 1, value: 0 }.is_valid_on(2));
    assert!(!VecDiff::UpdateAt { index: 2, value: 0 }.is_valid_on(2));
    assert!(VecDiff::<i32>::RemoveAt { index: 1 }.is_valid_on(2));
    assert!(!VecDiff::<i32>::RemoveAt { index: 2 }.is_valid_on(2));
    assert!(VecDiff::<i32>::Move { old_index: 1, new_index: 0 }.is_valid_on(2));
    assert!(!VecDiff::<i32>::Move { old_index: 2, new_index: 0 }.is_valid_on(2));
    assert!(!VecDiff::<i32>::Move { old_index: 0, new_index: 2 }.is_valid_on(2));
    assert!(VecDiff::Push { value: 0 }.is_valid_on(0));
    assert!(VecDiff::<i32>::Pop {}.is_valid_on(1));
    assert!(!VecDiff::<i32>::Pop {}.is_valid_on(0));
    assert!(VecDiff::<i32>::Clear {}.is_valid_on(0));
}

#[test]
fn pending_builder_keeps_the_order() {
    let mut pending: PendingBuilder<i32> = PendingBuilder::new();
    assert!(pending.is_empty());
    pending.push(1);
    assert!(!pending.is_empty());
    pending.push(2);
    pending.push(3);
    let (first, rest) = pending.into_parts();
    assert_eq!(first, Some(1));
    assert_eq!(rest.into_iter().collect::<Vec<_>>(), vec![2, 3]);
}

#[test]
fn pending_builder_of_one_has_nothing_behind_the_first() {
    let mut pending: PendingBuilder<i32> = PendingBuilder::new();
    pending.push(7);
    let (first, rest) = pending.into_parts();
    assert_eq!(first, Some(7));
    assert!(rest.is_empty());
    let empty: PendingBuilder<i32> = PendingBuilder::new();
    let (first, rest) = empty.into_parts();
    assert_eq!(first, None);
    assert!(rest.is_empty());
}

#[test]
fn prefix_len_sums_the_counts_before() {
    let inner = vec![child(vec![1, 2]), child(vec![]), child(vec![3, 4, 5]), child(vec![6])];
    assert_eq!(prefix_len(&inner, 0), 0);
    assert_eq!(prefix_len(&inner, 1), 2);
    assert_eq!(prefix_len(&inner, 2), 2);
    assert_eq!(prefix_len(&inner, 3), 5);
    assert_eq!(prefix_len(&inner, 4), 6);
}

#[test]
fn fill_removals_removes_the_block_last_first() {
    let inner = vec![child(vec![1, 2]), child(vec![3, 4, 5]), child(vec![6])];
    let mut pending = PendingBuilder::new();
    fill_removals(&inner, 1, &mut pending);
    assert_eq!(
        queued(pending),
        vec![
            VecDiff::RemoveAt { index: 4 },
            VecDiff::RemoveAt { index: 3 },
            VecDiff::RemoveAt { index: 2 },
        ]
    );
    let inner = vec![child(vec![1, 2]), child(vec![])];
    let mut pending = PendingBuilder::new();
    fill_removals(&inner, 1, &mut pending);
    assert!(queued(pending).is_empty());
}

#[test]
fn fill_moves_in_both_directions() {
    let inner = vec![child(vec![1, 2]), child(vec![3]), child(vec![4, 5, 6])];

    let mut pending = PendingBuilder::new();
    fill_moves(&inner, 2, 0, &mut pending);
    assert_eq!(queued(pending), vec![VecDiff::Move { old_index: 5, new_index: 0 }; 3]);

    let mut pending = PendingBuilder::new();
    fill_moves(&inner, 0, 2, &mut pending);
    assert_eq!(queued(pending), vec![VecDiff::Move { old_index: 0, new_index: 5 }; 2]);

    let mut pending = PendingBuilder::new();
    fill_moves(&inner, 0, 1, &mut pending);
    assert_eq!(queued(pending), vec![VecDiff::Move { old_index: 0, new_index: 2 }; 2]);

    let mut pending = PendingBuilder::new();
    fill_moves(&inner, 1, 2, &mut pending);
    assert_eq!(queued(pending), vec![VecDiff::Move { old_index: 2, new_index: 5 }]);
}

#[test]
fn fill_moves_of_an_empty_child_queues_nothing() {
    let inner = vec![child(vec![1, 2]), child(vec![]), child(vec![4])];
    let mut pending = PendingBuilder::new();
    fill_moves(&inner, 1, 0, &mut pending);
    fill_moves(&inner, 1, 2, &mut pending);
    assert!(queued(pending).is_empty());
}
