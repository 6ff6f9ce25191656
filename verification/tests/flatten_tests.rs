use futures_signals_ext::{Batch, Flatten, OuterDiff, PendingBuilder, Polled, VecDiff};

fn apply(list: &mut Vec<i32>, diff: &VecDiff<i32>) {
    match diff {
        VecDiff::Replace { values } => *list = values.clone(),
        VecDiff::InsertAt { index, value } => list.insert(*index, *value),
        VecDiff::UpdateAt { index, value } => list[*index] = *value,
        VecDiff::RemoveAt { index } => {
            list.remove(*index);
        }
        VecDiff::Move { old_index, new_index } => {
            let value = list.remove(*old_index);
            list.insert(*new_index, value);
        }
        VecDiff::Push { value } => list.push(*value),
        VecDiff::Pop {} => {
            list.pop().unwrap();
        }
        VecDiff::Clear {} => list.clear(),
    }
}

fn initial(values: Vec<i32>) -> Batch<i32> {
    Batch { diffs: vec![VecDiff::Replace { values }], exhausted: false }
}

fn nothing() -> Batch<i32> {
    Batch { diffs: vec![], exhausted: false }
}

/// Outer = [A = [1, 2], B = [3]], with the sources named 'a' and 'b'.
fn two_children() -> (Flatten<char, i32>, Vec<i32>) {
    let mut flatten = Flatten::new();
    let mut pending = PendingBuilder::new();
    let replace = OuterDiff::Replace {
        children: vec![('a', initial(vec![1, 2])), ('b', initial(vec![3]))],
    };
    assert!(replace.is_valid_on(flatten.len()));
    let reset = flatten.poll_outer(replace, &mut pending).unwrap();
    let mut shown = vec![];
    apply(&mut shown, &reset);
    (flatten, shown)
}

fn drain(flatten: &mut Flatten<char, i32>, shown: &mut Vec<i32>) -> Vec<VecDiff<i32>> {
    let mut seen = vec![];
    while let Some(diff) = flatten.pop_pending() {
        apply(shown, &diff);
        seen.push(diff);
    }
    seen
}

fn finish(
    flatten: &mut Flatten<char, i32>,
    pending: PendingBuilder<VecDiff<i32>>,
    shown: &mut Vec<i32>,
) -> Vec<VecDiff<i32>> {
    let mut seen = vec![];
    match flatten.finish(pending, false, false) {
        Polled::Ready(Some(diff)) => {
            apply(shown, &diff);
            seen.push(diff);
        }
        Polled::Ready(None) => panic!("not finished"),
        Polled::Pending => return seen,
    }
    seen.extend(drain(flatten, shown));
    seen
}

#[test]
fn first_poll_gives_the_concatenation() {
    let mut flatten: Flatten<char, i32> = Flatten::new();
    let mut pending = PendingBuilder::new();
    let replace = OuterDiff::Replace {
        children: vec![('a', initial(vec![1, 2])), ('b', initial(vec![3]))],
    };
    let reset = flatten.poll_outer(replace, &mut pending);
    assert_eq!(reset, Some(VecDiff::Replace { values: vec![1, 2, 3] }));
    assert_eq!(flatten.len(), 2);
    assert_eq!(flatten.flat_len(), 3);
    assert!(pending.is_empty());
    assert!(!flatten.has_pending());
}

#[test]
fn inner_push_becomes_an_insert_at_the_end_of_the_block() {
    let (mut flatten, mut shown) = two_children();
    assert_eq!(shown, vec![1, 2, 3]);
    let mut pending = PendingBuilder::new();
    let polled = vec![
        Batch { diffs: vec![VecDiff::Push { value: 9 }], exhausted: false },
        nothing(),
    ];
    assert!(flatten.accepts_inner(&polled));
    let done = flatten.poll_inner(polled, &mut pending);
    assert!(!done);
    let seen = finish(&mut flatten, pending, &mut shown);
    assert_eq!(seen, vec![VecDiff::InsertAt { index: 2, value: 9 }]);
    assert_eq!(shown, vec![1, 2, 9, 3]);
    assert_eq!(flatten.flat_len(), 4);
}

#[test]
fn outer_remove_takes_the_block_away_last_first() {
    let (mut flatten, mut shown) = two_children();
    let mut pending = PendingBuilder::new();
    let diff: OuterDiff<char, i32> = OuterDiff::RemoveAt { index: 0 };
    assert!(diff.is_valid_on(flatten.len()));
    assert_eq!(flatten.poll_outer(diff, &mut pending), None);
    let seen = finish(&mut flatten, pending, &mut shown);
    assert_eq!(
        seen,
        vec![VecDiff::RemoveAt { index: 1 }, VecDiff::RemoveAt { index: 0 }]
    );
    assert_eq!(shown, vec![3]);
    assert_eq!(flatten.len(), 1);
}

#[test]
fn outer_move_towards_back() {
    let (mut flatten, mut shown) = two_children();
    let mut pending = PendingBuilder::new();
    let diff: OuterDiff<char, i32> = OuterDiff::Move { old_index: 0, new_index: 1 };
    assert_eq!(flatten.poll_outer(diff, &mut pending), None);
    let seen = finish(&mut flatten, pending, &mut shown);
    assert_eq!(
        seen,
        vec![
            VecDiff::Move { old_index: 0, new_index: 2 },
            VecDiff::Move { old_index: 0, new_index: 2 },
        ]
    );
    assert_eq!(shown, vec![3, 1, 2]);
}

#[test]
fn outer_move_towards_front() {
    let (mut flatten, mut shown) = two_children();
    let mut pending = PendingBuilder::new();
    let diff: OuterDiff<char, i32> = OuterDiff::Move { old_index: 1, new_index: 0 };
    assert_eq!(flatten.poll_outer(diff, &mut pending), None);
    let seen = finish(&mut flatten, pending, &mut shown);
    assert_eq!(seen, vec![VecDiff::Move { old_index: 2, new_index: 0 }]);
    assert_eq!(shown, vec![3, 1, 2]);
}

#[test]
fn outer_move_of_a_long_block_towards_front() {
    let mut flatten: Flatten<char, i32> = Flatten::new();
    let mut pending = PendingBuilder::new();
    let replace = OuterDiff::Replace {
        children: vec![
            ('a', initial(vec![1])),
            ('b', initial(vec![2, 3])),
            ('c', initial(vec![4, 5, 6])),
        ],
    };
    let mut shown = vec![];
    apply(&mut shown, &flatten.poll_outer(replace, &mut pending).unwrap());
    let mut pending = PendingBuilder::new();
    let diff: OuterDiff<char, i32> = OuterDiff::Move { old_index: 2, new_index: 1 };
    assert_eq!(flatten.poll_outer(diff, &mut pending), None);
    let seen = finish(&mut flatten, pending, &mut shown);
    assert_eq!(seen, vec![VecDiff::Move { old_index: 5, new_index: 1 }; 3]);
    assert_eq!(shown, vec![1, 4, 5, 6, 2, 3]);
}

#[test]
fn outer_move_over_blocks_of_other_lengths() {
    let mut flatten: Flatten<char, i32> = Flatten::new();
    let mut pending = PendingBuilder::new();
    let replace = OuterDiff::Replace {
        children: vec![
            ('a', initial(vec![1, 2])),
            ('b', initial(vec![3])),
            ('c', initial(vec![4, 5, 6])),
            ('d', initial(vec![7])),
        ],
    };
    let mut shown = vec![];
    apply(&mut shown, &flatten.poll_outer(replace, &mut pending).unwrap());
    let mut pending = PendingBuilder::new();
    let diff: OuterDiff<char, i32> = OuterDiff::Move { old_index: 0, new_index: 2 };
    assert_eq!(flatten.poll_outer(diff, &mut pending), None);
    let seen = finish(&mut flatten, pending, &mut shown);
    assert_eq!(seen, vec![VecDiff::Move { old_index: 0, new_index: 5 }; 2]);
    assert_eq!(shown, vec![3, 4, 5, 6, 1, 2, 7]);
}

#[test]
fn outer_move_to_the_same_place_queues_nothing() {
    let (mut flatten, mut shown) = two_children();
    let mut pending = PendingBuilder::new();
    let diff: OuterDiff<char, i32> = OuterDiff::Move { old_index: 1, new_index: 1 };
    assert_eq!(flatten.poll_outer(diff, &mut pending), None);
    assert!(pending.is_empty());
    let seen = finish(&mut flatten, pending, &mut shown);
    assert!(seen.is_empty());
    assert_eq!(shown, vec![1, 2, 3]);
}

#[test]
fn outer_clear_is_one_clear() {
    let (mut flatten, mut shown) = two_children();
    let mut pending = PendingBuilder::new();
    let diff: OuterDiff<char, i32> = OuterDiff::Clear {};
    let reset = flatten.poll_outer(diff, &mut pending);
    assert_eq!(reset, Some(VecDiff::Clear {}));
    apply(&mut shown, &reset.unwrap());
    assert!(shown.is_empty());
    assert_eq!(flatten.len(), 0);
    assert_eq!(flatten.flat_len(), 0);

    let mut empty: Flatten<char, i32> = Flatten::new();
    let mut pending = PendingBuilder::new();
    assert_eq!(
        empty.poll_outer(OuterDiff::Clear {}, &mut pending),
        Some(VecDiff::Clear {})
    );
}

#[test]
fn children_outlive_the_outer_sequence() {
    let (mut flatten, mut shown) = two_children();

    // The outer sequence has come to its end; 'a' still changes.
    let mut pending = PendingBuilder::new();
    let polled = vec![
        Batch { diffs: vec![VecDiff::Pop {}], exhausted: false },
        Batch { diffs: vec![], exhausted: true },
    ];
    let inner_done = flatten.poll_inner(polled, &mut pending);
    assert!(!inner_done);
    let answer = flatten.finish(pending, inner_done, true);
    assert_eq!(answer, Polled::Ready(Some(VecDiff::RemoveAt { index: 1 })));
    apply(&mut shown, &VecDiff::RemoveAt { index: 1 });
    assert_eq!(shown, vec![1, 3]);

    // Nothing is ready, and 'a' has not come to its end.
    let pending = PendingBuilder::new();
    assert_eq!(flatten.pop_pending(), None);
    let polled = vec![nothing(), Batch { diffs: vec![], exhausted: true }];
    let mut builder = pending;
    let inner_done = flatten.poll_inner(polled, &mut builder);
    assert!(!inner_done);
    assert_eq!(flatten.finish(builder, inner_done, true), Polled::Pending);

    // 'a' gives one more change and comes to its end with it.
    let mut pending = PendingBuilder::new();
    let polled = vec![
        Batch { diffs: vec![VecDiff::Push { value: 7 }], exhausted: true },
        Batch { diffs: vec![], exhausted: true },
    ];
    let inner_done = flatten.poll_inner(polled, &mut pending);
    assert!(inner_done);
    let answer = flatten.finish(pending, inner_done, true);
    assert_eq!(answer, Polled::Ready(Some(VecDiff::InsertAt { index: 1, value: 7 })));
    apply(&mut shown, &VecDiff::InsertAt { index: 1, value: 7 });
    assert_eq!(shown, vec![1, 7, 3]);

    // Only now is the flattened sequence at its end.
    let mut pending = PendingBuilder::new();
    let polled = vec![
        Batch { diffs: vec![], exhausted: true },
        Batch { diffs: vec![], exhausted: true },
    ];
    let inner_done = flatten.poll_inner(polled, &mut pending);
    assert!(inner_done);
    assert_eq!(flatten.finish(pending, inner_done, true), Polled::Ready(None));
}

#[test]
fn each_count_is_the_length_of_the_block() {
    let (mut flatten, mut shown) = two_children();
    assert_eq!((flatten.child_len(0), flatten.child_len(1)), (2, 1));
    let mut pending = PendingBuilder::new();
    flatten.poll_outer(OuterDiff::InsertAt { index: 0, child: 'c' }, &mut pending);
    let polled = vec![
        initial(vec![7, 8, 9]),
        Batch {
            diffs: vec![VecDiff::RemoveAt { index: 0 }, VecDiff::Push { value: 4 }],
            exhausted: false,
        },
        Batch { diffs: vec![VecDiff::Pop {}], exhausted: false },
    ];
    flatten.poll_inner(polled, &mut pending);
    finish(&mut flatten, pending, &mut shown);
    assert_eq!(shown, vec![7, 8, 9, 2, 4]);
    assert_eq!(
        (flatten.child_len(0), flatten.child_len(1), flatten.child_len(2)),
        (3, 2, 0)
    );
    assert_eq!(flatten.flat_len(), shown.len());
}

#[test]
fn finish_waits_while_the_outer_sequence_lives() {
    let (mut flatten, _) = two_children();
    let pending = PendingBuilder::new();
    assert_eq!(flatten.finish(pending, true, false), Polled::Pending);
    let pending = PendingBuilder::new();
    assert_eq!(flatten.finish(pending, false, true), Polled::Pending);
    let pending = PendingBuilder::new();
    assert_eq!(flatten.finish(pending, true, true), Polled::Ready(None));
}

#[test]
fn outer_insert_contributes_nothing_until_polled() {
    let (mut flatten, mut shown) = two_children();
    let mut pending = PendingBuilder::new();
    let diff: OuterDiff<char, i32> = OuterDiff::InsertAt { index: 1, child: 'c' };
    assert!(diff.is_valid_on(flatten.len()));
    assert_eq!(flatten.poll_outer(diff, &mut pending), None);
    assert!(pending.is_empty());
    assert_eq!(flatten.len(), 3);
    assert_eq!(flatten.signal_mut(1), Some(&mut 'c'));
    assert_eq!(flatten.signal_mut(2), Some(&mut 'b'));

    // The new inner sequence is polled in the same round.
    let polled = vec![nothing(), initial(vec![5, 6]), nothing()];
    assert!(flatten.accepts_inner(&polled));
    flatten.poll_inner(polled, &mut pending);
    let seen = finish(&mut flatten, pending, &mut shown);
    assert_eq!(
        seen,
        vec![
            VecDiff::InsertAt { index: 2, value: 5 },
            VecDiff::InsertAt { index: 3, value: 6 },
        ]
    );
    assert_eq!(shown, vec![1, 2, 5, 6, 3]);
}

#[test]
fn outer_push_appends_an_empty_child() {
    let (mut flatten, mut shown) = two_children();
    let mut pending = PendingBuilder::new();
    assert_eq!(
        flatten.poll_outer(OuterDiff::Push { child: 'c' }, &mut pending),
        None
    );
    assert!(pending.is_empty());
    assert_eq!(flatten.len(), 3);
    assert_eq!(flatten.signal_mut(2), Some(&mut 'c'));
    let polled = vec![nothing(), nothing(), initial(vec![8])];
    flatten.poll_inner(polled, &mut pending);
    let seen = finish(&mut flatten, pending, &mut shown);
    assert_eq!(seen, vec![VecDiff::InsertAt { index: 3, value: 8 }]);
    assert_eq!(shown, vec![1, 2, 3, 8]);
}

#[test]
fn outer_update_removes_the_old_items_and_installs_an_empty_child() {
    let (mut flatten, mut shown) = two_children();
    let mut pending = PendingBuilder::new();
    assert_eq!(
        flatten.poll_outer(OuterDiff::UpdateAt { index: 0, child: 'c' }, &mut pending),
        None
    );
    let seen = finish(&mut flatten, pending, &mut shown);
    assert_eq!(
        seen,
        vec![VecDiff::RemoveAt { index: 1 }, VecDiff::RemoveAt { index: 0 }]
    );
    assert_eq!(shown, vec![3]);
    assert_eq!(flatten.len(), 2);
    assert_eq!(flatten.flat_len(), 1);
    assert_eq!(flatten.signal_mut(0), Some(&mut 'c'));
}

#[test]
fn outer_pop_pops_each_item_of_the_last_child() {
    let mut flatten: Flatten<char, i32> = Flatten::new();
    let mut pending = PendingBuilder::new();
    let replace = OuterDiff::Replace {
        children: vec![('a', initial(vec![1])), ('b', initial(vec![2, 3]))],
    };
    let mut shown = vec![];
    apply(&mut shown, &flatten.poll_outer(replace, &mut pending).unwrap());
    let mut pending = PendingBuilder::new();
    let pop: OuterDiff<char, i32> = OuterDiff::Pop {};
    assert!(pop.is_valid_on(flatten.len()));
    assert_eq!(flatten.poll_outer(pop, &mut pending), None);
    let seen = finish(&mut flatten, pending, &mut shown);
    assert_eq!(seen, vec![VecDiff::Pop {}, VecDiff::Pop {}]);
    assert_eq!(shown, vec![1]);
    assert_eq!(flatten.len(), 1);
}

#[test]
fn several_outer_changes_in_one_round_keep_the_consumer_in_step() {
    let (mut flatten, mut shown) = two_children();
    let mut pending = PendingBuilder::new();
    flatten.poll_outer(OuterDiff::Push { child: 'c' }, &mut pending);
    flatten.poll_outer(OuterDiff::Move { old_index: 0, new_index: 2 }, &mut pending);
    flatten.poll_outer(OuterDiff::RemoveAt { index: 0 }, &mut pending);
    // Now the outer sequence is [c, a], and c is polled for the first time.
    let polled = vec![
        initial(vec![10, 11]),
        Batch {
            diffs: vec![
                VecDiff::UpdateAt { index: 0, value: -1 },
                VecDiff::Move { old_index: 0, new_index: 1 },
            ],
            exhausted: false,
        },
    ];
    assert!(flatten.accepts_inner(&polled));
    flatten.poll_inner(polled, &mut pending);
    let seen = finish(&mut flatten, pending, &mut shown);
    assert_eq!(
        seen,
        vec![
            VecDiff::Move { old_index: 0, new_index: 2 },
            VecDiff::Move { old_index: 0, new_index: 2 },
            VecDiff::RemoveAt { index: 0 },
            VecDiff::InsertAt { index: 0, value: 10 },
            VecDiff::InsertAt { index: 1, value: 11 },
            VecDiff::UpdateAt { index: 2, value: -1 },
            VecDiff::Move { old_index: 2, new_index: 3 },
        ]
    );
    assert_eq!(shown, vec![10, 11, 2, -1]);
    assert_eq!(flatten.flat_len(), 4);
}

#[test]
fn replace_discards_what_the_round_had_queued() {
    let (mut flatten, mut shown) = two_children();
    let mut pending = PendingBuilder::new();
    flatten.poll_outer(OuterDiff::RemoveAt { index: 0 }, &mut pending);
    assert!(!pending.is_empty());
    let replace = OuterDiff::Replace {
        children: vec![('x', initial(vec![7, 8])), ('y', Batch { diffs: vec![], exhausted: true })],
    };
    let reset = flatten.poll_outer(replace, &mut pending).unwrap();
    assert_eq!(reset, VecDiff::Replace { values: vec![7, 8] });
    apply(&mut shown, &reset);
    assert_eq!(shown, vec![7, 8]);
    assert_eq!(flatten.len(), 2);
    assert!(!flatten.has_pending());
    assert_eq!(flatten.signal_mut(0), Some(&mut 'x'));
    assert_eq!(flatten.signal_mut(1), None);
}

#[test]
fn a_replacement_leaves_the_same_list_whatever_was_held() {
    let (mut flatten, shown) = two_children();
    let mut pending = PendingBuilder::new();
    let replace = OuterDiff::Replace {
        children: vec![('x', initial(vec![4])), ('y', initial(vec![5, 6]))],
    };
    let reset = flatten.poll_outer(replace, &mut pending).unwrap();
    let mut in_step = shown;
    let mut behind = vec![9, 9, 9, 9, 9];
    let mut empty = vec![];
    apply(&mut in_step, &reset);
    apply(&mut behind, &reset);
    apply(&mut empty, &reset);
    assert_eq!(in_step, vec![4, 5, 6]);
    assert_eq!(behind, in_step);
    assert_eq!(empty, in_step);
    apply(&mut in_step, &reset);
    assert_eq!(in_step, vec![4, 5, 6]);
}

#[test]
fn replace_takes_in_every_change_that_was_ready() {
    let mut flatten: Flatten<char, i32> = Flatten::new();
    let mut pending = PendingBuilder::new();
    let replace = OuterDiff::Replace {
        children: vec![
            (
                'a',
                Batch {
                    diffs: vec![
                        VecDiff::Replace { values: vec![1, 2, 3] },
                        VecDiff::RemoveAt { index: 1 },
                        VecDiff::Push { value: 4 },
                        VecDiff::Move { old_index: 0, new_index: 2 },
                    ],
                    exhausted: false,
                },
            ),
            ('b', nothing()),
            ('c', initial(vec![9])),
        ],
    };
    assert!(replace.is_valid_on(0));
    let reset = flatten.poll_outer(replace, &mut pending);
    assert_eq!(reset, Some(VecDiff::Replace { values: vec![3, 4, 1, 9] }));
    assert_eq!(flatten.flat_len(), 4);
}

#[test]
fn invalid_changes_are_told_apart() {
    let (flatten, _) = two_children();
    let count = flatten.len();
    let bad: Vec<OuterDiff<char, i32>> = vec![
        OuterDiff::InsertAt { index: 3, child: 'c' },
        OuterDiff::UpdateAt { index: 2, child: 'c' },
        OuterDiff::RemoveAt { index: 2 },
        OuterDiff::Move { old_index: 2, new_index: 0 },
        OuterDiff::Move { old_index: 0, new_index: 2 },
        OuterDiff::Replace {
            children: vec![('c', Batch { diffs: vec![VecDiff::Pop {}], exhausted: false })],
        },
    ];
    for diff in &bad {
        assert!(!diff.is_valid_on(count));
    }
    assert!(!OuterDiff::<char, i32>::Pop {}.is_valid_on(0));
    assert!(OuterDiff::<char, i32>::InsertAt { index: 2, child: 'c' }.is_valid_on(count));

    // One batch for each inner sequence, each valid at its turn.
    assert!(!flatten.accepts_inner(&vec![nothing()]));
    assert!(!flatten.accepts_inner(&vec![
        nothing(),
        Batch { diffs: vec![VecDiff::RemoveAt { index: 1 }], exhausted: false },
    ]));
    assert!(flatten.accepts_inner(&vec![
        nothing(),
        Batch { diffs: vec![VecDiff::RemoveAt { index: 0 }], exhausted: false },
    ]));
}

#[test]
fn pop_pending_hands_out_in_order() {
    let (mut flatten, mut shown) = two_children();
    let mut pending = PendingBuilder::new();
    let polled = vec![
        Batch { diffs: vec![VecDiff::Clear {}], exhausted: false },
        Batch { diffs: vec![VecDiff::InsertAt { index: 0, value: 0 }], exhausted: false },
    ];
    flatten.poll_inner(polled, &mut pending);
    let first = flatten.finish(pending, false, false);
    assert_eq!(first, Polled::Ready(Some(VecDiff::RemoveAt { index: 1 })));
    assert!(flatten.has_pending());
    apply(&mut shown, &VecDiff::RemoveAt { index: 1 });
    assert_eq!(flatten.pop_pending(), Some(VecDiff::RemoveAt { index: 0 }));
    apply(&mut shown, &VecDiff::RemoveAt { index: 0 });
    assert_eq!(flatten.pop_pending(), Some(VecDiff::InsertAt { index: 0, value: 0 }));
    apply(&mut shown, &VecDiff::InsertAt { index: 0, value: 0 });
    assert_eq!(flatten.pop_pending(), None);
    assert!(!flatten.has_pending());
    assert_eq!(shown, vec![0, 3]);
}
