use futures_signals_ext::{and_then_some_or, enumerate_map, position, take_if_value};
use futures_signals_ext::{replace_or_extend_keyed, KeyedPlan};
use futures_signals_ext::{Entry, Value, VecDiff};

#[test]
fn position_of_the_first_match() {
    let items = [3, 5, 8, 5];
    assert_eq!(position(&items, |v| *v == 5), Some(1));
    assert_eq!(position(&items, |v| *v > 7), Some(2));
    assert_eq!(position(&items, |v| *v == 4), None);
    let none: [i32; 0] = [];
    assert_eq!(position(&none, |_| true), None);
}

#[test]
fn entry_of_an_item_that_is_there() {
    let items = [3, 5, 8];
    let entry = Entry::find(&items, |v| *v == 8);
    assert!(entry.is_occupied());
    assert!(!entry.is_vacant());
    assert_eq!(entry.key(), Some(2));
    assert_eq!(entry.and_set(9), Some(VecDiff::UpdateAt { index: 2, value: 9 }));
    assert_eq!(entry.remove::<i32>(), Some(VecDiff::RemoveAt { index: 2 }));
    let mut entry = entry;
    assert_eq!(entry.set(1), VecDiff::UpdateAt { index: 2, value: 1 });
    assert_eq!(entry.key(), Some(2));
}

#[test]
fn entry_of_an_item_that_is_missing() {
    let items = [3, 5, 8];
    let mut entry = Entry::find(&items, |v| *v == 4);
    assert!(entry.is_vacant());
    assert!(!entry.is_occupied());
    assert_eq!(entry.key(), None);
    assert_eq!(entry.and_set(9), None);
    assert_eq!(entry.remove::<i32>(), None);
    // A write appends, and the place is then that of the new last item.
    assert_eq!(entry.set(4), VecDiff::Push { value: 4 });
    assert_eq!(entry.key(), Some(3));
    assert_eq!(entry.set(6), VecDiff::UpdateAt { index: 3, value: 6 });
}

#[test]
fn or_insert_reads_the_item_or_holds_the_new_value() {
    let items = [3, 5, 8];
    let held = Entry::find(&items, |v| *v == 5).or_insert(&items, 0);
    assert_eq!(*held.get(), 5);
    // Nothing was changed, so nothing is written.
    assert_eq!(held.finish(), None);

    let held = Entry::find(&items, |v| *v == 4).or_insert(&items, 4);
    assert_eq!(*held.get(), 4);
    assert_eq!(held.finish(), Some(VecDiff::Push { value: 4 }));
}

#[test]
fn value_reads_only_an_item_that_is_there() {
    let items = [3, 5, 8];
    let held = Entry::find(&items, |v| *v == 8).value(&items).unwrap();
    assert_eq!(*held.get(), 8);
    assert_eq!(held.finish(), None);
    assert!(Entry::find(&items, |v| *v == 4).value(&items).is_none());
}

#[test]
fn or_insert_with_and_or_default() {
    let items = [3, 5, 8];
    let held = Entry::find(&items, |v| *v == 5).or_insert_with(&items, || 9);
    assert_eq!(*held.get(), 5);
    let held = Entry::find(&items, |v| *v == 4).or_insert_with(&items, || 9);
    assert_eq!(*held.get(), 9);
    assert_eq!(held.finish(), Some(VecDiff::Push { value: 9 }));
    let held = Entry::find(&items, |v| *v == 4).or_default(&items);
    assert_eq!(*held.get(), 0);
    assert_eq!(held.finish(), Some(VecDiff::Push { value: 0 }));
    let held = Entry::find(&items, |v| *v == 3).or_default(&items);
    assert_eq!(*held.get(), 3);
}

#[test]
fn or_insert_entry_writes_in_either_case() {
    let items = [3, 5, 8];
    let (entry, write) = Entry::find(&items, |v| *v == 5).or_insert_entry(6);
    assert_eq!(write, VecDiff::UpdateAt { index: 1, value: 6 });
    assert_eq!(entry.key(), Some(1));
    let (entry, write) = Entry::find(&items, |v| *v == 4).or_insert_entry(4);
    assert_eq!(write, VecDiff::Push { value: 4 });
    assert_eq!(entry.key(), Some(3));
    assert!(entry.is_occupied());
}

#[test]
fn a_changed_value_is_written_to_its_place() {
    let items = [3, 5, 8];
    let mut held = Entry::find(&items, |v| *v == 5).or_insert(&items, 0);
    assert!(held.set(6));
    assert_eq!(*held.get(), 6);
    assert_eq!(held.finish(), Some(VecDiff::UpdateAt { index: 1, value: 6 }));
}

#[test]
fn set_neq_marks_only_a_different_value() {
    let entry = Entry::find(&[1, 2], |v| *v == 2);
    let mut held = Value::existing(entry, 2);
    assert!(!held.set_neq(2));
    assert_eq!(held.finish(), None);
    let mut held = Value::existing(entry, 2);
    assert!(held.set_neq(3));
    assert_eq!(*held.get(), 3);
    // Once due to be written, it stays so.
    assert!(held.set_neq(3));
    assert_eq!(held.finish(), Some(VecDiff::UpdateAt { index: 1, value: 3 }));
}

#[test]
fn inspect_mut_takes_the_word_of_the_function() {
    let entry = Entry::find(&[1, 2], |v| *v == 1);
    let mut held = Value::existing(entry, 1);
    assert!(held.inspect_mut(|v| {
        *v += 10;
        true
    }));
    assert_eq!(*held.get(), 11);
    // A function that reports no change withdraws the write.
    assert!(!held.inspect_mut(|v| {
        *v += 1;
        false
    }));
    assert_eq!(*held.get(), 12);
    assert_eq!(held.finish(), None);
}

#[test]
fn a_value_without_its_place_writes_nothing() {
    let entry = Entry::find(&[1, 2], |v| *v == 1);
    let mut held = Value::new(entry, 7);
    assert_eq!(held.take_entry(), Some(entry));
    assert_eq!(held.take_entry(), None);
    assert_eq!(held.finish(), None);
    let held = Value::new(entry, 7);
    assert_eq!(held.finish(), Some(VecDiff::UpdateAt { index: 0, value: 7 }));
}

#[test]
fn enumerate_map_hands_over_each_position() {
    let items = ["a", "b", "c"];
    let mapped = enumerate_map(&items, |index, item| format!("{index}{item}"));
    assert_eq!(mapped, vec!["0a", "1b", "2c"]);
    let none: [&str; 0] = [];
    assert!(enumerate_map(&none, |index, _| index).is_empty());
}

#[test]
fn take_if_value_takes_only_an_equal_value() {
    let mut current = Some(3);
    assert_eq!(take_if_value(&mut current, &4), None);
    assert_eq!(current, Some(3));
    assert_eq!(take_if_value(&mut current, &3), Some(3));
    assert_eq!(current, None);
    assert_eq!(take_if_value(&mut current, &3), None);
    assert_eq!(current, None);
}

#[test]
fn and_then_some_or_falls_back_on_the_default() {
    let mut positive = |v: &i32| if *v > 0 { Some(v.to_string()) } else { None };
    let default = "none".to_string();
    assert_eq!(and_then_some_or(&Some(5), &mut positive, &default), "5");
    assert_eq!(and_then_some_or(&Some(-5), &mut positive, &default), "none");
    assert_eq!(and_then_some_or(&None, &mut positive, &default), "none");
}

#[test]
fn keyed_items_take_the_place_of_the_first_with_their_key() {
    let plan = replace_or_extend_keyed(&["a", "b", "c"], &["c", "a"]);
    assert_eq!(
        plan,
        KeyedPlan { replaced: vec![Some(1), None, Some(0)], appended: vec![] }
    );
    assert!(!plan.extends());
}

#[test]
fn keyed_items_without_a_match_are_appended_in_order() {
    let plan = replace_or_extend_keyed(&[1, 2], &[5, 2, 4]);
    assert_eq!(plan, KeyedPlan { replaced: vec![None, Some(1)], appended: vec![0, 2] });
    assert!(plan.extends());
}

#[test]
fn of_new_items_with_equal_keys_only_the_last_counts() {
    let plan = replace_or_extend_keyed(&[1], &[1, 7, 1, 7]);
    assert_eq!(plan, KeyedPlan { replaced: vec![Some(2)], appended: vec![3] });
}

#[test]
fn only_the_first_item_with_a_key_is_replaced() {
    let plan = replace_or_extend_keyed(&[3, 1, 3], &[3]);
    assert_eq!(plan, KeyedPlan { replaced: vec![Some(0), None, None], appended: vec![] });
}

#[test]
fn keyed_plan_of_nothing() {
    let none: [u8; 0] = [];
    let plan = replace_or_extend_keyed(&none, &none);
    assert_eq!(plan, KeyedPlan { replaced: vec![], appended: vec![] });
    let plan = replace_or_extend_keyed(&[1u8, 2], &none);
    assert_eq!(plan, KeyedPlan { replaced: vec![None, None], appended: vec![] });
    let plan = replace_or_extend_keyed(&none, &[1u8, 2]);
    assert_eq!(plan, KeyedPlan { replaced: vec![], appended: vec![0, 1] });
}
