use futures_signals_ext::{Polled, Sequence, SignalExtMapBool, SignalExtMapOption};

#[test]
fn map_bool_maps_each_truth_value() {
    let mut mapped = "source".map_bool(|| 1, || 0);
    assert_eq!(mapped.poll_change(Polled::Ready(Some(true))), Polled::Ready(Some(1)));
    assert_eq!(mapped.poll_change(Polled::Ready(Some(false))), Polled::Ready(Some(0)));
    assert_eq!(mapped.poll_change(Polled::Ready(None)), Polled::Ready(None));
    assert_eq!(mapped.poll_change(Polled::Pending), Polled::Pending);
    assert_eq!(*mapped.signal_mut(), "source");
}

#[test]
fn map_bool_calls_only_the_mapper_that_is_due() {
    let mut trues = 0;
    let mut falses = 0;
    {
        let mut mapped = ().map_bool(
            || {
                trues += 1;
                'y'
            },
            || {
                falses += 1;
                'n'
            },
        );
        assert_eq!(mapped.poll_change(Polled::Ready(Some(true))), Polled::Ready(Some('y')));
        assert_eq!(mapped.poll_change(Polled::Ready(Some(true))), Polled::Ready(Some('y')));
        assert_eq!(mapped.poll_change(Polled::Ready(Some(false))), Polled::Ready(Some('n')));
        assert_eq!(mapped.poll_change(Polled::Pending), Polled::Pending);
    }
    assert_eq!((trues, falses), (2, 1));
}

#[test]
fn map_option_gives_nothing_for_false() {
    let mut mapped = ().map_option(|| 5);
    assert_eq!(mapped.poll_change(Polled::Ready(Some(true))), Polled::Ready(Some(Some(5))));
    assert_eq!(mapped.poll_change(Polled::Ready(Some(false))), Polled::Ready(Some(None)));
    assert_eq!(mapped.poll_change(Polled::Ready(None)), Polled::Ready(None));
    assert_eq!(mapped.poll_change(Polled::Pending), Polled::Pending);
}

#[test]
fn map_some_maps_a_value_that_is_there() {
    let mut mapped = SignalExtMapOption::<i32>::map_some((), |v: &i32| v + 1);
    assert_eq!(mapped.poll_change(Polled::Ready(Some(Some(1)))), Polled::Ready(Some(Some(2))));
    assert_eq!(mapped.poll_change(Polled::Ready(Some(None))), Polled::Ready(Some(None)));
    assert_eq!(mapped.poll_change(Polled::Ready(None)), Polled::Ready(None));
    assert_eq!(mapped.poll_change(Polled::Pending), Polled::Pending);
}

#[test]
fn map_some_default_gives_the_default_for_a_missing_value() {
    let mut mapped = SignalExtMapOption::<i32>::map_some_default((), |v: &i32| v * 2);
    assert_eq!(mapped.poll_change(Polled::Ready(Some(Some(4)))), Polled::Ready(Some(8)));
    assert_eq!(mapped.poll_change(Polled::Ready(Some(None))), Polled::Ready(Some(0)));
    assert_eq!(mapped.poll_change(Polled::Ready(None)), Polled::Ready(None));
    assert_eq!(mapped.poll_change(Polled::Pending), Polled::Pending);
}

#[test]
fn and_then_some_flattens_the_mapped_option() {
    let mut mapped = SignalExtMapOption::<i32>::and_then_some((), |v: &i32| {
        if *v > 0 {
            Some(*v)
        } else {
            None
        }
    });
    assert_eq!(mapped.poll_change(Polled::Ready(Some(Some(3)))), Polled::Ready(Some(Some(3))));
    assert_eq!(mapped.poll_change(Polled::Ready(Some(Some(-3)))), Polled::Ready(Some(None)));
    assert_eq!(mapped.poll_change(Polled::Ready(Some(None))), Polled::Ready(Some(None)));
    assert_eq!(mapped.poll_change(Polled::Ready(None)), Polled::Ready(None));
    assert_eq!(mapped.poll_change(Polled::Pending), Polled::Pending);
}

#[test]
fn unwrap_or_default_gives_the_default_for_a_missing_value() {
    let mut mapped = SignalExtMapOption::<String>::unwrap_or_default(());
    assert_eq!(
        mapped.poll_change(Polled::Ready(Some(Some("a".to_string())))),
        Polled::Ready(Some("a".to_string()))
    );
    assert_eq!(mapped.poll_change(Polled::Ready(Some(None))), Polled::Ready(Some(String::new())));
    assert_eq!(mapped.poll_change(Polled::Ready(None)), Polled::Ready(None));
    assert_eq!(mapped.poll_change(Polled::Pending), Polled::Pending);
}

#[test]
fn sequence_counts_the_changes() {
    let mut counter = Sequence::new("source");
    assert_eq!(counter.count(), 0);
    assert_eq!(counter.poll_change(0, false), Polled::Pending);
    assert_eq!(counter.poll_change(3, false), Polled::Ready(Some(3)));
    assert_eq!(counter.poll_change(0, false), Polled::Pending);
    assert_eq!(counter.poll_change(1, true), Polled::Ready(Some(4)));
    assert_eq!(counter.poll_change(0, true), Polled::Ready(None));
    assert_eq!(counter.count(), 4);
    assert_eq!(*counter.signal_mut(), "source");
}
