use std::time::Duration;

use input_replication::input::Input;
use input_replication::input_buffer::InputBuffer;
use input_replication::message::InputWindowMessage;
use input_replication::reconciler::InputReconciler;
use input_replication::sender::InputSender;
use input_replication::tick::{Tick, TickConfig, TickManager};

fn message(stamp: u16, entries: &[(u16, Option<i16>)]) -> InputWindowMessage {
    let mut msg = InputWindowMessage::new(Tick(stamp));
    for (t, v) in entries {
        msg.push_entry(Tick(*t), v.map(Input::new));
    }
    msg
}

#[test]
fn tick_manager_counts_steps() {
    let config = TickConfig::new(Duration::from_millis(10));
    let mut manager = TickManager::from_config(config);
    assert_eq!(manager.current_tick(), Tick(0));
    manager.increment_tick();
    manager.increment_tick();
    assert_eq!(manager.current_tick(), Tick(2));
    manager.set_tick_to(Tick(500));
    assert_eq!(manager.current_tick(), Tick(500));
    assert_eq!(manager.config.tick_duration, Duration::from_millis(10));
}

#[test]
fn tick_counter_wraps() {
    let config = TickConfig::new(Duration::from_millis(16));
    let mut manager = TickManager::from_config(config);
    manager.set_tick_to(Tick(65535));
    manager.increment_tick();
    assert_eq!(manager.current_tick(), Tick(0));
}

#[test]
fn tick_ordering_spans_the_wrap() {
    assert!(Tick(2).is_newer_than(Tick(65530)));
    assert!(!Tick(65530).is_newer_than(Tick(2)));
    assert_eq!(Tick(2).distance_since(Tick(65530)), 8);
    assert_eq!(Tick(1).minus(3), Tick(65534));
    assert_eq!(Tick(65535).next(), Tick(0));
}

#[test]
fn set_then_get_returns_last_value() {
    let mut buffer = InputBuffer::new(8);
    buffer.set(Tick(3), Input::new(7));
    assert_eq!(buffer.get(Tick(3)), Some(Input::new(7)));
    buffer.set(Tick(3), Input::new(9));
    assert_eq!(buffer.get(Tick(3)), Some(Input::new(9)));
    assert_eq!(buffer.get(Tick(2)), None);
}

#[test]
fn writes_survive_until_evicted() {
    let mut buffer = InputBuffer::new(4);
    buffer.set(Tick(0), Input::new(10));
    buffer.set(Tick(1), Input::new(11));
    buffer.set(Tick(3), Input::new(13));
    assert_eq!(buffer.get(Tick(0)), Some(Input::new(10)));
    buffer.set(Tick(5), Input::new(15));
    // window is now ticks 2..=5: ticks 0 and 1 are evicted
    assert_eq!(buffer.get(Tick(0)), None);
    assert_eq!(buffer.get(Tick(1)), None);
    assert_eq!(buffer.get(Tick(3)), Some(Input::new(13)));
    assert_eq!(buffer.get(Tick(5)), Some(Input::new(15)));
}

#[test]
fn stale_set_is_dropped() {
    let mut buffer = InputBuffer::new(4);
    buffer.set(Tick(10), Input::new(1));
    buffer.set(Tick(5), Input::new(5));
    assert_eq!(buffer.get(Tick(5)), None);
    assert_eq!(buffer.get(Tick(10)), Some(Input::new(1)));
}

#[test]
fn ring_works_across_the_wrap() {
    let mut buffer = InputBuffer::new(6);
    buffer.set(Tick(65534), Input::new(1));
    buffer.set(Tick(65535), Input::new(2));
    buffer.set(Tick(0), Input::new(3));
    buffer.set(Tick(1), Input::new(4));
    assert_eq!(buffer.get(Tick(65534)), Some(Input::new(1)));
    assert_eq!(buffer.get(Tick(0)), Some(Input::new(3)));
    assert!(Tick(0).is_newer_than(Tick(65534)));
    assert_eq!(buffer.latest_confirmed_contiguous_tick(), None);
}

#[test]
fn merge_extends_contiguous_confirmation() {
    // window 8, ticks 0..=5 confirmed with values 0..=5; a message carrying
    // ticks 3..=7 with values 3..=7 merges cleanly, extends contiguous
    // confirmation to tick 7, and raises no correction
    let mut buffer = InputBuffer::new(8);
    for t in 0u16..6 {
        buffer.set(Tick(t), Input::new(t as i16));
    }
    assert_eq!(buffer.latest_confirmed_contiguous_tick(), None);
    let msg = message(
        7,
        &[(3, Some(3)), (4, Some(4)), (5, Some(5)), (6, Some(6)), (7, Some(7))],
    );
    let correction = buffer.merge(&msg);
    assert_eq!(correction, None);
    assert_eq!(buffer.latest_confirmed_contiguous_tick(), Some(Tick(7)));
    for t in 0u16..8 {
        assert_eq!(buffer.get(Tick(t)), Some(Input::new(t as i16)));
    }
}

#[test]
fn merge_reports_earliest_corrected_tick() {
    let mut buffer = InputBuffer::new(8);
    buffer.set(Tick(2), Input::new(2));
    buffer.set(Tick(4), Input::new(4));
    let msg = message(6, &[(2, Some(20)), (4, Some(40)), (5, Some(50))]);
    let correction = buffer.merge(&msg);
    assert_eq!(correction, Some(Tick(2)));
    assert_eq!(buffer.get(Tick(2)), Some(Input::new(20)));
    assert_eq!(buffer.get(Tick(4)), Some(Input::new(40)));
    assert_eq!(buffer.get(Tick(5)), Some(Input::new(50)));
}

#[test]
fn merge_same_value_is_no_correction() {
    let mut buffer = InputBuffer::new(8);
    buffer.set(Tick(2), Input::new(2));
    let msg = message(3, &[(2, Some(2))]);
    assert_eq!(buffer.merge(&msg), None);
    assert_eq!(buffer.get(Tick(2)), Some(Input::new(2)));
}

#[test]
fn merge_outside_window_is_dropped() {
    // window 4, high water at tick 10; a message for tick 5 arrives:
    // dropped, no state change, no event
    let mut buffer = InputBuffer::new(4);
    buffer.set(Tick(10), Input::new(1));
    let msg = message(11, &[(5, Some(99))]);
    let correction = buffer.merge(&msg);
    assert_eq!(correction, None);
    assert_eq!(buffer.get(Tick(5)), None);
    assert_eq!(buffer.get(Tick(10)), Some(Input::new(1)));
    assert_eq!(buffer.high_water(), Some(Tick(10)));
}

#[test]
fn evicted_tick_is_not_resurrected() {
    let mut buffer = InputBuffer::new(4);
    for t in 0u16..4 {
        buffer.set(Tick(t), Input::new(t as i16));
    }
    buffer.set(Tick(10), Input::new(10));
    assert_eq!(buffer.get(Tick(1)), None);
    let late = message(12, &[(1, Some(1))]);
    assert_eq!(buffer.merge(&late), None);
    assert_eq!(buffer.get(Tick(1)), None);
}

#[test]
fn merge_order_does_not_matter() {
    let entries_a: &[(u16, Option<i16>)] = &[(1, Some(1)), (2, Some(2)), (3, Some(30))];
    let entries_b: &[(u16, Option<i16>)] = &[(3, Some(31)), (4, Some(4)), (5, None)];
    let mut first = InputBuffer::new(8);
    first.merge(&message(3, entries_a));
    first.merge(&message(5, entries_b));
    let mut second = InputBuffer::new(8);
    second.merge(&message(5, entries_b));
    second.merge(&message(3, entries_a));
    for t in 0u16..8 {
        assert_eq!(first.get(Tick(t)), second.get(Tick(t)));
    }
    // the later-sent message wins the conflicting tick in either order
    assert_eq!(first.get(Tick(3)), Some(Input::new(31)));
    assert_eq!(second.get(Tick(3)), Some(Input::new(31)));
}

#[test]
fn merge_order_does_not_matter_for_three_messages() {
    let entries_a: &[(u16, Option<i16>)] = &[(1, Some(1)), (4, Some(40))];
    let entries_b: &[(u16, Option<i16>)] = &[(4, Some(41)), (6, Some(6))];
    let entries_c: &[(u16, Option<i16>)] = &[(4, Some(42)), (9, Some(9))];
    let orders: &[[u16; 3]] = &[
        [4, 6, 9],
        [4, 9, 6],
        [6, 4, 9],
        [6, 9, 4],
        [9, 4, 6],
        [9, 6, 4],
    ];
    let build = |stamp: u16| match stamp {
        4 => message(4, entries_a),
        6 => message(6, entries_b),
        _ => message(9, entries_c),
    };
    let mut reference: Option<Vec<Option<Input>>> = None;
    for order in orders {
        let mut buffer = InputBuffer::new(12);
        for stamp in order {
            buffer.merge(&build(*stamp));
        }
        let state: Vec<Option<Input>> =
            (0u16..12).map(|t| buffer.get(Tick(t))).collect();
        // the message stamped latest wins the three-way conflict on tick 4
        assert_eq!(state[4], Some(Input::new(42)));
        match &reference {
            None => reference = Some(state),
            Some(expected) => assert_eq!(&state, expected),
        }
    }
}

#[test]
fn entries_without_input_are_skipped() {
    let mut buffer = InputBuffer::new(8);
    buffer.set(Tick(2), Input::new(2));
    let msg = message(5, &[(2, None), (3, None)]);
    assert_eq!(buffer.merge(&msg), None);
    assert_eq!(buffer.get(Tick(2)), Some(Input::new(2)));
    assert_eq!(buffer.get(Tick(3)), None);
}

#[test]
fn sender_packages_recent_window() {
    let mut buffer = InputBuffer::new(8);
    buffer.set(Tick(8), Input::new(80));
    buffer.set(Tick(10), Input::new(100));
    let sender = InputSender::new(5);
    let msg = sender.build_message(&buffer, Tick(10));
    assert_eq!(msg.send_stamp, Tick(10));
    assert_eq!(msg.entries.len(), 5);
    let ticks: Vec<u16> = msg.entries.iter().map(|e| e.tick.0).collect();
    assert_eq!(ticks, vec![6, 7, 8, 9, 10]);
    assert_eq!(msg.entries[0].input, None);
    assert_eq!(msg.entries[2].input, Some(Input::new(80)));
    assert_eq!(msg.entries[3].input, None);
    assert_eq!(msg.entries[4].input, Some(Input::new(100)));
}

#[test]
fn fallback_repeats_last_confirmed_input() {
    let mut reconciler = InputReconciler::new(8);
    reconciler.buffer.set(Tick(5), Input::new(5));
    assert_eq!(reconciler.current_input(Tick(5)), Input::new(5));
    assert_eq!(reconciler.current_input(Tick(6)), Input::new(5));
    assert_eq!(reconciler.current_input(Tick(7)), Input::new(5));
}

#[test]
fn contradicted_fallback_raises_correction() {
    // tick 5 confirmed as 5 and consumed via fallback extension to predict
    // tick 6 as 5; a later message confirms tick 6 as 9: a correction fires
    // naming tick 6
    let mut reconciler = InputReconciler::new(8);
    reconciler.buffer.set(Tick(5), Input::new(5));
    assert_eq!(reconciler.current_input(Tick(6)), Input::new(5));
    let msg = message(6, &[(6, Some(9))]);
    let outcome = reconciler.receive_message(&msg);
    assert_eq!(outcome.corrected_from, Some(Tick(6)));
    assert_eq!(reconciler.buffer.get(Tick(6)), Some(Input::new(9)));
    assert_eq!(reconciler.current_input(Tick(6)), Input::new(9));
}

#[test]
fn matching_fallback_raises_no_correction() {
    let mut reconciler = InputReconciler::new(8);
    reconciler.buffer.set(Tick(5), Input::new(5));
    assert_eq!(reconciler.current_input(Tick(6)), Input::new(5));
    let msg = message(6, &[(6, Some(5))]);
    let outcome = reconciler.receive_message(&msg);
    assert_eq!(outcome.corrected_from, None);
    assert_eq!(outcome.latest_contiguous, None);
}

#[test]
fn repeated_message_is_idempotent() {
    let mut reconciler = InputReconciler::new(8);
    reconciler.buffer.set(Tick(5), Input::new(5));
    reconciler.current_input(Tick(6));
    let msg = message(6, &[(6, Some(9))]);
    let first = reconciler.receive_message(&msg);
    assert_eq!(first.corrected_from, Some(Tick(6)));
    let again = reconciler.receive_message(&msg);
    assert_eq!(again.corrected_from, None);
    assert_eq!(reconciler.buffer.get(Tick(6)), Some(Input::new(9)));
}

#[test]
fn silent_connection_uses_neutral_default() {
    // no input ever received: current_input returns the neutral default for
    // every tick asked about
    let mut reconciler = InputReconciler::new(16);
    for t in [0u16, 1, 7, 100, 40000, 65535] {
        assert_eq!(reconciler.current_input(Tick(t)), Input::neutral());
        assert_eq!(reconciler.current_input(Tick(t)), Input::new(0));
    }
    assert_eq!(Input::default(), Input::neutral());
}

#[test]
fn reconcile_reports_rollback_boundary() {
    let mut reconciler = InputReconciler::new(4);
    let msg = message(
        3,
        &[(0, Some(0)), (1, Some(1)), (2, Some(2)), (3, Some(3))],
    );
    let outcome = reconciler.receive_message(&msg);
    assert_eq!(outcome.corrected_from, None);
    assert_eq!(outcome.latest_contiguous, Some(Tick(3)));
    let gap = message(5, &[(5, Some(5))]);
    let outcome = reconciler.receive_message(&gap);
    // tick 4 is unconfirmed, so the safe boundary stays below the gap
    assert_eq!(outcome.latest_contiguous, Some(Tick(3)));
}

#[test]
fn merge_spans_the_wrap() {
    let mut buffer = InputBuffer::new(8);
    assert_eq!(buffer.window_len(), 8);
    assert_eq!(buffer.high_water(), None);
    buffer.set(Tick(65533), Input::new(1));
    let msg = message(
        1,
        &[(65534, Some(2)), (65535, Some(3)), (0, Some(4)), (1, Some(5))],
    );
    assert_eq!(buffer.merge(&msg), None);
    assert_eq!(buffer.high_water(), Some(Tick(1)));
    assert_eq!(buffer.get(Tick(65533)), Some(Input::new(1)));
    assert_eq!(buffer.get(Tick(65535)), Some(Input::new(3)));
    assert_eq!(buffer.get(Tick(0)), Some(Input::new(4)));
    assert_eq!(buffer.get(Tick(1)), Some(Input::new(5)));
    // the window now spans the wrap: ticks up to 8 back from tick 1 retained
    assert!(!buffer.is_stale(Tick(65530)));
    assert!(buffer.is_stale(Tick(65529)));
}

#[test]
fn round_trip_from_sender_to_reconciler() {
    let mut local = InputBuffer::new(16);
    for t in 0u16..10 {
        local.set(Tick(t), Input::new((t * 2) as i16));
    }
    let sender = InputSender::new(8);
    let msg = sender.build_message(&local, Tick(9));
    let mut remote = InputReconciler::new(16);
    let outcome = remote.receive_message(&msg);
    assert_eq!(outcome.corrected_from, None);
    for t in 2u16..10 {
        assert_eq!(remote.buffer.get(Tick(t)), Some(Input::new((t * 2) as i16)));
    }
    assert_eq!(remote.buffer.get(Tick(1)), None);
}
