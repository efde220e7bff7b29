use folo::wake_signal::{
    waker_clone_waker, waker_drop_waker, waker_wake, waker_wake_by_ref, HandleRequest, WakeSignal,
};

#[test]
fn smoke_test() {
    let mut signal = WakeSignal::new();

    let _waker = signal.waker();

    // The first handle can only be used by the owner, so the signal still counts as inert.
    assert!(signal.is_inert());

    waker_clone_waker(&mut signal);

    // A second handle may be anywhere and may be used at any time.
    assert!(!signal.is_inert());

    assert_eq!(signal.waker_count(), 2);

    assert!(!signal.consume_awakened());

    waker_wake_by_ref(&mut signal);
    assert!(signal.consume_awakened());

    assert!(!signal.is_inert());

    // Once the clone is dropped only the signal's own handle remains.
    waker_drop_waker(&mut signal);

    assert_eq!(signal.waker_count(), 1);
    assert!(signal.is_inert());
}

#[test]
fn fresh_signal_is_inert_and_not_awakened() {
    let mut signal = WakeSignal::new();
    assert_eq!(signal.waker_count(), 0);
    assert!(signal.is_inert());
    assert!(!signal.consume_awakened());
}

#[test]
fn handle_is_created_once_and_reused_after() {
    let mut signal = WakeSignal::new();
    assert_eq!(signal.waker(), HandleRequest::Created);
    assert_eq!(signal.waker_count(), 1);
    assert_eq!(signal.waker(), HandleRequest::Reused);
    assert_eq!(signal.waker(), HandleRequest::Reused);
    assert_eq!(signal.waker_count(), 1);
    assert!(signal.is_inert());
}

#[test]
fn many_wakes_by_ref_collapse_to_one() {
    let mut signal = WakeSignal::new();
    signal.waker();
    for _ in 0..5 {
        waker_wake_by_ref(&mut signal);
    }
    assert_eq!(signal.waker_count(), 1);
    assert!(signal.consume_awakened());
    assert!(!signal.consume_awakened());
    assert!(!signal.consume_awakened());
    waker_wake_by_ref(&mut signal);
    assert!(signal.consume_awakened());
    assert!(!signal.consume_awakened());
}

#[test]
fn wake_before_consume_is_not_lost() {
    let mut signal = WakeSignal::new();
    signal.waker();
    waker_clone_waker(&mut signal);
    waker_clone_waker(&mut signal);
    waker_wake(&mut signal);
    waker_clone_waker(&mut signal);
    waker_drop_waker(&mut signal);
    waker_wake_by_ref(&mut signal);
    assert!(signal.consume_awakened());
    assert!(!signal.consume_awakened());
}

#[test]
fn wake_by_value_uses_its_handle_up() {
    let mut signal = WakeSignal::new();
    signal.waker();
    waker_clone_waker(&mut signal);
    assert_eq!(signal.waker_count(), 2);
    waker_wake(&mut signal);
    assert_eq!(signal.waker_count(), 1);
    assert!(signal.is_inert());
    assert!(signal.consume_awakened());
}

#[test]
fn drop_leaves_the_flag_alone() {
    let mut signal = WakeSignal::new();
    signal.waker();
    waker_clone_waker(&mut signal);
    waker_wake_by_ref(&mut signal);
    waker_drop_waker(&mut signal);
    assert!(signal.consume_awakened());

    waker_clone_waker(&mut signal);
    waker_drop_waker(&mut signal);
    assert!(!signal.consume_awakened());
}

#[test]
fn inert_exactly_when_no_clone_is_live() {
    let mut signal = WakeSignal::new();
    signal.waker();
    let mut live = 0;
    let steps = [true, true, false, true, false, false, true, false];
    for clone in steps {
        if clone {
            waker_clone_waker(&mut signal);
            live += 1;
        } else {
            waker_drop_waker(&mut signal);
            live -= 1;
        }
        assert_eq!(signal.is_inert(), live == 0);
        assert_eq!(signal.waker_count(), 1 + live);
    }
}

#[test]
fn retiring_an_inert_signal_succeeds() {
    let signal = WakeSignal::new();
    assert!(signal.retire().is_ok());

    let mut signal = WakeSignal::new();
    signal.waker();
    waker_clone_waker(&mut signal);
    waker_drop_waker(&mut signal);
    assert!(signal.retire().is_ok());
}

#[test]
fn retiring_a_signal_with_a_live_handle_is_refused() {
    let mut signal = WakeSignal::new();
    signal.waker();
    waker_clone_waker(&mut signal);
    waker_wake_by_ref(&mut signal);
    match signal.retire() {
        Ok(()) => panic!("a signal with a live handle was reclaimed"),
        Err(mut kept) => {
            assert_eq!(kept.waker_count(), 2);
            assert!(!kept.is_inert());
            assert!(kept.consume_awakened());
        }
    }
}

#[test]
fn the_count_wraps_like_a_machine_counter() {
    let mut signal = WakeSignal::new();
    waker_drop_waker(&mut signal);
    assert_eq!(signal.waker_count(), usize::MAX);
    assert!(!signal.is_inert());
    waker_clone_waker(&mut signal);
    assert_eq!(signal.waker_count(), 0);
    assert!(signal.is_inert());
    waker_wake(&mut signal);
    assert_eq!(signal.waker_count(), usize::MAX);
    assert!(signal.consume_awakened());
}
