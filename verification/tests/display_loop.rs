use omni_pane::pane::display_loop::{
    is_stop_key, key_wait_millis, remaining_budget, DisplayLoop, LoopAction, LoopEvent, STOP_KEY,
};

#[test]
fn budget_is_what_is_left_of_the_frame() {
    assert_eq!(remaining_budget(20, 0), 20);
    assert_eq!(remaining_budget(20, 7), 13);
    assert_eq!(remaining_budget(20, 19), 1);
}

#[test]
fn budget_is_floored_at_zero() {
    assert_eq!(remaining_budget(20, 20), 0);
    assert_eq!(remaining_budget(20, 500), 0);
    assert_eq!(remaining_budget(0, 0), 0);
}

#[test]
fn key_wait_is_at_least_one_millisecond() {
    assert_eq!(key_wait_millis(0), 1);
    assert_eq!(key_wait_millis(1), 1);
    assert_eq!(key_wait_millis(13), 13);
    assert_eq!(key_wait_millis(i32::MAX as u64), i32::MAX);
    assert_eq!(key_wait_millis(i32::MAX as u64 + 1), i32::MAX);
    assert_eq!(key_wait_millis(u64::MAX), i32::MAX);
}

#[test]
fn stop_key_is_the_letter_q() {
    assert_eq!(STOP_KEY, 'q' as i32);
    assert!(is_stop_key(113));
    assert!(!is_stop_key(-1));
    assert!(!is_stop_key('Q' as i32));
}

#[test]
fn one_iteration_of_a_running_loop() {
    let mut display = DisplayLoop::new(2);
    assert!(display.is_running());
    assert_eq!(
        display.step(LoopEvent::IterationStarted { cancelled: false, published_index: 1 }),
        LoopAction::ShowChannel { channel: 1 }
    );
    assert_eq!(
        display.step(LoopEvent::FramePresented { frame_duration: 20, elapsed: 6 }),
        LoopAction::WaitForKey { millis: 14 }
    );
    assert_eq!(display.step(LoopEvent::KeyPolled { key: -1 }), LoopAction::NextIteration);
    assert!(display.is_running());
}

#[test]
fn late_frame_still_polls_the_keyboard() {
    let mut display = DisplayLoop::new(1);
    assert_eq!(
        display.step(LoopEvent::FramePresented { frame_duration: 20, elapsed: 35 }),
        LoopAction::WaitForKey { millis: 1 }
    );
}

#[test]
fn index_out_of_range_shows_the_first_channel() {
    let mut display = DisplayLoop::new(2);
    for published_index in [2usize, 3, 200, usize::MAX] {
        assert_eq!(
            display.step(LoopEvent::IterationStarted { cancelled: false, published_index }),
            LoopAction::ShowChannel { channel: 0 }
        );
    }
}

#[test]
fn cancellation_stops_the_loop() {
    let mut display = DisplayLoop::new(2);
    assert_eq!(
        display.step(LoopEvent::IterationStarted { cancelled: true, published_index: 1 }),
        LoopAction::Shutdown
    );
    assert!(!display.is_running());
}

#[test]
fn stop_key_stops_the_loop() {
    let mut display = DisplayLoop::new(2);
    assert_eq!(display.step(LoopEvent::KeyPolled { key: 113 }), LoopAction::Shutdown);
    assert!(!display.is_running());
}

#[test]
fn stopped_loop_stays_stopped() {
    let mut display = DisplayLoop::new(2);
    display.step(LoopEvent::KeyPolled { key: 113 });
    for event in [
        LoopEvent::IterationStarted { cancelled: false, published_index: 0 },
        LoopEvent::FramePresented { frame_duration: 20, elapsed: 0 },
        LoopEvent::KeyPolled { key: -1 },
    ] {
        assert_eq!(display.step(event), LoopAction::Shutdown);
        assert!(!display.is_running());
    }
}

#[test]
fn loop_without_channels_stops_at_once() {
    let mut display = DisplayLoop::new(0);
    assert_eq!(
        display.step(LoopEvent::IterationStarted { cancelled: false, published_index: 0 }),
        LoopAction::Shutdown
    );
    assert!(!display.is_running());
}
