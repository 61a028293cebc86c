use kindle_dashboard::platform::{
    CoverOutcome, EventLoop, LoopAction, LoopEvent, LoopFailure, LoopStage, POLL_ERRORS, POLLIN,
    PollOutcome, SuspendStep, WakeSchedule, duration_to_ms, hex_events, input_died_message,
    poll_timeout, suspend_if_idle,
};

const MS: u128 = 1_000_000;

#[test]
fn poll_events_are_those_of_the_c_library() {
    assert_eq!(POLLIN, libc::POLLIN);
    assert_eq!(POLL_ERRORS, libc::POLLERR | libc::POLLHUP | libc::POLLNVAL);
}

#[test]
fn waits_are_never_zero() {
    assert_eq!(duration_to_ms(0), 1);
    assert_eq!(duration_to_ms(MS - 1), 1);
    assert_eq!(duration_to_ms(2 * MS + 999_999), 2);
    assert_eq!(duration_to_ms(2_147_483_647 * MS), i32::MAX);
    assert_eq!(duration_to_ms(u128::MAX), i32::MAX);
    assert_eq!(poll_timeout(false, None), -1);
    assert_eq!(poll_timeout(false, Some(0)), 1);
    assert_eq!(poll_timeout(false, Some(500 * MS)), 500);
    assert_eq!(poll_timeout(true, None), 33);
    assert_eq!(poll_timeout(true, Some(500 * MS)), 33);
    assert_eq!(poll_timeout(true, Some(5 * MS)), 5);
}

#[test]
fn an_idle_device_suspends_in_order() {
    let schedule = Some(WakeSchedule { stay_awake: 10, wake_interval: 77 });
    assert_eq!(
        suspend_if_idle(&schedule, true, false, true, 10),
        Some(vec![
            SuspendStep::WaitForUpdate,
            SuspendStep::ArmWakealarm(77),
            SuspendStep::SuspendToMemory,
            SuspendStep::RestartIdleTime,
            SuspendStep::NotifyWake,
        ])
    );
}

#[test]
fn a_device_stays_awake_while_it_is_needed() {
    let schedule = Some(WakeSchedule { stay_awake: 10, wake_interval: 77 });
    assert_eq!(suspend_if_idle(&None, true, false, true, 10), None);
    assert_eq!(suspend_if_idle(&schedule, false, false, true, 10), None);
    assert_eq!(suspend_if_idle(&schedule, true, true, true, 10), None);
    assert_eq!(suspend_if_idle(&schedule, true, false, false, 10), None);
    assert_eq!(suspend_if_idle(&schedule, true, false, true, 9), None);
}

fn ready(touch: i16, wakeup: i16, cover: i16) -> LoopEvent {
    LoopEvent::Polled(PollOutcome::Ready { touch, wakeup, cover })
}

fn polling(cover: bool) -> EventLoop {
    let (mut state, action) = EventLoop::start(cover);
    assert_eq!(action, LoopAction::CheckSuspend);
    assert_eq!(state.step(&LoopEvent::SuspendChecked(false)), LoopAction::AskTimers);
    assert_eq!(state.step(&LoopEvent::Timers(false, None)), LoopAction::Poll(-1));
    state
}

#[test]
fn a_round_does_its_work_in_order() {
    let mut state = polling(true);
    assert_eq!(state.step(&ready(POLLIN, POLLIN, POLLIN)), LoopAction::DrainPipe);
    assert_eq!(state.step(&LoopEvent::PipeDrained), LoopAction::RunQueue);
    assert_eq!(state.step(&LoopEvent::QueueRun), LoopAction::CheckQuit);
    assert_eq!(state.step(&LoopEvent::QuitChecked(false)), LoopAction::ReadCover);
    assert_eq!(
        state.step(&LoopEvent::CoverRead(CoverOutcome::Changed(true))),
        LoopAction::ReportCover(true)
    );
    assert_eq!(state.step(&LoopEvent::CoverReported), LoopAction::Draw(true));
    assert_eq!(state.step(&LoopEvent::Drawn(true)), LoopAction::FullRefresh);
    assert_eq!(state.step(&LoopEvent::Refreshed), LoopAction::CheckSuspend);
    assert!(state.cover);
}

#[test]
fn a_cover_that_moved_cleans_the_panel_once() {
    for requested in [false, true] {
        let mut state = polling(true);
        state.step(&ready(0, 0, POLLIN));
        state.step(&LoopEvent::QuitChecked(false));
        state.step(&LoopEvent::CoverRead(CoverOutcome::Changed(false)));
        assert!(state.cleaning);
        assert_eq!(state.step(&LoopEvent::CoverReported), LoopAction::Draw(false));
        assert_eq!(state.step(&LoopEvent::Drawn(requested)), LoopAction::FullRefresh);
        assert!(!state.cleaning);
        state.step(&LoopEvent::Refreshed);
        state.step(&LoopEvent::SuspendChecked(false));
        state.step(&LoopEvent::Timers(false, None));
        state.step(&ready(0, 0, 0));
        state.step(&LoopEvent::QuitChecked(false));
        assert_eq!(state.step(&LoopEvent::Drawn(false)), LoopAction::CheckSuspend);
    }
}

#[test]
fn a_quiet_round_only_draws() {
    let mut state = polling(true);
    assert_eq!(state.step(&ready(0, 0, 0)), LoopAction::CheckQuit);
    assert_eq!(state.step(&LoopEvent::QuitChecked(false)), LoopAction::Draw(false));
    assert_eq!(state.step(&LoopEvent::Drawn(false)), LoopAction::CheckSuspend);
}

#[test]
fn a_suspend_cycle_and_a_signal_restart_the_round() {
    let (mut state, _) = EventLoop::start(false);
    assert_eq!(state.step(&LoopEvent::SuspendChecked(true)), LoopAction::CheckSuspend);
    let mut state = polling(false);
    assert_eq!(
        state.step(&LoopEvent::Polled(PollOutcome::Interrupted)),
        LoopAction::CheckSuspend
    );
}

#[test]
fn quitting_comes_before_the_cover_and_drawing() {
    let mut state = polling(true);
    state.step(&ready(0, POLLIN, POLLIN));
    state.step(&LoopEvent::PipeDrained);
    state.step(&LoopEvent::QueueRun);
    assert_eq!(state.step(&LoopEvent::QuitChecked(true)), LoopAction::Stop);
    assert_eq!(state.stage, LoopStage::Over);
}

#[test]
fn dead_inputs_end_the_loop() {
    let mut state = polling(false);
    assert_eq!(
        state.step(&LoopEvent::Polled(PollOutcome::Failed)),
        LoopAction::Fail(LoopFailure::PollFailed)
    );
    let mut state = polling(false);
    assert_eq!(
        state.step(&ready(POLLIN, 0x10, 0)),
        LoopAction::Fail(LoopFailure::InputDied { touch: POLLIN, wakeup: 0x10 })
    );
    assert_eq!(state.stage, LoopStage::Over);
    assert_eq!(
        input_died_message(POLLIN, 0x10),
        "poll: input fd died (touch revents=0x1, wakeup revents=0x10)"
    );
    assert_eq!(hex_events(-1), "0xffff");
    assert_eq!(hex_events(0), "0x0");
}

#[test]
fn a_lost_cover_is_not_read_again() {
    let mut state = polling(true);
    state.step(&ready(0, 0, 0x08 | POLLIN));
    assert!(!state.cover);
    assert_eq!(state.step(&LoopEvent::QuitChecked(false)), LoopAction::Draw(false));
    let mut state = polling(true);
    state.step(&ready(0, 0, POLLIN));
    state.step(&LoopEvent::QuitChecked(false));
    assert_eq!(
        state.step(&LoopEvent::CoverRead(CoverOutcome::Failed)),
        LoopAction::Draw(false)
    );
    assert!(!state.cover);
    let mut state = polling(true);
    state.step(&ready(0, 0, POLLIN));
    state.step(&LoopEvent::QuitChecked(false));
    assert_eq!(
        state.step(&LoopEvent::CoverRead(CoverOutcome::Unchanged)),
        LoopAction::Draw(false)
    );
    assert!(state.cover);
}
