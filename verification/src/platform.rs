//! The event loop of the device: waiting, suspending, and the order of the work in a round.

use vstd::prelude::*;

use crate::text;
use crate::text::{hexadecimal, join2, join3};

verus! {

// ---------------------------------------------------------------------------
// Waiting
// ---------------------------------------------------------------------------

/// Animations are redrawn at most this often, in nanoseconds: e-ink cannot keep up with more.
pub const ANIMATION_FRAME_NANOS: u128 = 33_000_000;

/// The milliseconds of a wait, which is never zero: a wait of zero would spin.
pub open spec fn wait_ms(nanos: nat) -> int {
    let ms = (nanos / 1_000_000) as int;
    if ms < 1 {
        1
    } else if ms > i32::MAX {
        i32::MAX as int
    } else {
        ms
    }
}

/// The milliseconds of a wait of so many nanoseconds.
pub fn duration_to_ms(nanos: u128) -> (r: i32)
    ensures
        r == wait_ms(nanos as nat),
        1 <= r,
{
    let ms: u128 = nanos / 1_000_000;
    if ms < 1 {
        1
    } else if ms > 2147483647 {
        2147483647
    } else {
        ms as i32
    }
}

/// How long to wait for input: until the next timer or the next frame of an animation, or for
/// ever, which is written as minus one.
pub open spec fn timeout_ms(animating: bool, next_timer: Option<nat>) -> int {
    match (animating, next_timer) {
        (true, Some(nanos)) => wait_ms(
            if nanos < ANIMATION_FRAME_NANOS {
                nanos
            } else {
                ANIMATION_FRAME_NANOS as nat
            },
        ),
        (true, None) => wait_ms(ANIMATION_FRAME_NANOS as nat),
        (false, Some(nanos)) => wait_ms(nanos),
        (false, None) => -1,
    }
}

/// The number of nanoseconds until the next timer, if one runs.
pub open spec fn nanos_in(timer: Option<u128>) -> Option<nat> {
    match timer {
        Some(nanos) => Some(nanos as nat),
        None => None,
    }
}

/// How long to wait for input, in milliseconds; minus one is for ever.
pub fn poll_timeout(animating: bool, next_timer: Option<u128>) -> (r: i32)
    ensures
        r == timeout_ms(animating, nanos_in(next_timer)),
{
    match (animating, next_timer) {
        (true, Some(nanos)) => duration_to_ms(
            if nanos < ANIMATION_FRAME_NANOS {
                nanos
            } else {
                ANIMATION_FRAME_NANOS
            },
        ),
        (true, None) => duration_to_ms(ANIMATION_FRAME_NANOS),
        (false, Some(nanos)) => duration_to_ms(nanos),
        (false, None) => -1,
    }
}

/// The wait is never zero. It is without end only when nothing is due, and an animation is not
/// kept waiting for longer than a frame.
pub proof fn waits_are_sound(animating: bool, next_timer: Option<nat>)
    ensures
        timeout_ms(animating, next_timer) != 0,
        timeout_ms(animating, next_timer) == -1 <==> !animating && next_timer is None,
        animating ==> 1 <= timeout_ms(animating, next_timer) <= 33,
        next_timer matches Some(nanos) ==> timeout_ms(animating, next_timer) <= wait_ms(nanos),
{
}

// ---------------------------------------------------------------------------
// Suspending
// ---------------------------------------------------------------------------

/// When an idle device suspends, and for how long, in nanoseconds.
#[derive(Clone, Copy, Debug, PartialEq, Eq)]
pub struct WakeSchedule {
    pub stay_awake: u128,
    pub wake_interval: u128,
}

/// A step of a suspend cycle. A step that fails does not keep the others from being taken.
#[derive(Clone, Copy, Debug, PartialEq, Eq)]
pub enum SuspendStep {
    /// The panel finishes its last update.
    WaitForUpdate,
    /// The clock is told to wake the device after so many nanoseconds.
    ArmWakealarm(u128),
    /// The device sleeps until it is woken.
    SuspendToMemory,
    /// The time without interaction starts anew.
    RestartIdleTime,
    /// The application hears that the device woke up.
    NotifyWake,
}

/// The device is due to be suspended: there is a schedule and a clock to wake it, it was idle for
/// long enough, and no animation and no queued work is pending.
pub open spec fn suspend_due(
    schedule: Option<WakeSchedule>,
    has_wakealarm: bool,
    animating: bool,
    queue_is_empty: bool,
    idle: u128,
) -> bool {
    &&& schedule is Some
    &&& has_wakealarm
    &&& !animating
    &&& queue_is_empty
    &&& idle >= schedule->0.stay_awake
}

/// The steps of a suspend cycle.
pub open spec fn suspend_steps(schedule: WakeSchedule) -> Seq<SuspendStep> {
    seq![
        SuspendStep::WaitForUpdate,
        SuspendStep::ArmWakealarm(schedule.wake_interval),
        SuspendStep::SuspendToMemory,
        SuspendStep::RestartIdleTime,
        SuspendStep::NotifyWake,
    ]
}

/// The steps of a suspend cycle, if the device is due to be suspended.
pub fn suspend_if_idle(
    schedule: &Option<WakeSchedule>,
    has_wakealarm: bool,
    animating: bool,
    queue_is_empty: bool,
    idle: u128,
) -> (r: Option<Vec<SuspendStep>>)
    ensures
        r is Some <==> suspend_due(*schedule, has_wakealarm, animating, queue_is_empty, idle),
        r matches Some(steps) ==> steps@ == suspend_steps(schedule->0),
{
    let schedule: &WakeSchedule = match schedule {
        Some(schedule) => schedule,
        None => {
            return None;
        },
    };
    if !has_wakealarm {
        return None;
    }
    let nothing_pending = !animating && queue_is_empty;
    if idle < schedule.stay_awake || !nothing_pending {
        return None;
    }
    let mut steps: Vec<SuspendStep> = Vec::new();
    steps.push(SuspendStep::WaitForUpdate);
    steps.push(SuspendStep::ArmWakealarm(schedule.wake_interval));
    steps.push(SuspendStep::SuspendToMemory);
    steps.push(SuspendStep::RestartIdleTime);
    steps.push(SuspendStep::NotifyWake);
    assert(steps@ =~= suspend_steps(*schedule));
    Some(steps)
}

/// A device is not suspended before it was idle for as long as its schedule keeps it awake. As a
/// suspend cycle starts the idle time anew, this holds of a device that just woke up too.
pub proof fn no_suspend_before_its_time(
    schedule: WakeSchedule,
    has_wakealarm: bool,
    animating: bool,
    queue_is_empty: bool,
    idle: u128,
)
    requires
        idle < schedule.stay_awake,
    ensures
        !suspend_due(Some(schedule), has_wakealarm, animating, queue_is_empty, idle),
{
}

// ---------------------------------------------------------------------------
// The rounds of the event loop
// ---------------------------------------------------------------------------

/// There is something to read.
pub const POLLIN: i16 = 0x001;

/// The descriptor failed, was hung up or is not open.
pub const POLL_ERRORS: i16 = 0x038;

/// A descriptor with these events can be read.
pub open spec fn readable(revents: i16) -> bool {
    revents & POLLIN != 0
}

/// A descriptor with these events is dead.
pub open spec fn dead(revents: i16) -> bool {
    revents & POLL_ERRORS != 0
}

/// What the event loop waits for.
#[derive(Clone, Copy, Debug, PartialEq, Eq, Structural)]
pub enum LoopStage {
    Suspending,
    Timing,
    Polling,
    DrainingPipe,
    RunningQueue,
    CheckingQuit,
    ReadingCover,
    ReportingCover,
    Drawing,
    Refreshing,
    Over,
}

/// The event loop, between two pieces of work.
#[derive(Clone, Copy, Debug, PartialEq, Eq, Structural)]
pub struct EventLoop {
    pub stage: LoopStage,
    /// There is a cover that is followed.
    pub cover: bool,
    /// The touch screen had something to read in this round.
    pub touched: bool,
    /// The cover had something to read in this round.
    pub cover_readable: bool,
    /// The cover closed or opened in this round: a cleaning refresh follows the drawing.
    pub cleaning: bool,
}

/// What came of a wait for input.
#[derive(Clone, Copy, Debug, PartialEq, Eq, Structural)]
pub enum PollOutcome {
    /// The wait was interrupted by a signal.
    Interrupted,
    /// The wait failed.
    Failed,
    /// The events of the touch screen, of the wakeup pipe and of the cover.
    Ready { touch: i16, wakeup: i16, cover: i16 },
}

/// What came of reading the cover.
#[derive(Clone, Copy, Debug, PartialEq, Eq, Structural)]
pub enum CoverOutcome {
    Changed(bool),
    Unchanged,
    Failed,
}

/// What came of the last piece of work.
#[derive(Clone, Copy, Debug, PartialEq, Eq, Structural)]
pub enum LoopEvent {
    /// A suspend cycle was run, or none was due.
    SuspendChecked(bool),
    /// Whether an animation runs, and the nanoseconds until the next timer.
    Timers(bool, Option<u128>),
    Polled(PollOutcome),
    PipeDrained,
    QueueRun,
    /// Whether the application wants to quit.
    QuitChecked(bool),
    CoverRead(CoverOutcome),
    CoverReported,
    /// A frame was drawn, if one was needed; whether a cleaning refresh was asked for.
    Drawn(bool),
    Refreshed,
}

/// Why the event loop gave up.
#[derive(Clone, Copy, Debug, PartialEq, Eq, Structural)]
pub enum LoopFailure {
    PollFailed,
    InputDied { touch: i16, wakeup: i16 },
}

/// The next piece of work.
#[derive(Clone, Copy, Debug, PartialEq, Eq, Structural)]
pub enum LoopAction {
    /// Suspend the device if it is due.
    CheckSuspend,
    /// Look at the animations and the timers.
    AskTimers,
    /// Wait for input for so many milliseconds.
    Poll(i32),
    /// Empty the wakeup pipe.
    DrainPipe,
    /// Run the queued closures.
    RunQueue,
    /// Look whether the application wants to quit.
    CheckQuit,
    /// Read the events of the cover.
    ReadCover,
    /// Tell the application that the cover closed or opened, and have the window drawn.
    ReportCover(bool),
    /// Restart the idle time after a touch, feed the touch screen, run the timers, draw.
    Draw(bool),
    /// Refresh the whole panel and wait for it.
    FullRefresh,
    /// The application quit.
    Stop,
    Fail(LoopFailure),
}

impl EventLoop {
    /// A cleaning refresh is due only between a change of the cover and the drawing of its round.
    pub open spec fn well_formed(self) -> bool {
        self.cleaning ==> self.stage == LoopStage::ReportingCover || self.stage
            == LoopStage::Drawing
    }

    /// The loop waits for such an event.
    pub open spec fn expects(self, event: LoopEvent) -> bool {
        match event {
            LoopEvent::SuspendChecked(_) => self.stage == LoopStage::Suspending,
            LoopEvent::Timers(_, _) => self.stage == LoopStage::Timing,
            LoopEvent::Polled(_) => self.stage == LoopStage::Polling,
            LoopEvent::PipeDrained => self.stage == LoopStage::DrainingPipe,
            LoopEvent::QueueRun => self.stage == LoopStage::RunningQueue,
            LoopEvent::QuitChecked(_) => self.stage == LoopStage::CheckingQuit,
            LoopEvent::CoverRead(_) => self.stage == LoopStage::ReadingCover,
            LoopEvent::CoverReported => self.stage == LoopStage::ReportingCover,
            LoopEvent::Drawn(_) => self.stage == LoopStage::Drawing,
            LoopEvent::Refreshed => self.stage == LoopStage::Refreshing,
        }
    }

    /// The loop in another stage.
    pub open spec fn at(self, stage: LoopStage) -> EventLoop {
        EventLoop { stage, ..self }
    }

    /// The loop at the start of a round.
    pub open spec fn new_round(self) -> (EventLoop, LoopAction) {
        (self.at(LoopStage::Suspending), LoopAction::CheckSuspend)
    }

    /// The loop about to draw.
    pub open spec fn about_to_draw(self) -> (EventLoop, LoopAction) {
        (self.at(LoopStage::Drawing), LoopAction::Draw(self.touched))
    }

    /// The loop after a wait for input.
    pub open spec fn polled(self, outcome: PollOutcome) -> (EventLoop, LoopAction) {
        match outcome {
            PollOutcome::Interrupted => self.new_round(),
            PollOutcome::Failed => (
                self.at(LoopStage::Over),
                LoopAction::Fail(LoopFailure::PollFailed),
            ),
            PollOutcome::Ready { touch, wakeup, cover } => if dead(touch | wakeup) {
                (
                    self.at(LoopStage::Over),
                    LoopAction::Fail(LoopFailure::InputDied { touch, wakeup }),
                )
            } else {
                let seen = EventLoop {
                    stage: self.stage,
                    cover: self.cover && !dead(cover),
                    touched: readable(touch),
                    cover_readable: readable(cover),
                    cleaning: self.cleaning,
                };
                if readable(wakeup) {
                    (seen.at(LoopStage::DrainingPipe), LoopAction::DrainPipe)
                } else {
                    (seen.at(LoopStage::CheckingQuit), LoopAction::CheckQuit)
                }
            },
        }
    }

    /// The loop after an event, and the next piece of work.
    pub open spec fn next(self, event: LoopEvent) -> (EventLoop, LoopAction) {
        match event {
            LoopEvent::SuspendChecked(suspended) => if suspended {
                self.new_round()
            } else {
                (self.at(LoopStage::Timing), LoopAction::AskTimers)
            },
            LoopEvent::Timers(animating, next_timer) => (
                self.at(LoopStage::Polling),
                LoopAction::Poll(timeout_ms(animating, nanos_in(next_timer)) as i32),
            ),
            LoopEvent::Polled(outcome) => self.polled(outcome),
            LoopEvent::PipeDrained => (self.at(LoopStage::RunningQueue), LoopAction::RunQueue),
            LoopEvent::QueueRun => (self.at(LoopStage::CheckingQuit), LoopAction::CheckQuit),
            LoopEvent::QuitChecked(quit) => if quit {
                (self.at(LoopStage::Over), LoopAction::Stop)
            } else if self.cover_readable && self.cover {
                (self.at(LoopStage::ReadingCover), LoopAction::ReadCover)
            } else {
                self.about_to_draw()
            },
            LoopEvent::CoverRead(outcome) => match outcome {
                CoverOutcome::Changed(closed) => (
                    (EventLoop { cleaning: true, ..self }).at(LoopStage::ReportingCover),
                    LoopAction::ReportCover(closed),
                ),
                CoverOutcome::Unchanged => self.about_to_draw(),
                CoverOutcome::Failed => (EventLoop { cover: false, ..self }).about_to_draw(),
            },
            LoopEvent::CoverReported => self.about_to_draw(),
            LoopEvent::Drawn(requested) => {
                let drawn = EventLoop { cleaning: false, ..self };
                if requested || self.cleaning {
                    (drawn.at(LoopStage::Refreshing), LoopAction::FullRefresh)
                } else {
                    drawn.new_round()
                }
            },
            LoopEvent::Refreshed => self.new_round(),
        }
    }

    /// The loop at its start, with a cover that is followed or without one.
    pub fn start(cover: bool) -> (r: (EventLoop, LoopAction))
        ensures
            r.0 == (EventLoop {
                stage: LoopStage::Suspending,
                cover,
                touched: false,
                cover_readable: false,
                cleaning: false,
            }),
            r.0.well_formed(),
            r.1 == LoopAction::CheckSuspend,
    {
        (
            EventLoop {
                stage: LoopStage::Suspending,
                cover,
                touched: false,
                cover_readable: false,
                cleaning: false,
            },
            LoopAction::CheckSuspend,
        )
    }

    /// Starts a round.
    fn start_round(&mut self) -> (r: LoopAction)
        ensures
            (*final(self), r) == old(self).new_round(),
    {
        self.stage = LoopStage::Suspending;
        LoopAction::CheckSuspend
    }

    /// Goes on to drawing.
    fn go_draw(&mut self) -> (r: LoopAction)
        ensures
            (*final(self), r) == old(self).about_to_draw(),
    {
        self.stage = LoopStage::Drawing;
        LoopAction::Draw(self.touched)
    }

    /// Takes what came of a wait for input.
    fn after_poll(&mut self, outcome: &PollOutcome) -> (r: LoopAction)
        ensures
            (*final(self), r) == old(self).polled(*outcome),
    {
        match outcome {
            PollOutcome::Interrupted => self.start_round(),
            PollOutcome::Failed => {
                self.stage = LoopStage::Over;
                LoopAction::Fail(LoopFailure::PollFailed)
            },
            PollOutcome::Ready { touch, wakeup, cover } => {
                if (*touch | *wakeup) & POLL_ERRORS != 0 {
                    self.stage = LoopStage::Over;
                    return LoopAction::Fail(
                        LoopFailure::InputDied { touch: *touch, wakeup: *wakeup },
                    );
                }
                if self.cover && *cover & POLL_ERRORS != 0 {
                    self.cover = false;
                }
                self.touched = *touch & POLLIN != 0;
                self.cover_readable = *cover & POLLIN != 0;
                if *wakeup & POLLIN != 0 {
                    self.stage = LoopStage::DrainingPipe;
                    LoopAction::DrainPipe
                } else {
                    self.stage = LoopStage::CheckingQuit;
                    LoopAction::CheckQuit
                }
            },
        }
    }

    /// Takes what came of the last piece of work and says which one is next.
    pub fn step(&mut self, event: &LoopEvent) -> (r: LoopAction)
        requires
            old(self).expects(*event),
        ensures
            (*final(self), r) == old(self).next(*event),
            old(self).well_formed() ==> final(self).well_formed(),
    {
        match event {
            LoopEvent::SuspendChecked(suspended) => {
                if *suspended {
                    return self.start_round();
                }
                self.stage = LoopStage::Timing;
                LoopAction::AskTimers
            },
            LoopEvent::Timers(animating, next_timer) => {
                self.stage = LoopStage::Polling;
                LoopAction::Poll(poll_timeout(*animating, *next_timer))
            },
            LoopEvent::Polled(outcome) => self.after_poll(outcome),
            LoopEvent::PipeDrained => {
                self.stage = LoopStage::RunningQueue;
                LoopAction::RunQueue
            },
            LoopEvent::QueueRun => {
                self.stage = LoopStage::CheckingQuit;
                LoopAction::CheckQuit
            },
            LoopEvent::QuitChecked(quit) => {
                if *quit {
                    self.stage = LoopStage::Over;
                    return LoopAction::Stop;
                }
                if self.cover_readable && self.cover {
                    self.stage = LoopStage::ReadingCover;
                    return LoopAction::ReadCover;
                }
                self.go_draw()
            },
            LoopEvent::CoverRead(outcome) => match outcome {
                CoverOutcome::Changed(closed) => {
                    self.cleaning = true;
                    self.stage = LoopStage::ReportingCover;
                    LoopAction::ReportCover(*closed)
                },
                CoverOutcome::Unchanged => self.go_draw(),
                CoverOutcome::Failed => {
                    self.cover = false;
                    self.go_draw()
                },
            },
            LoopEvent::CoverReported => self.go_draw(),
            LoopEvent::Drawn(requested) => {
                let due = *requested || self.cleaning;
                self.cleaning = false;
                if due {
                    self.stage = LoopStage::Refreshing;
                    return LoopAction::FullRefresh;
                }
                self.start_round()
            },
            LoopEvent::Refreshed => self.start_round(),
        }
    }

    /// How far the loop has come in its round.
    pub open spec fn progress(self) -> int {
        match self.stage {
            LoopStage::Suspending => 0,
            LoopStage::Timing => 1,
            LoopStage::Polling => 2,
            LoopStage::DrainingPipe => 3,
            LoopStage::RunningQueue => 4,
            LoopStage::CheckingQuit => 5,
            LoopStage::ReadingCover => 6,
            LoopStage::ReportingCover => 7,
            LoopStage::Drawing => 8,
            LoopStage::Refreshing => 9,
            LoopStage::Over => 10,
        }
    }
}

/// Every event takes the loop further in its round, or starts a round, or ends the loop. So the
/// pipe is emptied before the queue runs, that runs before the quit flag is looked at, that before
/// the cover, the cover before drawing, and drawing before a cleaning refresh.
pub proof fn rounds_keep_their_order(state: EventLoop, event: LoopEvent)
    requires
        state.expects(event),
    ensures
        state.next(event).0.progress() > state.progress() || state.next(event).1
            == LoopAction::CheckSuspend,
        state.next(event).1 == LoopAction::CheckSuspend <==> state.next(event).0.stage
            == LoopStage::Suspending,
        state.next(event).0.stage == LoopStage::Over <==> (state.next(event).1 == LoopAction::Stop
            || state.next(event).1 is Fail),
{
}

/// A loop that is over takes no event.
pub proof fn a_finished_loop_rests(state: EventLoop, event: LoopEvent)
    requires
        state.stage == LoopStage::Over,
    ensures
        !state.expects(event),
{
}

/// A cover that was lost is not followed again, and only a cover that is followed is read.
pub proof fn a_lost_cover_stays_lost(state: EventLoop, event: LoopEvent)
    requires
        state.expects(event),
    ensures
        state.next(event).0.cover ==> state.cover,
        state.next(event).1 == LoopAction::ReadCover ==> state.cover,
        event == LoopEvent::CoverRead(CoverOutcome::Failed) ==> !state.next(event).0.cover,
        event matches LoopEvent::Polled(PollOutcome::Ready { touch, wakeup, cover }) && dead(cover)
            && !dead(touch | wakeup) ==> !state.next(event).0.cover,
{
}

/// The queue runs right after the wakeup pipe was emptied, and then only, so a wakeup that comes
/// while a closure runs stays in the pipe. The pipe is emptied whenever it can be read.
pub proof fn the_pipe_is_emptied_before_the_queue_runs(state: EventLoop, event: LoopEvent)
    requires
        state.expects(event),
    ensures
        state.next(event).1 == LoopAction::RunQueue <==> event == LoopEvent::PipeDrained,
        state.next(event).1 == LoopAction::DrainPipe <==> (event matches LoopEvent::Polled(
            PollOutcome::Ready { touch, wakeup, cover },
        ) && !dead(touch | wakeup) && readable(wakeup)),
{
}

/// A cleaning refresh comes right after drawing, when it was asked for or the cover changed in the
/// round, and then only.
pub proof fn cleaning_follows_drawing(state: EventLoop, event: LoopEvent)
    requires
        state.expects(event),
    ensures
        state.next(event).1 == LoopAction::FullRefresh <==> (event matches LoopEvent::Drawn(
            requested,
        ) && (requested || state.cleaning)),
{
}

/// After the cover closed or opened, the application is told, the window is drawn, and the panel is
/// cleaned, whether or not a cleaning refresh was asked for. The round after it starts afresh.
pub proof fn a_cover_change_cleans_the_panel(state: EventLoop, closed: bool, requested: bool)
    requires
        state.stage == LoopStage::ReadingCover,
    ensures
        ({
            let (told, report) = state.next(LoopEvent::CoverRead(CoverOutcome::Changed(closed)));
            let (drawing, draw) = told.next(LoopEvent::CoverReported);
            let (cleaned, clean) = drawing.next(LoopEvent::Drawn(requested));
            &&& report == LoopAction::ReportCover(closed)
            &&& told.expects(LoopEvent::CoverReported)
            &&& draw == LoopAction::Draw(state.touched)
            &&& drawing.expects(LoopEvent::Drawn(requested))
            &&& clean == LoopAction::FullRefresh
            &&& cleaned.expects(LoopEvent::Refreshed)
            &&& !cleaned.cleaning
        }),
{
}

/// No wait is one of no time at all: its timeout is minus one or positive.
pub proof fn the_loop_never_spins(state: EventLoop, event: LoopEvent)
    requires
        state.expects(event),
    ensures
        state.next(event).1 matches LoopAction::Poll(ms) ==> ms == -1 || ms >= 1,
{
}

/// The unsigned number with the same 16 bits.
pub open spec fn event_bits(revents: i16) -> nat {
    if revents >= 0 {
        revents as nat
    } else {
        (revents + 0x1_0000) as nat
    }
}

/// Poll events in hexadecimal notation, with the prefix `0x`.
pub fn hex_events(revents: i16) -> (r: String)
    ensures
        r@ == "0x"@ + text::hex_digits(event_bits(revents)),
{
    let bits: u16 = revents as u16;
    assert(revents >= 0 ==> bits == revents) by (bit_vector)
        requires
            bits == revents as u16,
    ;
    assert(revents < 0 ==> bits == revents + 0x1_0000) by (bit_vector)
        requires
            bits == revents as u16,
    ;
    join2("0x", &hexadecimal(bits as u64))
}

/// The message for descriptors that died.
pub fn input_died_message(touch: i16, wakeup: i16) -> (r: String)
    ensures
        r@ == "poll: input fd died (touch revents="@ + ("0x"@ + text::hex_digits(
            event_bits(touch),
        )) + ", wakeup revents="@ + ("0x"@ + text::hex_digits(event_bits(wakeup))) + ")"@,
{
    let head = join3(
        "poll: input fd died (touch revents=",
        &hex_events(touch),
        ", wakeup revents=",
    );
    join3(&head, &hex_events(wakeup), ")")
}

/// The duty to suspend grows with the idle time and with nothing else: with a schedule, a clock to
/// wake the device and nothing pending it is there from `stay_awake` on for good, and without one
/// of them never.
pub proof fn idling_longer_does_not_keep_a_device_awake(
    schedule: WakeSchedule,
    idle: u128,
    longer: u128,
)
    requires
        schedule.stay_awake <= idle <= longer,
    ensures
        suspend_due(Some(schedule), true, false, true, idle),
        suspend_due(Some(schedule), true, false, true, longer),
        forall|has_wakealarm: bool, animating: bool, queue_is_empty: bool|
            #[trigger] suspend_due(Some(schedule), has_wakealarm, animating, queue_is_empty, idle)
                <==> has_wakealarm && !animating && queue_is_empty,
        forall|has_wakealarm: bool, animating: bool, queue_is_empty: bool|
            !#[trigger] suspend_due(None, has_wakealarm, animating, queue_is_empty, idle),
{
}

/// A suspend cycle lets the panel finish, arms the clock with the interval of the schedule, sleeps,
/// starts the idle time anew and tells the application, each once and in this order.
pub proof fn a_suspend_cycle_has_five_steps(schedule: WakeSchedule)
    ensures
        suspend_steps(schedule).len() == 5,
        suspend_steps(schedule)[0] == SuspendStep::WaitForUpdate,
        suspend_steps(schedule)[1] == SuspendStep::ArmWakealarm(schedule.wake_interval),
        suspend_steps(schedule)[2] == SuspendStep::SuspendToMemory,
        suspend_steps(schedule)[3] == SuspendStep::RestartIdleTime,
        suspend_steps(schedule)[4] == SuspendStep::NotifyWake,
{
}

/// A wait takes the whole milliseconds that fit the time, but at least one, and no more than can be
/// told to the system.
pub proof fn waits_round_down(nanos: nat)
    ensures
        nanos < 2_000_000 ==> wait_ms(nanos) == 1,
        1_000_000 <= nanos < 2_147_483_648_000_000 ==> wait_ms(nanos) * 1_000_000 <= nanos < (
        wait_ms(nanos) + 1) * 1_000_000,
        2_147_483_647_000_000 <= nanos ==> wait_ms(nanos) == 2_147_483_647,
{
}

/// With an animation the wait is the shorter one of a frame and the time to the next timer; without
/// one only the timer counts.
pub proof fn the_next_thing_due_ends_the_wait(nanos: nat)
    ensures
        timeout_ms(false, None) == -1,
        timeout_ms(true, None) == 33,
        timeout_ms(false, Some(nanos)) == wait_ms(nanos),
        timeout_ms(true, Some(nanos)) == if wait_ms(nanos) < 33 {
            wait_ms(nanos)
        } else {
            33
        },
        nanos_in(None) is None,
        forall|timer: u128| #[trigger] nanos_in(Some(timer)) == Some(timer as nat),
{
}

/// What a round sees of the touch screen decides what it draws, and nothing else does: once the
/// wait brought events and neither the touch screen nor the pipe is dead, the drawing of the round
/// is told that the screen was touched if and only if the screen can be read, whatever the pipe and
/// the cover brought. The cover is read on the way if and only if it is followed, alive and can be
/// read.
pub proof fn a_touch_reaches_the_drawing_of_its_round(
    state: EventLoop,
    touch: i16,
    wakeup: i16,
    cover: i16,
    outcome: CoverOutcome,
)
    requires
        state.stage == LoopStage::Polling,
        (touch | wakeup) & 0x38 == 0,
    ensures
        ({
            let polled = state.next(LoopEvent::Polled(PollOutcome::Ready { touch, wakeup, cover }));
            let ran = if wakeup & 1 != 0 {
                polled.0.next(LoopEvent::PipeDrained).0.next(LoopEvent::QueueRun)
            } else {
                polled
            };
            let stayed = ran.0.next(LoopEvent::QuitChecked(false));
            let read = stayed.0.next(LoopEvent::CoverRead(outcome));
            &&& polled.1 == if wakeup & 1 != 0 {
                LoopAction::DrainPipe
            } else {
                LoopAction::CheckQuit
            }
            &&& ran.1 == LoopAction::CheckQuit
            &&& ran.0.next(LoopEvent::QuitChecked(true)).1 == LoopAction::Stop
            &&& if state.cover && cover & 0x38 == 0 && cover & 1 != 0 {
                &&& stayed.1 == LoopAction::ReadCover
                &&& outcome matches CoverOutcome::Changed(closed) ==> {
                    &&& read.1 == LoopAction::ReportCover(closed)
                    &&& read.0.next(LoopEvent::CoverReported).1 == LoopAction::Draw(touch & 1 != 0)
                }
                &&& !(outcome is Changed) ==> read.1 == LoopAction::Draw(touch & 1 != 0)
            } else {
                stayed.1 == LoopAction::Draw(touch & 1 != 0)
            }
        }),
{
}

/// The loop gives up on a wait that failed and on a touch screen or a pipe that died, and on
/// nothing else. It tells the events of the two.
pub proof fn only_a_failed_wait_or_a_dead_input_ends_the_loop(state: EventLoop, event: LoopEvent)
    requires
        state.expects(event),
    ensures
        state.next(event).1 == LoopAction::Fail(LoopFailure::PollFailed) <==> event
            == LoopEvent::Polled(PollOutcome::Failed),
        forall|touch: i16, wakeup: i16| #[trigger]
            state.next(event).1 == (LoopAction::Fail(LoopFailure::InputDied { touch, wakeup }))
                <==> (exists|cover: i16|
                event == LoopEvent::Polled(PollOutcome::Ready { touch, wakeup, cover })) && (touch
                | wakeup) & 0x38 != 0,
        state.next(event).1 == LoopAction::Stop <==> event == LoopEvent::QuitChecked(true),
{
}

/// Each piece of work has its cause.
pub proof fn each_piece_of_work_has_its_cause(state: EventLoop, event: LoopEvent)
    requires
        state.expects(event),
    ensures
        state.next(event).1 == LoopAction::AskTimers <==> event == LoopEvent::SuspendChecked(false),
        state.next(event).1 is Poll <==> event is Timers,
        event matches LoopEvent::Timers(animating, timer) ==> state.next(event).1
            == LoopAction::Poll(timeout_ms(animating, nanos_in(timer)) as i32),
        state.next(event).1 is ReportCover <==> (event matches LoopEvent::CoverRead(outcome)
            && outcome is Changed),
        state.next(event).1 == LoopAction::CheckSuspend <==> {
            ||| event == LoopEvent::SuspendChecked(true)
            ||| event == LoopEvent::Polled(PollOutcome::Interrupted)
            ||| event == LoopEvent::Drawn(false) && !state.cleaning
            ||| event == LoopEvent::Refreshed
        },
{
}

/// The bits of poll events are the same number as the events, but for the sign.
pub proof fn event_bits_keep_the_events(revents: i16)
    ensures
        0 <= event_bits(revents) < 65536,
        event_bits(revents) == revents || event_bits(revents) == revents + 65536,
{
}

/// A cover is followed until it cannot be read or dies, and not beyond. A cleaning refresh is due
/// from a change of the cover until the window was drawn.
pub proof fn a_cover_is_followed_until_it_fails(state: EventLoop, event: LoopEvent)
    requires
        state.expects(event),
    ensures
        state.next(event).0.cover <==> {
            &&& state.cover
            &&& event != LoopEvent::CoverRead(CoverOutcome::Failed)
            &&& !(event matches LoopEvent::Polled(PollOutcome::Ready { touch, wakeup, cover }) && (
            touch | wakeup) & 0x38 == 0 && cover & 0x38 != 0)
        },
        state.next(event).0.cleaning <==> {
            ||| event matches LoopEvent::CoverRead(outcome) && outcome is Changed
            ||| state.cleaning && !(event is Drawn)
        },
{
}

} // verus!
