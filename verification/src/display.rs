//! How the panel is driven: sleeping, black and white or gray, and cleaning refreshes.

use vstd::prelude::*;

use crate::text;
use crate::text::parse_number;

verus! {

/// The number of idle seconds after which the dashboard goes to sleep, unless it is configured.
pub const DEFAULT_SLEEP_TIMEOUT_SECS: u64 = 600;

/// The configured number of seconds, if it is a positive number, else the default.
pub open spec fn sleep_seconds(value: Option<Seq<char>>) -> nat {
    match value {
        Some(v) => match text::number_up_to(v, u64::MAX as nat) {
            Some(n) => if n > 0 {
                n
            } else {
                DEFAULT_SLEEP_TIMEOUT_SECS as nat
            },
            None => DEFAULT_SLEEP_TIMEOUT_SECS as nat,
        },
        None => DEFAULT_SLEEP_TIMEOUT_SECS as nat,
    }
}

/// The number of idle seconds after which the dashboard goes to sleep.
pub fn sleep_timeout(value: &Option<String>) -> (r: u64)
    ensures
        r == sleep_seconds(text::text_in(*value)),
        r > 0,
{
    if let Some(text) = value {
        if let Some(seconds) = parse_number(text, u64::MAX) {
            if seconds > 0 {
                return seconds;
            }
        }
    }
    DEFAULT_SLEEP_TIMEOUT_SECS
}

/// How the renderer hands over what it has drawn.
#[derive(Clone, Copy, Debug, PartialEq, Eq, Structural)]
pub enum RenderBufferMode {
    /// A whole frame at a time.
    FullFrame,
    /// One line at a time.
    Scanline,
}

/// The output of the panel.
#[derive(Clone, Copy, Debug, PartialEq, Eq, Structural)]
pub struct Panel {
    /// Pixels are black or white, not gray.
    pub black_and_white: bool,
    /// A cleaning refresh was asked for.
    pub full_refresh_requested: bool,
    /// How the last frame was rendered.
    pub active_mode: RenderBufferMode,
}

impl Panel {
    /// The panel after a cleaning refresh was asked for.
    pub open spec fn asked(self) -> Panel {
        Panel { full_refresh_requested: true, ..self }
    }

    /// The panel after the request for a cleaning refresh was taken.
    pub open spec fn taken(self) -> Panel {
        Panel { full_refresh_requested: false, ..self }
    }

    /// The panel with the sleep screen.
    pub open spec fn asleep(self) -> Panel {
        Panel { black_and_white: false, full_refresh_requested: true, ..self }
    }

    /// The panel with the dashboard.
    pub open spec fn awake(self) -> Panel {
        Panel { black_and_white: true, full_refresh_requested: true, ..self }
    }

    /// A panel that shows gray.
    pub fn new(mode: RenderBufferMode) -> (r: Panel)
        ensures
            r == (Panel {
                black_and_white: false,
                full_refresh_requested: false,
                active_mode: mode,
            }),
    {
        Panel { black_and_white: false, full_refresh_requested: false, active_mode: mode }
    }

    /// Asks for a cleaning refresh.
    pub fn request_full_refresh(&mut self)
        ensures
            *final(self) == old(self).asked(),
    {
        self.full_refresh_requested = true;
    }

    /// Shows black and white, or gray.
    pub fn set_black_and_white(&mut self, enabled: bool)
        ensures
            *final(self) == (Panel { black_and_white: enabled, ..*old(self) }),
    {
        self.black_and_white = enabled;
    }

    /// The sleep screen is shown in gray, on a clean panel.
    pub fn enter_sleep(&mut self)
        ensures
            *final(self) == old(self).asleep(),
    {
        self.set_black_and_white(false);
        self.request_full_refresh();
    }

    /// The dashboard is shown in black and white, on a clean panel.
    pub fn wake_from_sleep(&mut self)
        ensures
            *final(self) == old(self).awake(),
    {
        self.set_black_and_white(true);
        self.request_full_refresh();
    }

    /// Whether a cleaning refresh was asked for; the request is done with.
    pub fn take_full_refresh(&mut self) -> (r: bool)
        ensures
            r == old(self).full_refresh_requested,
            *final(self) == old(self).taken(),
    {
        let requested = self.full_refresh_requested;
        self.full_refresh_requested = false;
        requested
    }

    /// Renders the next frame in a mode; says whether the renderer has to draw everything, as it
    /// does after a change of the mode.
    pub fn render_in(&mut self, mode: RenderBufferMode) -> (r: bool)
        ensures
            r == (mode != old(self).active_mode),
            *final(self) == (Panel { active_mode: mode, ..*old(self) }),
    {
        if mode == self.active_mode {
            return false;
        }
        self.active_mode = mode;
        true
    }
}

/// Requests for a cleaning refresh before a frame is drawn collapse into one: asking again changes
/// nothing, and once the request is taken none is left.
pub proof fn cleaning_requests_collapse(panel: Panel)
    ensures
        panel.asked().asked() == panel.asked(),
        panel.asked().full_refresh_requested,
        !panel.taken().full_refresh_requested,
        panel.asked().taken() == panel.taken(),
{
}

/// Waking up undoes what going to sleep did to the output, and both leave a clean panel.
pub proof fn waking_undoes_sleeping(panel: Panel)
    requires
        panel.black_and_white,
    ensures
        panel.asleep().awake() == panel.asked(),
        panel.asleep().full_refresh_requested && panel.awake().full_refresh_requested,
{
}

/// A positive number of seconds is taken as it is, up to the largest of 64 bits. Anything else is
/// the ten minutes of the default.
pub proof fn positive_seconds_are_taken(n: nat, value: Seq<char>)
    ensures
        0 < n <= u64::MAX ==> sleep_seconds(Some(text::decimal_digits(n))) == n,
        sleep_seconds(Some(text::decimal_digits(0))) == 600,
        n > u64::MAX ==> sleep_seconds(Some(text::decimal_digits(n))) == 600,
        text::spelled_number(value) is None ==> sleep_seconds(Some(value)) == 600,
        text::spelled_number(value) == Some(n) && 0 < n <= u64::MAX ==> sleep_seconds(Some(value))
            == n,
        sleep_seconds(None) == 600,
{
    text::decimal_round_trip(n);
    text::decimal_round_trip(0);
}

/// Asking, taking, sleeping and waking change what they are for and nothing else.
pub proof fn the_panel_changes_what_is_asked(panel: Panel)
    ensures
        panel.asked().black_and_white == panel.black_and_white,
        panel.taken().black_and_white == panel.black_and_white,
        !panel.asleep().black_and_white && panel.awake().black_and_white,
        panel.asked().full_refresh_requested && !panel.taken().full_refresh_requested,
        panel.asleep().full_refresh_requested && panel.awake().full_refresh_requested,
        panel.asked().active_mode == panel.active_mode,
        panel.taken().active_mode == panel.active_mode,
        panel.asleep().active_mode == panel.active_mode,
        panel.awake().active_mode == panel.active_mode,
{
}

} // verus!
