//! The magnetic cover: finding its input device, and following its switch.

use vstd::prelude::*;

use crate::framebuffer;
use crate::text;
use crate::text::{decimal, join2};

verus! {

/// The type of an event of a switch.
pub const EVENT_SWITCH: u16 = 5;

/// The code of the lid switch.
pub const SWITCH_LID: u16 = 0;

/// The number of input devices that are looked at.
pub const CANDIDATES: u32 = 32;

/// The size of an input event, in bytes.
pub const EVENT_SIZE: usize = 16;

/// The number of the query for the name of a device.
pub const QUERY_NAME: u64 = 0x06;

/// The number of the query for the state of the switches.
pub const QUERY_SWITCH_STATE: u64 = 0x1b;

/// The number of the query for the events of a type, for type zero.
pub const QUERY_EVENT_BITS: u64 = 0x20;

// ---------------------------------------------------------------------------
// Queries
// ---------------------------------------------------------------------------

/// The request code of a query that reads `size` bytes: direction, size, the letter `E`, number.
pub open spec fn read_request(number: u64, size: u64) -> u64 {
    (2u64 << 30) | (size << 16) | (0x45u64 << 8) | number
}

/// The request code of a query that reads `size` bytes.
pub fn ioctl_read_request(number: u64, size: usize) -> (r: u64)
    ensures
        r == read_request(number, size as u64),
{
    (2u64 << 30) | ((size as u64) << 16) | (0x45u64 << 8) | number
}

/// The parts of a request code do not overlap: each can be read off the code, which has 32 bits.
pub proof fn request_parts_do_not_overlap(number: u64, size: u64)
    requires
        number < 0x100,
        size < 0x4000,
    ensures
        read_request(number, size) == 0x8000_0000 + size * 0x1_0000 + 0x4500 + number,
        read_request(number, size) <= u32::MAX,
{
    assert((2u64 << 30) | (size << 16) | (0x45u64 << 8) | number == 0x8000_0000 + size * 0x1_0000
        + 0x4500 + number) by (bit_vector)
        requires
            number < 0x100,
            size < 0x4000,
    ;
}

/// The request code as the C library for small systems takes it: the signed number with the same
/// 32 bits.
pub fn signed_request(request: u64) -> (r: i32)
    requires
        request <= u32::MAX,
    ensures
        framebuffer::same_bits(r) == request,
{
    let bits: u32 = request as u32;
    let code: i32 = bits as i32;
    assert(code >= 0 ==> code == bits) by (bit_vector)
        requires
            code == bits as i32,
    ;
    assert(code < 0 ==> code + 0x1_0000_0000 == bits) by (bit_vector)
        requires
            code == bits as i32,
    ;
    code
}

/// The bytes of a C string: those before the first zero, or all of them.
pub open spec fn c_string(buffer: Seq<u8>) -> Seq<u8>
    decreases buffer.len(),
{
    if buffer.len() == 0 || buffer[0] == 0 {
        seq![]
    } else {
        seq![buffer[0]] + c_string(buffer.drop_first())
    }
}

/// The name of the sensor of the cover.
pub open spec fn hall_device_name() -> Seq<u8> {
    vstd::utf8::encode_utf8("hall_sensor_disp"@)
}

/// Whether a name buffer holds the name of the sensor of the cover.
pub fn is_hall_name(buffer: &[u8]) -> (r: bool)
    ensures
        r == (c_string(buffer@) == hall_device_name()),
{
    let wanted: &[u8] = "hall_sensor_disp".as_bytes();
    let mut i: usize = 0;
    assert(buffer@.skip(0) =~= buffer@);
    assert(buffer@.take(0) + c_string(buffer@) =~= c_string(buffer@));
    while i < buffer.len() && buffer[i] != 0
        invariant
            i <= buffer@.len(),
            c_string(buffer@) == buffer@.take(i as int) + c_string(buffer@.skip(i as int)),
        decreases buffer@.len() - i,
    {
        let ghost rest = buffer@.skip(i as int);
        assert(rest.drop_first() =~= buffer@.skip(i + 1));
        assert(buffer@.take(i as int) + (seq![rest[0]] + c_string(buffer@.skip(i + 1)))
            =~= buffer@.take(i + 1) + c_string(buffer@.skip(i + 1)));
        i = i + 1;
    }
    assert(c_string(buffer@) =~= buffer@.take(i as int));
    if i != wanted.len() {
        return false;
    }
    let mut j: usize = 0;
    while j < i
        invariant
            j <= i,
            i <= buffer@.len(),
            i == wanted@.len(),
            wanted@ == hall_device_name(),
            c_string(buffer@) == buffer@.take(i as int),
            forall|k: int| 0 <= k < j ==> buffer@[k] == #[trigger] wanted@[k],
        decreases i - j,
    {
        if buffer[j] != wanted[j] {
            assert(c_string(buffer@)[j as int] != hall_device_name()[j as int]);
            return false;
        }
        j = j + 1;
    }
    assert(c_string(buffer@) =~= hall_device_name());
    true
}

/// The lid bit of a byte of switch bits.
pub open spec fn lid_bit(bits: u8) -> bool {
    bits % 2 == 1
}

/// Whether the lid bit is set.
pub fn lid_bit_set(bits: u8) -> (r: bool)
    ensures
        r == lid_bit(bits),
{
    assert(bits & 1 != 0 <==> bits % 2 == 1) by (bit_vector);
    bits & 1 != 0
}

// ---------------------------------------------------------------------------
// Finding the device
// ---------------------------------------------------------------------------

/// The path of an input device.
pub fn event_path(number: u32) -> (r: String)
    ensures
        r@ == "/dev/input/event"@ + text::decimal_digits(number as nat),
{
    join2("/dev/input/event", &decimal(number as u64))
}

/// What the search for the device waits for.
#[derive(Clone, Copy, Debug, PartialEq, Eq, Structural)]
pub enum ProbeStage {
    /// The candidate is being opened.
    Opening,
    /// The candidate is asked for its name.
    Naming,
    /// The candidate is asked which switches it has.
    Listing,
    /// The candidate is asked for the state of its switches.
    Reading,
    /// The search is over.
    Over,
}

/// The name buffer of a device, in bytes.
pub const NAME_SIZE: usize = 64;

/// The search for the input device of the cover.
#[derive(Clone, Copy, Debug, PartialEq, Eq, Structural)]
pub struct CoverProbe {
    pub number: u32,
    pub stage: ProbeStage,
}

/// What came of the last request of the search.
#[derive(Debug, PartialEq)]
pub enum ProbeEvent {
    /// The candidate was opened, or could not be.
    Opened(bool),
    /// The name buffer of the candidate, if it answered.
    Name(Option<Vec<u8>>),
    /// The switches of the candidate, if it answered.
    Switches(Option<u8>),
    /// The state of the switches, if the candidate answered.
    State(Option<u8>),
}

/// What the search asks for next.
#[derive(Clone, Copy, Debug, PartialEq, Eq, Structural)]
pub enum ProbeRequest {
    /// Open the candidate with this number.
    Open(u32),
    AskName,
    AskSwitches,
    AskState,
    /// The candidate is the cover, which is closed or not.
    Found(bool),
    /// The cover did not tell its state.
    Failed,
    /// There is no cover.
    NoCover,
}

/// What the search wants done: close the candidate first, if asked to, then the request.
#[derive(Clone, Copy, Debug, PartialEq, Eq, Structural)]
pub struct ProbeAction {
    pub close: bool,
    pub request: ProbeRequest,
}

/// The request code of the query that a request of the search stands for: the name, the bits of
/// the switch events, or the state of the switches.
pub fn query_code(request: &ProbeRequest) -> (r: Option<u64>)
    ensures
        r == match *request {
            ProbeRequest::AskName => Some(read_request(QUERY_NAME, NAME_SIZE as u64)),
            ProbeRequest::AskSwitches => Some(
                read_request((QUERY_EVENT_BITS + EVENT_SWITCH) as u64, 1),
            ),
            ProbeRequest::AskState => Some(read_request(QUERY_SWITCH_STATE, 1)),
            _ => None,
        },
{
    match request {
        ProbeRequest::AskName => Some(ioctl_read_request(QUERY_NAME, NAME_SIZE)),
        ProbeRequest::AskSwitches => Some(
            ioctl_read_request(QUERY_EVENT_BITS + EVENT_SWITCH as u64, 1),
        ),
        ProbeRequest::AskState => Some(ioctl_read_request(QUERY_SWITCH_STATE, 1)),
        _ => None,
    }
}

impl CoverProbe {
    /// The search looks at a candidate, or is over.
    pub open spec fn well_formed(self) -> bool {
        self.number < CANDIDATES
    }

    /// The search waits for such an event.
    pub open spec fn expects(self, event: ProbeEvent) -> bool {
        match event {
            ProbeEvent::Opened(_) => self.stage == ProbeStage::Opening,
            ProbeEvent::Name(_) => self.stage == ProbeStage::Naming,
            ProbeEvent::Switches(_) => self.stage == ProbeStage::Listing,
            ProbeEvent::State(_) => self.stage == ProbeStage::Reading,
        }
    }

    /// A candidate is open.
    pub open spec fn holds_device(self) -> bool {
        self.stage == ProbeStage::Naming || self.stage == ProbeStage::Listing || self.stage
            == ProbeStage::Reading
    }

    /// The search in another stage.
    pub open spec fn at(self, stage: ProbeStage) -> CoverProbe {
        CoverProbe { number: self.number, stage }
    }

    /// The search after a candidate was given up.
    pub open spec fn given_up(self, close: bool) -> (CoverProbe, ProbeAction) {
        if self.number + 1 < CANDIDATES {
            let number = (self.number + 1) as u32;
            (
                CoverProbe { number, stage: ProbeStage::Opening },
                ProbeAction { close, request: ProbeRequest::Open(number) },
            )
        } else {
            (
                self.at(ProbeStage::Over),
                ProbeAction { close, request: ProbeRequest::NoCover },
            )
        }
    }

    /// The search after an event, and what it wants done.
    pub open spec fn next(self, event: ProbeEvent) -> (CoverProbe, ProbeAction) {
        match event {
            ProbeEvent::Opened(opened) => if opened {
                (
                    self.at(ProbeStage::Naming),
                    ProbeAction { close: false, request: ProbeRequest::AskName },
                )
            } else {
                self.given_up(false)
            },
            ProbeEvent::Name(answer) => if answer is Some && c_string(answer->0@)
                == hall_device_name() {
                (
                    self.at(ProbeStage::Listing),
                    ProbeAction { close: false, request: ProbeRequest::AskSwitches },
                )
            } else {
                self.given_up(true)
            },
            ProbeEvent::Switches(answer) => if answer is Some && lid_bit(answer->0) {
                (
                    self.at(ProbeStage::Reading),
                    ProbeAction { close: false, request: ProbeRequest::AskState },
                )
            } else {
                self.given_up(true)
            },
            ProbeEvent::State(answer) => if answer is Some {
                (
                    self.at(ProbeStage::Over),
                    ProbeAction { close: false, request: ProbeRequest::Found(lid_bit(answer->0)) },
                )
            } else {
                (
                    self.at(ProbeStage::Over),
                    ProbeAction { close: true, request: ProbeRequest::Failed },
                )
            },
        }
    }

    /// The search at its beginning, and its first request.
    pub fn start() -> (r: (CoverProbe, ProbeAction))
        ensures
            r.0 == (CoverProbe { number: 0, stage: ProbeStage::Opening }),
            r.1 == (ProbeAction { close: false, request: ProbeRequest::Open(0) }),
            r.0.well_formed(),
    {
        (
            CoverProbe { number: 0, stage: ProbeStage::Opening },
            ProbeAction { close: false, request: ProbeRequest::Open(0) },
        )
    }

    /// Goes on to the next candidate, if there is one.
    fn give_up(&mut self, close: bool) -> (r: ProbeAction)
        requires
            old(self).well_formed(),
        ensures
            (*final(self), r) == old(self).given_up(close),
            final(self).well_formed(),
    {
        if self.number + 1 < CANDIDATES {
            self.number = self.number + 1;
            self.stage = ProbeStage::Opening;
            ProbeAction { close, request: ProbeRequest::Open(self.number) }
        } else {
            self.stage = ProbeStage::Over;
            ProbeAction { close, request: ProbeRequest::NoCover }
        }
    }

    /// Takes an event and says what is to be done next.
    pub fn step(&mut self, event: &ProbeEvent) -> (r: ProbeAction)
        requires
            old(self).well_formed(),
            old(self).expects(*event),
        ensures
            (*final(self), r) == old(self).next(*event),
            final(self).well_formed(),
    {
        match event {
            ProbeEvent::Opened(opened) => {
                if !*opened {
                    return self.give_up(false);
                }
                self.stage = ProbeStage::Naming;
                ProbeAction { close: false, request: ProbeRequest::AskName }
            },
            ProbeEvent::Name(answer) => {
                let is_hall = match answer {
                    Some(name) => is_hall_name(name.as_slice()),
                    None => false,
                };
                if !is_hall {
                    return self.give_up(true);
                }
                self.stage = ProbeStage::Listing;
                ProbeAction { close: false, request: ProbeRequest::AskSwitches }
            },
            ProbeEvent::Switches(answer) => {
                let has_lid = match answer {
                    Some(bits) => lid_bit_set(*bits),
                    None => false,
                };
                if !has_lid {
                    return self.give_up(true);
                }
                self.stage = ProbeStage::Reading;
                ProbeAction { close: false, request: ProbeRequest::AskState }
            },
            ProbeEvent::State(answer) => {
                self.stage = ProbeStage::Over;
                match answer {
                    Some(bits) => ProbeAction {
                        close: false,
                        request: ProbeRequest::Found(lid_bit_set(*bits)),
                    },
                    None => ProbeAction { close: true, request: ProbeRequest::Failed },
                }
            },
        }
    }

    /// The number of events that the search can still take.
    pub open spec fn steps_left(self) -> int {
        (CANDIDATES - self.number) * 4 - (match self.stage {
            ProbeStage::Opening => 0int,
            ProbeStage::Naming => 1,
            ProbeStage::Listing => 2,
            ProbeStage::Reading => 3,
            ProbeStage::Over => (CANDIDATES - self.number) * 4,
        })
    }
}

/// The search ends: every event brings it nearer to its end.
pub proof fn the_search_ends(probe: CoverProbe, event: ProbeEvent)
    requires
        probe.well_formed(),
        probe.expects(event),
    ensures
        probe.next(event).0.well_formed(),
        0 <= probe.next(event).0.steps_left() < probe.steps_left(),
{
}

/// No device is left open: a candidate that is given up is closed, one that is not open is not
/// closed, and the one that is found stays open.
pub proof fn no_device_is_left_open(probe: CoverProbe, event: ProbeEvent)
    requires
        probe.well_formed(),
        probe.expects(event),
    ensures
        ({
            let (after, action) = probe.next(event);
            &&& action.close ==> probe.holds_device()
            &&& probe.holds_device() && !after.holds_device() ==> (action.close
                != action.request is Found)
            &&& action.request is Found ==> probe.holds_device() && !action.close
        }),
{
}

// ---------------------------------------------------------------------------
// Following the switch
// ---------------------------------------------------------------------------

/// The state of the lid that an input event tells of: open for zero, closed for one.
pub open spec fn lid_state(kind: u16, code: u16, value: i32) -> Option<bool> {
    if kind != EVENT_SWITCH || code != SWITCH_LID {
        None
    } else if value == 0 {
        Some(false)
    } else if value == 1 {
        Some(true)
    } else {
        None
    }
}

/// The state of the lid that an input event tells of.
pub fn decoded_lid_state(kind: u16, code: u16, value: i32) -> (r: Option<bool>)
    ensures
        r == lid_state(kind, code, value),
{
    if kind != EVENT_SWITCH || code != SWITCH_LID {
        return None;
    }
    if value == 0 {
        Some(false)
    } else if value == 1 {
        Some(true)
    } else {
        None
    }
}

/// What came of reading an event.
#[derive(Clone, Copy, Debug, PartialEq, Eq, Structural)]
pub enum CoverRead {
    /// No event is waiting.
    WouldBlock,
    /// The device could not be read.
    Failed,
    /// So many bytes were read; a whole event holds these values.
    Bytes { count: usize, kind: u16, code: u16, value: i32 },
}

/// What comes after reading an event.
#[derive(Clone, Copy, Debug, PartialEq, Eq, Structural)]
pub enum AfterCoverRead {
    /// Another event may be waiting.
    ReadAgain,
    /// All events were read; the last change among them, if there was one.
    Drained(Option<bool>),
    /// The device could not be read.
    ReadFailed,
    /// The device was closed.
    EndOfInput,
    /// The device gave a part of an event.
    PartialEvent,
}

/// The cover, and the last change among the events that are being read.
#[derive(Clone, Copy, Debug, PartialEq, Eq, Structural)]
pub struct Cover {
    pub closed: bool,
    pub latest: Option<bool>,
}

impl Cover {
    /// The cover after an event.
    pub open spec fn told(self, kind: u16, code: u16, value: i32) -> Cover {
        match lid_state(kind, code, value) {
            Some(closed) => if closed != self.closed {
                Cover { closed, latest: Some(closed) }
            } else {
                self
            },
            None => self,
        }
    }

    /// The cover after a read.
    pub open spec fn after(self, read: CoverRead) -> Cover {
        match read {
            CoverRead::Bytes { count, kind, code, value } => if count == EVENT_SIZE {
                self.told(kind, code, value)
            } else {
                self
            },
            _ => self,
        }
    }

    /// What comes after a read.
    pub open spec fn verdict(self, read: CoverRead) -> AfterCoverRead {
        match read {
            CoverRead::WouldBlock => AfterCoverRead::Drained(self.latest),
            CoverRead::Failed => AfterCoverRead::ReadFailed,
            CoverRead::Bytes { count, .. } => if count == 0 {
                AfterCoverRead::EndOfInput
            } else if count != EVENT_SIZE {
                AfterCoverRead::PartialEvent
            } else {
                AfterCoverRead::ReadAgain
            },
        }
    }

    /// The cover in a known state.
    pub fn new(closed: bool) -> (r: Cover)
        ensures
            r == (Cover { closed, latest: None }),
    {
        Cover { closed, latest: None }
    }

    /// Begins to read the waiting events.
    pub fn begin_read(&mut self)
        ensures
            *final(self) == (Cover { closed: old(self).closed, latest: None }),
    {
        self.latest = None;
    }

    /// Takes what came of reading an event.
    pub fn read_step(&mut self, read: &CoverRead) -> (r: AfterCoverRead)
        ensures
            *final(self) == old(self).after(*read),
            r == old(self).verdict(*read),
    {
        match read {
            CoverRead::WouldBlock => AfterCoverRead::Drained(self.latest),
            CoverRead::Failed => AfterCoverRead::ReadFailed,
            CoverRead::Bytes { count, kind, code, value } => {
                if *count == 0 {
                    return AfterCoverRead::EndOfInput;
                }
                if *count != EVENT_SIZE {
                    return AfterCoverRead::PartialEvent;
                }
                if let Some(closed) = decoded_lid_state(*kind, *code, *value) {
                    if closed != self.closed {
                        self.closed = closed;
                        self.latest = Some(closed);
                    }
                }
                AfterCoverRead::ReadAgain
            },
        }
    }

    /// The cover after a run of events: kind, code and value of each.
    pub open spec fn told_all(self, events: Seq<(u16, u16, i32)>) -> Cover
        decreases events.len(),
    {
        if events.len() == 0 {
            self
        } else {
            let last = events.last();
            self.told_all(events.drop_last()).told(last.0, last.1, last.2)
        }
    }
}

/// The last state of the lid that a run of events tells of.
pub open spec fn last_lid_state(events: Seq<(u16, u16, i32)>) -> Option<bool>
    decreases events.len(),
{
    if events.len() == 0 {
        None
    } else {
        let last = events.last();
        match lid_state(last.0, last.1, last.2) {
            Some(closed) => Some(closed),
            None => last_lid_state(events.drop_last()),
        }
    }
}

/// After a run of events the cover is in the last state that they tell of. A change is reported
/// when one of the events tells of the other state than the one before them, and then only. What is
/// reported is the last state; without a report nothing changed.
pub proof fn the_last_event_wins(closed: bool, events: Seq<(u16, u16, i32)>)
    ensures
        ({
            let cover = (Cover { closed, latest: None }).told_all(events);
            &&& cover.closed == match last_lid_state(events) {
                Some(state) => state,
                None => closed,
            }
            &&& cover.latest is Some <==> exists|i: int|
                0 <= i < events.len() && lid_state(
                    (#[trigger] events[i]).0,
                    events[i].1,
                    events[i].2,
                ) == Some(!closed)
            &&& cover.latest is Some ==> cover.latest == Some(cover.closed)
            &&& cover.latest is None ==> cover.closed == closed
        }),
    decreases events.len(),
{
    if events.len() > 0 {
        let earlier = events.drop_last();
        the_last_event_wins(closed, earlier);
        assert(events.last() == events[events.len() - 1]);
        assert(forall|i: int| 0 <= i < earlier.len() ==> events[i] == #[trigger] earlier[i]);
        assert(forall|i: int| 0 <= i < earlier.len() ==> #[trigger] events[i] == earlier[i]);
    }
}

/// The message for a cover that cannot be read any more; a failed read has one of its own.
pub fn cover_error(after: &AfterCoverRead) -> (r: Option<&'static str>)
    ensures
        r is Some <==> *after is EndOfInput || *after is PartialEvent,
        *after is EndOfInput ==> r->0@ == "Kindle cover input closed"@,
        *after is PartialEvent ==> r->0@ == "Kindle cover input returned a partial event"@,
{
    match after {
        AfterCoverRead::EndOfInput => Some("Kindle cover input closed"),
        AfterCoverRead::PartialEvent => Some("Kindle cover input returned a partial event"),
        _ => None,
    }
}

/// Only the lid switch tells of the lid: one closes it and zero opens it.
pub proof fn only_the_lid_switch_tells_of_the_lid(kind: u16, code: u16, value: i32)
    ensures
        lid_state(5, 0, 1) == Some(true),
        lid_state(5, 0, 0) == Some(false),
        lid_state(kind, code, value) is Some ==> kind == 5 && code == 0 && (value == 0 || value
            == 1),
{
}

/// A C string ends before its first zero.
pub proof fn a_c_string_ends_at_its_zero(front: Seq<u8>, back: Seq<u8>)
    requires
        forall|i: int| 0 <= i < front.len() ==> #[trigger] front[i] != 0,
    ensures
        c_string(front) == front,
        c_string(front + seq![0u8] + back) == front,
    decreases front.len(),
{
    let whole = front + seq![0u8] + back;
    if front.len() > 0 {
        let less = front.drop_first();
        assert(forall|i: int| 0 <= i < less.len() ==> #[trigger] less[i] == front[i + 1]);
        a_c_string_ends_at_its_zero(less, back);
        assert(whole.drop_first() =~= less + seq![0u8] + back);
        assert(whole[0] == front[0]);
        assert(seq![front[0]] + less =~= front);
    } else {
        assert(whole[0] == 0);
        assert(c_string(front) =~= front);
        assert(c_string(whole) =~= front);
    }
}

/// The lid bit is the lowest one.
pub proof fn the_lid_bit_is_the_lowest(bits: u8)
    ensures
        lid_bit(bits) <==> bits & 1 == 1,
        hall_device_name() == vstd::utf8::encode_utf8("hall_sensor_disp"@),
{
    assert(bits & 1 == 1 <==> bits % 2 == 1) by (bit_vector);
}

/// A whole event is taken and asks for more; anything else leaves the cover as it is. No event ends
/// the reading with the last change, and no bytes, too few or too many are errors.
pub proof fn reads_go_on_until_nothing_waits(
    cover: Cover,
    count: usize,
    kind: u16,
    code: u16,
    value: i32,
)
    ensures
        ({
            let read = CoverRead::Bytes { count, kind, code, value };
            &&& count == 16 ==> cover.verdict(read) == AfterCoverRead::ReadAgain
            &&& count == 16 && lid_state(kind, code, value) == Some(!cover.closed) ==> cover.after(
                read,
            ) == (Cover { closed: !cover.closed, latest: Some(!cover.closed) })
            &&& count == 16 && lid_state(kind, code, value) != Some(!cover.closed) ==> cover.after(
                read,
            ) == cover
            &&& count != 16 ==> cover.after(read) == cover
            &&& count == 0 ==> cover.verdict(read) == AfterCoverRead::EndOfInput
            &&& count != 0 && count != 16 ==> cover.verdict(read) == AfterCoverRead::PartialEvent
        }),
        cover.after(CoverRead::WouldBlock) == cover,
        cover.verdict(CoverRead::WouldBlock) == AfterCoverRead::Drained(cover.latest),
        cover.after(CoverRead::Failed) == cover,
        cover.verdict(CoverRead::Failed) == AfterCoverRead::ReadFailed,
{
}

/// The search asks a candidate that opened for its name, one with the right name for its switches,
/// one with a lid switch for its state, and is then done. Any other answer but the last gives the
/// candidate up: the next of the 32 is opened, or there is no cover.
pub proof fn the_search_asks_in_turn(probe: CoverProbe, event: ProbeEvent)
    requires
        probe.well_formed(),
        probe.expects(event),
    ensures
        ({
            let (after, action) = probe.next(event);
            let passed = match event {
                ProbeEvent::Opened(opened) => opened,
                ProbeEvent::Name(name) => name is Some && c_string(name->0@)
                    == hall_device_name(),
                ProbeEvent::Switches(bits) => bits is Some && lid_bit(bits->0),
                ProbeEvent::State(bits) => true,
            };
            &&& action.request == ProbeRequest::AskName <==> event == ProbeEvent::Opened(true)
            &&& action.request == ProbeRequest::AskSwitches <==> event is Name && passed
            &&& action.request == ProbeRequest::AskState <==> event is Switches && passed
            &&& event matches ProbeEvent::State(bits) ==> {
                &&& bits is None ==> action.request == ProbeRequest::Failed && action.close
                &&& bits is Some ==> action.request == ProbeRequest::Found(lid_bit(bits->0))
                    && !action.close
            }
            &&& passed && !(event is State) ==> !action.close && after.number == probe.number
            &&& !passed ==> {
                &&& action.close <==> !(event is Opened)
                &&& probe.number < 31 ==> action.request == ProbeRequest::Open(
                    (probe.number + 1) as u32,
                ) && after.number == probe.number + 1 && after.stage == ProbeStage::Opening
                &&& probe.number == 31 ==> action.request == ProbeRequest::NoCover && after.stage
                    == ProbeStage::Over
            }
        }),
{
}

/// The number of a query is put into the low bits of its code as it is, and the size above them.
pub proof fn a_request_code_is_made_of_its_parts(number: u64, size: u64)
    ensures
        read_request(number, size) == read_request(0, size) | number,
        read_request(0, size) == (size << 16) | 0x8000_4500,
{
    assert((2u64 << 30) | (size << 16) | (0x45u64 << 8) | number == ((2u64 << 30) | (size << 16) | (
    0x45u64 << 8) | 0u64) | number) by (bit_vector);
    assert((2u64 << 30) | (size << 16) | (0x45u64 << 8) | 0u64 == (size << 16) | 0x8000_4500u64)
        by (bit_vector);
}

} // verus!
