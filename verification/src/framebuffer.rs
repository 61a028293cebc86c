//! The e-ink framebuffer: its geometry, and the updates that the display controller is asked for.

use vstd::prelude::*;

use crate::text;
use crate::text::{decimal, join2, join3};

verus! {

// ---------------------------------------------------------------------------
// Geometry
// ---------------------------------------------------------------------------

/// The layout of an 8-bit grayscale framebuffer. A row takes `stride` bytes, of which the first
/// `width` are visible.
#[derive(Clone, Copy, Debug, PartialEq, Eq)]
pub struct Geometry {
    pub width: u32,
    pub height: u32,
    pub stride: usize,
    pub len: usize,
}

/// Why a framebuffer cannot be used.
#[derive(Clone, Copy, Debug, PartialEq, Eq)]
pub enum GeometryError {
    /// The pixels are not one byte each.
    Depth { bits_per_pixel: u32 },
    /// The panel is empty, or its rows are shorter than its width.
    Size { width: u32, height: u32, stride: usize },
}

impl Geometry {
    /// The panel is not empty, its rows hold its width, and its length is that of its rows.
    pub open spec fn well_formed(self) -> bool {
        &&& 0 < self.width <= self.stride
        &&& 0 < self.height
        &&& self.len == self.height * self.stride
    }
}

/// What a framebuffer with the given kernel parameters is good for.
pub open spec fn checked_geometry(
    xres: u32,
    yres: u32,
    bits_per_pixel: u32,
    line_length: u32,
) -> Result<Geometry, GeometryError> {
    if bits_per_pixel != 8 {
        Err(GeometryError::Depth { bits_per_pixel })
    } else if xres == 0 || yres == 0 || line_length < xres {
        Err(GeometryError::Size { width: xres, height: yres, stride: line_length as usize })
    } else {
        Ok(
            Geometry {
                width: xres,
                height: yres,
                stride: line_length as usize,
                len: (line_length * yres) as usize,
            },
        )
    }
}

/// Checks the parameters that the kernel reports of a framebuffer. The length of a usable one has
/// to fit the address space.
pub fn check_geometry(xres: u32, yres: u32, bits_per_pixel: u32, line_length: u32) -> (r: Result<
    Geometry,
    GeometryError,
>)
    requires
        checked_geometry(xres, yres, bits_per_pixel, line_length) is Ok ==> line_length * yres
            <= usize::MAX,
    ensures
        r == checked_geometry(xres, yres, bits_per_pixel, line_length),
        r matches Ok(geometry) ==> geometry.well_formed(),
{
    let stride: usize = line_length as usize;
    if bits_per_pixel != 8 {
        return Err(GeometryError::Depth { bits_per_pixel });
    }
    if xres == 0 || yres == 0 || stride < xres as usize {
        return Err(GeometryError::Size { width: xres, height: yres, stride });
    }
    let len: usize = stride * yres as usize;
    assert(line_length * yres == yres * line_length) by (nonlinear_arith);
    Ok(Geometry { width: xres, height: yres, stride, len })
}

/// Whether the length of the framebuffer fits the address space, if it is a usable one.
pub fn geometry_fits(xres: u32, yres: u32, bits_per_pixel: u32, line_length: u32) -> (r: bool)
    ensures
        r == (checked_geometry(xres, yres, bits_per_pixel, line_length) is Ok ==> line_length * yres
            <= usize::MAX),
{
    let usable = bits_per_pixel == 8 && xres != 0 && yres != 0 && line_length >= xres;
    assert(line_length * yres <= u32::MAX * u32::MAX) by (nonlinear_arith)
        requires
            0 <= line_length <= u32::MAX,
            0 <= yres <= u32::MAX,
    ;
    assert(0 <= line_length * yres) by (nonlinear_arith)
        requires
            0 <= line_length,
            0 <= yres,
    ;
    let len: u64 = line_length as u64 * yres as u64;
    !usable || len <= usize::MAX as u64
}

impl GeometryError {
    /// The message for a framebuffer that cannot be used.
    pub open spec fn text(self) -> Seq<char> {
        match self {
            GeometryError::Depth { bits_per_pixel } => "unsupported framebuffer depth: "@
                + text::decimal_digits(bits_per_pixel as nat)
                + " bpp (expected 8-bit grayscale)"@,
            GeometryError::Size { width, height, stride } => "invalid framebuffer geometry: "@
                + text::decimal_digits(width as nat) + "x"@ + text::decimal_digits(height as nat)
                + ", stride="@ + text::decimal_digits(stride as nat),
        }
    }

    /// The message for a framebuffer that cannot be used.
    pub fn message(&self) -> (r: String)
        ensures
            r@ == self.text(),
    {
        match self {
            GeometryError::Depth { bits_per_pixel } => join3(
                "unsupported framebuffer depth: ",
                &decimal(*bits_per_pixel as u64),
                " bpp (expected 8-bit grayscale)",
            ),
            GeometryError::Size { width, height, stride } => {
                let size = join3(
                    "invalid framebuffer geometry: ",
                    &decimal(*width as u64),
                    "x",
                );
                let panel = join3(&size, &decimal(*height as u64), ", stride=");
                join2(&panel, &decimal(*stride as u64))
            },
        }
    }
}

// ---------------------------------------------------------------------------
// Update requests
// ---------------------------------------------------------------------------

/// The controller measures the temperature of the panel itself.
pub const TEMP_USE_AMBIENT: u32 = 0x1000;

/// The waveform for sixteen levels of gray, which clears artifacts.
pub const WAVEFORM_MODE_GC16: u32 = 2;

/// The controller picks the waveform.
pub const WAVEFORM_MODE_AUTO: u32 = 257;

/// Only the pixels that changed are driven.
pub const UPDATE_MODE_PARTIAL: u32 = 0;

/// All pixels of the region are driven.
pub const UPDATE_MODE_FULL: u32 = 1;

/// Which layout of the update request the kernel accepts.
#[derive(Clone, Copy, Debug, PartialEq, Eq, Structural)]
pub enum UpdateVariant {
    /// A request of 72 bytes, on older devices.
    Legacy,
    /// A request of 80 bytes, on the tenth generation Paperwhite and newer devices.
    Rex,
    /// A request of 88 bytes, on the second and third Oasis.
    Zelda,
}

/// A region of the panel.
#[derive(Clone, Copy, Debug, PartialEq, Eq)]
pub struct UpdateRect {
    pub top: u32,
    pub left: u32,
    pub width: u32,
    pub height: u32,
}

/// A refresh of a region of the panel.
#[derive(Clone, Copy, Debug, PartialEq, Eq)]
pub struct Refresh {
    pub region: UpdateRect,
    pub waveform: u32,
    pub mode: u32,
}

/// The refresh of the whole panel, which clears artifacts.
pub fn refresh_full(geometry: &Geometry) -> (r: Refresh)
    ensures
        r == (Refresh {
            region: UpdateRect {
                top: 0,
                left: 0,
                width: geometry.width,
                height: geometry.height,
            },
            waveform: WAVEFORM_MODE_GC16,
            mode: UPDATE_MODE_FULL,
        }),
{
    Refresh {
        region: UpdateRect { top: 0, left: 0, width: geometry.width, height: geometry.height },
        waveform: WAVEFORM_MODE_GC16,
        mode: UPDATE_MODE_FULL,
    }
}

/// The unsigned number with the same 32 bits.
pub open spec fn same_bits(value: i32) -> u32 {
    if value >= 0 {
        value as u32
    } else {
        (value + 0x1_0000_0000) as u32
    }
}

/// The unsigned number with the same 32 bits.
fn reinterpret(value: i32) -> (r: u32)
    ensures
        r == same_bits(value),
{
    assert(value >= 0 ==> value as u32 == value) by (bit_vector);
    assert(value < 0 ==> value as u32 == value + 0x1_0000_0000) by (bit_vector);
    value as u32
}

/// The partial refresh of a dirty rectangle; an empty one needs none.
pub open spec fn region_refresh(x: i32, y: i32, width: u32, height: u32) -> Option<Refresh> {
    if width == 0 || height == 0 {
        None
    } else {
        Some(
            Refresh {
                region: UpdateRect { top: same_bits(y), left: same_bits(x), width, height },
                waveform: WAVEFORM_MODE_AUTO,
                mode: UPDATE_MODE_PARTIAL,
            },
        )
    }
}

/// The partial refresh of a dirty rectangle; an empty one needs none.
pub fn refresh_region(x: i32, y: i32, width: u32, height: u32) -> (r: Option<Refresh>)
    ensures
        r == region_refresh(x, y, width, height),
{
    if width == 0 || height == 0 {
        return None;
    }
    Some(
        Refresh {
            region: UpdateRect { top: reinterpret(y), left: reinterpret(x), width, height },
            waveform: WAVEFORM_MODE_AUTO,
            mode: UPDATE_MODE_PARTIAL,
        },
    )
}

/// The words of a region: top, left, width, height.
pub open spec fn region_words(region: UpdateRect) -> Seq<u32> {
    seq![region.top, region.left, region.width, region.height]
}

/// The words of an alternate buffer that is not used: address, width, height and region.
pub open spec fn no_alternate_buffer() -> Seq<u32> {
    seq![0u32, 0u32, 0u32, 0u32, 0u32, 0u32, 0u32]
}

/// The update request as the kernel reads it, in 32-bit words.
///
/// All layouts start with the region, the waveform, the mode and the marker. The legacy one goes
/// on with two history waveforms, the temperature, the flags and the alternate buffer. The newer
/// ones have the temperature, the flags, the dither mode and the quantisation bit before the
/// alternate buffer and the history waveforms after it; the largest one ends in two time stamps.
pub open spec fn request_words(variant: UpdateVariant, refresh: Refresh, marker: u32) -> Seq<u32> {
    let head = region_words(refresh.region) + seq![refresh.waveform, refresh.mode, marker];
    match variant {
        UpdateVariant::Legacy => head + seq![0u32, 0u32, TEMP_USE_AMBIENT, 0u32]
            + no_alternate_buffer(),
        UpdateVariant::Rex => head + seq![TEMP_USE_AMBIENT, 0u32, 0u32, 0u32]
            + no_alternate_buffer() + seq![0u32, 0u32],
        UpdateVariant::Zelda => head + seq![TEMP_USE_AMBIENT, 0u32, 0u32, 0u32]
            + no_alternate_buffer() + seq![0u32, 0u32, 0u32, 0u32],
    }
}

/// Appends `count` zero words.
fn push_zeros(words: &mut Vec<u32>, count: usize)
    ensures
        final(words)@ == old(words)@ + Seq::new(count as nat, |i: int| 0u32),
{
    let ghost before = words@;
    let mut i: usize = 0;
    while i < count
        invariant
            i <= count,
            words@ == before + Seq::new(i as nat, |k: int| 0u32),
        decreases count - i,
    {
        words.push(0);
        i = i + 1;
        assert(words@ =~= before + Seq::new(i as nat, |k: int| 0u32));
    }
}

/// The update request as the kernel reads it, in 32-bit words.
pub fn update_request(variant: UpdateVariant, refresh: &Refresh, marker: u32) -> (r: Vec<u32>)
    ensures
        r@ == request_words(variant, *refresh, marker),
{
    let mut words: Vec<u32> = Vec::new();
    words.push(refresh.region.top);
    words.push(refresh.region.left);
    words.push(refresh.region.width);
    words.push(refresh.region.height);
    words.push(refresh.waveform);
    words.push(refresh.mode);
    words.push(marker);
    match variant {
        UpdateVariant::Legacy => {
            push_zeros(&mut words, 2);
            words.push(TEMP_USE_AMBIENT);
            push_zeros(&mut words, 8);
        },
        UpdateVariant::Rex => {
            words.push(TEMP_USE_AMBIENT);
            push_zeros(&mut words, 12);
        },
        UpdateVariant::Zelda => {
            words.push(TEMP_USE_AMBIENT);
            push_zeros(&mut words, 14);
        },
    }
    assert(words@ =~= request_words(variant, *refresh, marker));
    words
}

/// The sizes of the three layouts, in bytes.
pub proof fn request_sizes(refresh: Refresh, marker: u32)
    ensures
        request_words(UpdateVariant::Legacy, refresh, marker).len() * 4 == 72,
        request_words(UpdateVariant::Rex, refresh, marker).len() * 4 == 80,
        request_words(UpdateVariant::Zelda, refresh, marker).len() * 4 == 88,
{
}

/// The request code under which the kernel takes a layout: a write, the size of the request, the
/// letter `F` and the number of the request.
pub open spec fn layout_code(variant: UpdateVariant) -> u32 {
    match variant {
        UpdateVariant::Legacy => 0x4048_462e,
        UpdateVariant::Rex => 0x4050_462e,
        UpdateVariant::Zelda => 0x4058_462e,
    }
}

/// The request code under which the kernel takes a layout.
pub fn update_code(variant: UpdateVariant) -> (r: u32)
    ensures
        r == layout_code(variant),
{
    match variant {
        UpdateVariant::Legacy => 0x4048_462e,
        UpdateVariant::Rex => 0x4050_462e,
        UpdateVariant::Zelda => 0x4058_462e,
    }
}

/// The request code tells the size of the request: its fourteen bits for the size hold the number
/// of bytes of the words. The other bits are the same for all layouts.
pub proof fn codes_tell_the_size(variant: UpdateVariant, refresh: Refresh, marker: u32)
    ensures
        (layout_code(variant) >> 16) & 0x3fff == request_words(variant, refresh, marker).len() * 4,
        layout_code(variant) & 0xc000_ffff == 0x4000_462e,
{
    assert((0x4048_462eu32 >> 16) & 0x3fff == 72) by (bit_vector);
    assert((0x4050_462eu32 >> 16) & 0x3fff == 80) by (bit_vector);
    assert((0x4058_462eu32 >> 16) & 0x3fff == 88) by (bit_vector);
    assert(0x4048_462eu32 & 0xc000_ffff == 0x4000_462e) by (bit_vector);
    assert(0x4050_462eu32 & 0xc000_ffff == 0x4000_462e) by (bit_vector);
    assert(0x4058_462eu32 & 0xc000_ffff == 0x4000_462e) by (bit_vector);
    request_sizes(refresh, marker);
}

// ---------------------------------------------------------------------------
// Markers and probing
// ---------------------------------------------------------------------------

/// The marker after `marker`; zero, which stands for untracked updates, is left out.
pub open spec fn marker_after(marker: u32) -> u32 {
    if marker == u32::MAX {
        1
    } else {
        (marker + 1) as u32
    }
}

/// The marker after `marker`; zero, which stands for untracked updates, is left out.
pub fn next_update_marker(marker: u32) -> (r: u32)
    ensures
        r == marker_after(marker),
        r != 0,
{
    match marker.checked_add(1) {
        Some(next) => next,
        None => 1,
    }
}

/// What is known of the display controller, and the updates it was sent.
#[derive(Clone, Copy, Debug, PartialEq, Eq)]
pub struct UpdateLog {
    /// The layout that the kernel accepts, once one was accepted.
    pub variant: Option<UpdateVariant>,
    /// The marker of the next update.
    pub next_marker: u32,
    /// The marker of the last update that was accepted.
    pub last_marker: Option<u32>,
}

/// An update request to be submitted.
#[derive(Clone, Copy, Debug, PartialEq, Eq)]
pub struct Attempt {
    pub variant: UpdateVariant,
    pub marker: u32,
    /// The layout is not known yet: another one follows if this one is refused.
    pub probing: bool,
}

/// What comes after an attempt.
#[derive(Clone, Copy, Debug, PartialEq, Eq)]
pub enum AfterAttempt {
    /// The kernel took the update.
    Accepted,
    /// The kernel refused the layout it took before; the update is lost.
    Refused,
    /// The next layout is to be tried.
    Retry(Attempt),
    /// The kernel refused every layout; the screen does not update.
    NoLayoutAccepted,
}

/// The layout to try after `variant`.
pub open spec fn layout_after(variant: UpdateVariant) -> Option<UpdateVariant> {
    match variant {
        UpdateVariant::Legacy => Some(UpdateVariant::Rex),
        UpdateVariant::Rex => Some(UpdateVariant::Zelda),
        UpdateVariant::Zelda => None,
    }
}

impl UpdateLog {
    /// No marker is zero.
    pub open spec fn well_formed(self) -> bool {
        &&& self.next_marker != 0
        &&& self.last_marker != Some(0u32)
    }

    /// The log after a marker was taken from it.
    pub open spec fn marker_taken(self) -> UpdateLog {
        UpdateLog { next_marker: marker_after(self.next_marker), ..self }
    }

    /// The first attempt at an update: the known layout, else the oldest one.
    pub open spec fn first_attempt(self) -> Attempt {
        match self.variant {
            Some(variant) => Attempt { variant, marker: self.next_marker, probing: false },
            None => Attempt {
                variant: UpdateVariant::Legacy,
                marker: self.next_marker,
                probing: true,
            },
        }
    }

    /// The log after an attempt.
    pub open spec fn after(self, attempt: Attempt, accepted: bool) -> UpdateLog {
        if accepted {
            UpdateLog {
                variant: if attempt.probing {
                    Some(attempt.variant)
                } else {
                    self.variant
                },
                next_marker: self.next_marker,
                last_marker: Some(attempt.marker),
            }
        } else {
            self
        }
    }

    /// What comes after an attempt.
    pub open spec fn verdict(attempt: Attempt, accepted: bool) -> AfterAttempt {
        if accepted {
            AfterAttempt::Accepted
        } else if !attempt.probing {
            AfterAttempt::Refused
        } else {
            match layout_after(attempt.variant) {
                Some(variant) => AfterAttempt::Retry(Attempt { variant, ..attempt }),
                None => AfterAttempt::NoLayoutAccepted,
            }
        }
    }

    /// The log of a device that was sent no update yet.
    pub fn new() -> (r: UpdateLog)
        ensures
            r == (UpdateLog { variant: None, next_marker: 1, last_marker: None }),
            r.well_formed(),
    {
        UpdateLog { variant: None, next_marker: 1, last_marker: None }
    }

    /// Takes the marker for an update.
    pub fn take_update_marker(&mut self) -> (r: u32)
        ensures
            r == old(self).next_marker,
            *final(self) == old(self).marker_taken(),
            old(self).well_formed() ==> final(self).well_formed() && r != 0,
    {
        let marker = self.next_marker;
        self.next_marker = next_update_marker(marker);
        marker
    }

    /// Starts an update.
    pub fn begin_update(&mut self) -> (r: Attempt)
        ensures
            r == old(self).first_attempt(),
            *final(self) == old(self).marker_taken(),
            old(self).well_formed() ==> final(self).well_formed() && r.marker != 0,
    {
        let marker = self.take_update_marker();
        match self.variant {
            Some(variant) => Attempt { variant, marker, probing: false },
            None => Attempt { variant: UpdateVariant::Legacy, marker, probing: true },
        }
    }

    /// Takes note of how the kernel answered an attempt.
    pub fn conclude(&mut self, attempt: Attempt, accepted: bool) -> (r: AfterAttempt)
        ensures
            *final(self) == old(self).after(attempt, accepted),
            r == Self::verdict(attempt, accepted),
            old(self).well_formed() && attempt.marker != 0 ==> final(self).well_formed(),
    {
        if accepted {
            if attempt.probing {
                self.variant = Some(attempt.variant);
            }
            self.last_marker = Some(attempt.marker);
            return AfterAttempt::Accepted;
        }
        if !attempt.probing {
            return AfterAttempt::Refused;
        }
        match attempt.variant {
            UpdateVariant::Legacy => AfterAttempt::Retry(
                Attempt { variant: UpdateVariant::Rex, ..attempt },
            ),
            UpdateVariant::Rex => AfterAttempt::Retry(
                Attempt { variant: UpdateVariant::Zelda, ..attempt },
            ),
            UpdateVariant::Zelda => AfterAttempt::NoLayoutAccepted,
        }
    }

    /// The words of the request to wait for the last accepted update: its marker and a cleared
    /// collision flag. Before any update there is nothing to wait for.
    pub fn wait_request(&self) -> (r: Option<Vec<u32>>)
        ensures
            r is Some <==> self.last_marker is Some,
            r matches Some(words) ==> words@ == seq![self.last_marker->0, 0u32],
    {
        match self.last_marker {
            Some(marker) => {
                let mut words: Vec<u32> = Vec::new();
                words.push(marker);
                words.push(0);
                assert(words@ =~= seq![marker, 0u32]);
                Some(words)
            },
            None => None,
        }
    }

    /// The log after an attempt and all that follow from it, on a kernel that accepts the
    /// layouts for which `accepts` holds.
    pub open spec fn settled(
        self,
        attempt: Attempt,
        accepts: spec_fn(UpdateVariant) -> bool,
    ) -> UpdateLog
        decreases
                (match attempt.variant {
                    UpdateVariant::Legacy => 2int,
                    UpdateVariant::Rex => 1int,
                    UpdateVariant::Zelda => 0int,
                }),
    {
        let accepted = accepts(attempt.variant);
        let log = self.after(attempt, accepted);
        match Self::verdict(attempt, accepted) {
            AfterAttempt::Retry(next) => log.settled(next, accepts),
            _ => log,
        }
    }

    /// The log after a whole update, on such a kernel.
    pub open spec fn updated(self, accepts: spec_fn(UpdateVariant) -> bool) -> UpdateLog {
        self.marker_taken().settled(self.first_attempt(), accepts)
    }

    /// The log after `n` updates, when the kernel accepts the layouts `accepts(i)` at the `i`th.
    pub open spec fn after_updates(
        self,
        accepts: spec_fn(nat) -> spec_fn(UpdateVariant) -> bool,
        n: nat,
    ) -> UpdateLog
        decreases n,
    {
        if n == 0 {
            self
        } else {
            self.after_updates(accepts, (n - 1) as nat).updated(accepts((n - 1) as nat))
        }
    }
}

/// The first layout, from the oldest on, that a kernel accepts.
pub open spec fn first_accepted(accepts: spec_fn(UpdateVariant) -> bool) -> Option<UpdateVariant> {
    if accepts(UpdateVariant::Legacy) {
        Some(UpdateVariant::Legacy)
    } else if accepts(UpdateVariant::Rex) {
        Some(UpdateVariant::Rex)
    } else if accepts(UpdateVariant::Zelda) {
        Some(UpdateVariant::Zelda)
    } else {
        None
    }
}

/// The first update finds the first layout that the kernel accepts, if there is one, and is then
/// the last accepted update.
pub proof fn probing_finds_the_first_accepted_layout(
    log: UpdateLog,
    accepts: spec_fn(UpdateVariant) -> bool,
)
    requires
        log.variant is None,
    ensures
        log.updated(accepts).variant == first_accepted(accepts),
        log.updated(accepts).last_marker == if first_accepted(accepts) is Some {
            Some(log.next_marker)
        } else {
            log.last_marker
        },
        log.updated(accepts).next_marker == marker_after(log.next_marker),
{
    reveal_with_fuel(UpdateLog::settled, 3);
}

/// A known layout is kept, whatever the kernel answers, and needs one attempt for an update. The
/// update takes a marker, and is the last accepted one if the kernel takes the layout.
pub proof fn a_known_layout_is_kept(
    log: UpdateLog,
    accepts: spec_fn(UpdateVariant) -> bool,
    accepted: bool,
)
    requires
        log.variant is Some,
    ensures
        log.updated(accepts).variant == log.variant,
        log.updated(accepts).next_marker == marker_after(log.next_marker),
        log.updated(accepts).last_marker == if accepts(log.variant->0) {
            Some(log.next_marker)
        } else {
            log.last_marker
        },
        !(UpdateLog::verdict(log.first_attempt(), accepted) is Retry),
        log.first_attempt().variant == log.variant->0,
{
    reveal_with_fuel(UpdateLog::settled, 3);
}

/// Every update keeps the log well-formed, whatever the kernel accepts.
pub proof fn updates_keep_the_log_well_formed(
    log: UpdateLog,
    accepts: spec_fn(UpdateVariant) -> bool,
)
    requires
        log.well_formed(),
    ensures
        log.updated(accepts).well_formed(),
{
    reveal_with_fuel(UpdateLog::settled, 3);
}

/// The marker of the `n`th update after one with marker `first`.
pub open spec fn nth_marker(first: u32, n: nat) -> u32
    decreases n,
{
    if n == 0 {
        first
    } else {
        marker_after(nth_marker(first, (n - 1) as nat))
    }
}

/// Markers are not used again before all others were.
pub proof fn markers_are_not_reused(first: u32, i: nat, j: nat)
    requires
        first != 0,
        i < j,
        j - i < u32::MAX,
    ensures
        nth_marker(first, i) != nth_marker(first, j),
        nth_marker(first, i) != 0,
{
    lemma_nth_marker(first, i);
    lemma_nth_marker(first, j);
    let m = u32::MAX as int;
    let a = first - 1 + i;
    let b = first - 1 + j;
    if a % m == b % m {
        vstd::arithmetic::div_mod::lemma_fundamental_div_mod(a, m);
        vstd::arithmetic::div_mod::lemma_fundamental_div_mod(b, m);
        assert(false) by (nonlinear_arith)
            requires
                m == 4294967295,
                a == m * (a / m) + a % m,
                b == m * (b / m) + b % m,
                a % m == b % m,
                0 < b - a < m,
        ;
    }
}

/// The updates of a log take the markers in turn, whatever the kernel accepts at each of them.
pub proof fn updates_take_markers_in_turn(
    log: UpdateLog,
    accepts: spec_fn(nat) -> spec_fn(UpdateVariant) -> bool,
    n: nat,
)
    ensures
        log.after_updates(accepts, n).next_marker == nth_marker(log.next_marker, n),
        log.after_updates(accepts, n).first_attempt().marker == nth_marker(log.next_marker, n),
    decreases n,
{
    if n > 0 {
        let before = log.after_updates(accepts, (n - 1) as nat);
        let kernel = accepts((n - 1) as nat);
        updates_take_markers_in_turn(log, accepts, (n - 1) as nat);
        if before.variant is None {
            probing_finds_the_first_accepted_layout(before, kernel);
        } else {
            a_known_layout_is_kept(before, kernel, true);
        }
    }
}

/// Two updates of a log have different markers, neither of them zero, unless all other markers were
/// used between them.
pub proof fn updates_do_not_share_markers(
    log: UpdateLog,
    accepts: spec_fn(nat) -> spec_fn(UpdateVariant) -> bool,
    i: nat,
    j: nat,
)
    requires
        log.well_formed(),
        i < j,
        j - i < u32::MAX,
    ensures
        log.after_updates(accepts, i).first_attempt().marker != log.after_updates(
            accepts,
            j,
        ).first_attempt().marker,
        log.after_updates(accepts, i).first_attempt().marker != 0,
{
    updates_take_markers_in_turn(log, accepts, i);
    updates_take_markers_in_turn(log, accepts, j);
    markers_are_not_reused(log.next_marker, i, j);
}

/// Markers run through the positive numbers of 32 bits, over and over.
proof fn lemma_nth_marker(first: u32, n: nat)
    requires
        first != 0,
    ensures
        nth_marker(first, n) == (first - 1 + n) % (u32::MAX as int) + 1,
    decreases n,
{
    if n > 0 {
        lemma_nth_marker(first, (n - 1) as nat);
    }
}

/// A framebuffer can be used if and only if its pixels take one byte, it is not empty and its rows
/// hold its width. The depth is looked at first. What can be used is taken as it is.
pub proof fn only_full_gray_panels_can_be_used(
    xres: u32,
    yres: u32,
    bits_per_pixel: u32,
    line_length: u32,
)
    ensures
        ({
            let checked = checked_geometry(xres, yres, bits_per_pixel, line_length);
            &&& checked is Ok <==> bits_per_pixel == 8 && xres > 0 && yres > 0 && xres
                <= line_length
            &&& bits_per_pixel != 8 ==> checked == Err::<Geometry, GeometryError>(
                GeometryError::Depth { bits_per_pixel },
            )
            &&& bits_per_pixel == 8 && checked is Err ==> checked == Err::<Geometry, GeometryError>(
                GeometryError::Size { width: xres, height: yres, stride: line_length as usize },
            )
            &&& checked matches Ok(geometry) ==> {
                &&& geometry.width == xres
                &&& geometry.height == yres
                &&& geometry.stride == line_length
                &&& line_length * yres <= usize::MAX ==> geometry.len == line_length * yres
            }
        }),
{
}

/// The number with the same bits is the same number, but for the sign.
pub proof fn same_bits_keep_the_number(value: i32)
    ensures
        value >= 0 ==> same_bits(value) == value,
        value < 0 ==> same_bits(value) == value + 4294967296,
{
}

/// A rectangle is refreshed in part, where it is and as large as it is, if and only if it is not
/// empty.
pub proof fn a_rectangle_is_refreshed_where_it_is(x: i32, y: i32, width: u32, height: u32)
    ensures
        region_refresh(x, y, width, height) is None <==> width == 0 || height == 0,
        region_refresh(x, y, width, height) matches Some(refresh) ==> {
            &&& refresh.region.top == same_bits(y)
            &&& refresh.region.left == same_bits(x)
            &&& refresh.region.width == width
            &&& refresh.region.height == height
            &&& refresh.waveform == 257
            &&& refresh.mode == 0
        },
{
}

/// A request begins with the region, the waveform, the mode and the marker. Of the other words only
/// the temperature is not zero: the third one in the oldest layout, the first one in the others.
pub proof fn requests_hold_region_waveform_mode_and_marker(
    variant: UpdateVariant,
    refresh: Refresh,
    marker: u32,
)
    ensures
        ({
            let words = request_words(variant, refresh, marker);
            let temperature: int = if variant == UpdateVariant::Legacy {
                9
            } else {
                7
            };
            &&& words[0] == refresh.region.top
            &&& words[1] == refresh.region.left
            &&& words[2] == refresh.region.width
            &&& words[3] == refresh.region.height
            &&& words[4] == refresh.waveform
            &&& words[5] == refresh.mode
            &&& words[6] == marker
            &&& words[temperature] == 0x1000
            &&& forall|i: int|
                7 <= i < words.len() && i != temperature ==> #[trigger] words[i] == 0
        }),
{
}

/// Markers count up and begin again with one, never with zero.
pub proof fn markers_count_up(marker: u32)
    ensures
        marker < u32::MAX ==> marker_after(marker) == marker + 1,
        marker_after(u32::MAX) == 1,
{
}

/// An update starts with the known layout, else with the oldest one and more to try. It takes the
/// marker of the log. An accepted attempt is noted; a refused one changes nothing, and leads to the
/// next layout only while the layout is not known.
pub proof fn attempts_follow_the_log(log: UpdateLog, attempt: Attempt, accepted: bool)
    ensures
        log.first_attempt().marker == log.next_marker,
        log.first_attempt().probing <==> log.variant is None,
        log.variant is None ==> log.first_attempt().variant == UpdateVariant::Legacy,
        log.variant matches Some(known) ==> log.first_attempt().variant == known,
        log.marker_taken().variant == log.variant,
        log.marker_taken().last_marker == log.last_marker,
        log.marker_taken().next_marker == marker_after(log.next_marker),
        log.after(attempt, false) == log,
        log.after(attempt, true).last_marker == Some(attempt.marker),
        log.after(attempt, true).next_marker == log.next_marker,
        attempt.probing ==> log.after(attempt, true).variant == Some(attempt.variant),
        !attempt.probing ==> log.after(attempt, true).variant == log.variant,
        UpdateLog::verdict(attempt, accepted) == AfterAttempt::Accepted <==> accepted,
        UpdateLog::verdict(attempt, accepted) == AfterAttempt::Refused <==> !accepted
            && !attempt.probing,
        UpdateLog::verdict(attempt, accepted) == AfterAttempt::NoLayoutAccepted <==> !accepted
            && attempt.probing && attempt.variant == UpdateVariant::Zelda,
        UpdateLog::verdict(attempt, accepted) matches AfterAttempt::Retry(next) ==> {
            &&& next.marker == attempt.marker
            &&& next.probing
            &&& attempt.variant == UpdateVariant::Legacy ==> next.variant == UpdateVariant::Rex
            &&& attempt.variant == UpdateVariant::Rex ==> next.variant == UpdateVariant::Zelda
        },
{
}

/// The message for a framebuffer names what is wrong with it.
pub proof fn messages_name_what_is_wrong(depth: u32, width: u32, height: u32, stride: usize)
    ensures
        (GeometryError::Depth { bits_per_pixel: depth }).text()
            == "unsupported framebuffer depth: "@ + text::decimal_digits(depth as nat)
            + " bpp (expected 8-bit grayscale)"@,
        (GeometryError::Size { width, height, stride }).text()
            == "invalid framebuffer geometry: "@ + text::decimal_digits(width as nat) + "x"@
            + text::decimal_digits(height as nat) + ", stride="@ + text::decimal_digits(
            stride as nat,
        ),
{
}

} // verus!
