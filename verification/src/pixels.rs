//! From rendered colours to the bytes of an 8-bit grayscale framebuffer.

use vstd::prelude::*;

verus! {

// ---------------------------------------------------------------------------
// Colours
// ---------------------------------------------------------------------------

/// A rendered pixel.
#[derive(Clone, Copy, Debug, PartialEq, Eq)]
pub struct Rgb8Pixel {
    pub r: u8,
    pub g: u8,
    pub b: u8,
}

/// The BT.601 luma of a colour, with weights that are scaled by 256.
pub open spec fn luma(pixel: Rgb8Pixel) -> int {
    (77 * pixel.r + 150 * pixel.g + 29 * pixel.b) / 256
}

/// The byte that shows a colour: its luma, or black or white alone.
pub open spec fn gray_of(pixel: Rgb8Pixel, black_and_white: bool) -> u8 {
    if black_and_white {
        if luma(pixel) < 128 {
            0x00
        } else {
            0xff
        }
    } else {
        luma(pixel) as u8
    }
}

/// The bytes that show a row of colours.
pub open spec fn gray_row(rgb: Seq<Rgb8Pixel>, black_and_white: bool) -> Seq<u8> {
    Seq::new(rgb.len(), |i: int| gray_of(rgb[i], black_and_white))
}

/// Converts a row of colours to bytes.
pub fn rgb_to_gray(rgb: &[Rgb8Pixel], gray: &mut [u8], black_and_white: bool)
    requires
        rgb@.len() == old(gray)@.len(),
    ensures
        final(gray)@ == gray_row(rgb@, black_and_white),
{
    let mut i: usize = 0;
    while i < rgb.len()
        invariant
            i <= rgb@.len(),
            gray@.len() == rgb@.len(),
            forall|j: int| 0 <= j < i ==> gray@[j] == gray_of(#[trigger] rgb@[j], black_and_white),
        decreases rgb@.len() - i,
    {
        let pixel = rgb[i];
        let sum: u32 = 77 * (pixel.r as u32) + 150 * (pixel.g as u32) + 29 * (pixel.b as u32);
        assert(sum >> 8 == sum / 256) by (bit_vector);
        let value: u8 = (sum >> 8) as u8;
        assert(value == luma(pixel));
        gray[i] = if black_and_white {
            if value < 128 {
                0x00
            } else {
                0xff
            }
        } else {
            value
        };
        i = i + 1;
    }
    assert(gray@ =~= gray_row(rgb@, black_and_white));
}

/// A colour without hue is shown by its own value.
pub proof fn grays_keep_their_value(value: u8)
    ensures
        gray_of((Rgb8Pixel { r: value, g: value, b: value }), false) == value,
{
}

/// A brighter colour is never shown darker.
pub proof fn brighter_is_not_darker(a: Rgb8Pixel, b: Rgb8Pixel, black_and_white: bool)
    requires
        a.r <= b.r,
        a.g <= b.g,
        a.b <= b.b,
    ensures
        gray_of(a, black_and_white) <= gray_of(b, black_and_white),
{
    assert(0 <= luma(a) <= luma(b) <= 255);
}

/// Bilevel output is the grayscale output cut at the middle.
pub proof fn bilevel_cuts_the_gray_value(pixel: Rgb8Pixel)
    ensures
        gray_of(pixel, true) == if gray_of(pixel, false) < 128 {
            0x00u8
        } else {
            0xffu8
        },
{
    assert(0 <= luma(pixel) <= 255);
}

// ---------------------------------------------------------------------------
// The mapped memory
// ---------------------------------------------------------------------------

/// `memory` with `pixels` written from position `at` on.
pub open spec fn overwritten(memory: Seq<u8>, at: int, pixels: Seq<u8>) -> Seq<u8> {
    memory.take(at) + pixels + memory.skip(at + pixels.len())
}

/// Writes a horizontal span of pixels into row `y`, from column `x` on.
pub fn write_line(memory: &mut [u8], stride: usize, y: usize, x: usize, pixels: &[u8])
    requires
        y * stride + x + pixels@.len() <= old(memory)@.len(),
    ensures
        final(memory)@ == overwritten(old(memory)@, y * stride + x, pixels@),
{
    let ghost before = memory@;
    assert(memory.len() == memory@.len());
    assert(y * stride >= 0) by (nonlinear_arith);
    let at: usize = y * stride + x;
    let mut i: usize = 0;
    while i < pixels.len()
        invariant
            i <= pixels@.len(),
            at + pixels@.len() <= memory@.len(),
            memory@.len() == before.len(),
            memory.len() == memory@.len(),
            forall|j: int|
                0 <= j < before.len() ==> #[trigger] memory@[j] == if at <= j < at + i {
                    pixels@[j - at]
                } else {
                    before[j]
                },
        decreases pixels@.len() - i,
    {
        memory[at + i] = pixels[i];
        i = i + 1;
    }
    assert(memory@ =~= overwritten(before, at as int, pixels@));
}

/// The position is on the visible part of its row.
pub open spec fn visible(at: int, stride: int, width: int, height: int) -> bool {
    at / stride < height && at % stride < width
}

/// `memory` with every visible pixel of `height` rows set to `value`.
pub open spec fn filled(memory: Seq<u8>, stride: int, width: int, height: int, value: u8) -> Seq<
    u8,
> {
    Seq::new(
        memory.len(),
        |i: int|
            if visible(i, stride, width, height) {
                value
            } else {
                memory[i]
            },
    )
}

/// Row `y`, column `x` stands at `y * stride + x`, and nowhere else.
proof fn lemma_position(at: int, stride: int, x: int, y: int)
    requires
        0 < stride,
        0 <= at,
        0 <= x < stride,
        0 <= y,
    ensures
        at == y * stride + x <==> at / stride == y && at % stride == x,
{
    vstd::arithmetic::div_mod::lemma_fundamental_div_mod(at, stride);
    assert(stride * (at / stride) == (at / stride) * stride) by (nonlinear_arith);
    if at == y * stride + x {
        vstd::arithmetic::div_mod::lemma_fundamental_div_mod_converse(at, stride, y, x);
    }
}

/// The positions of a span of a row.
proof fn lemma_span(at: int, stride: int, x: int, w: int, y: int)
    requires
        0 < stride,
        0 <= at,
        0 <= x,
        0 <= w,
        x + w <= stride,
        0 <= y,
    ensures
        y * stride + x <= at < y * stride + x + w <==> at / stride == y && x <= at % stride < x + w,
{
    if y * stride + x <= at < y * stride + x + w {
        lemma_position(at, stride, at - y * stride, y);
    }
    if at / stride == y && x <= at % stride < x + w {
        lemma_position(at, stride, at % stride, y);
    }
}

/// A row that comes earlier ends before a later one begins.
proof fn lemma_rows(y: int, height: int, stride: int)
    requires
        0 <= y < height,
        0 <= stride,
    ensures
        y * stride + stride <= height * stride,
        0 <= y * stride,
{
    assert(y * stride + stride <= height * stride) by (nonlinear_arith)
        requires
            0 <= y < height,
            0 <= stride,
    ;
    assert(0 <= y * stride) by (nonlinear_arith)
        requires
            0 <= y,
            0 <= stride,
    ;
}

/// Fills the visible area with one value; the padding of the rows is left alone.
pub fn fill(memory: &mut [u8], stride: usize, width: u32, height: u32, value: u8)
    requires
        0 < stride,
        width as int <= stride,
        height * stride <= old(memory)@.len(),
    ensures
        final(memory)@ == filled(
            old(memory)@,
            stride as int,
            width as int,
            height as int,
            value,
        ),
{
    let ghost before = memory@;
    let mut y: u32 = 0;
    assert(memory@ =~= filled(before, stride as int, width as int, 0, value)) by {
        assert forall|i: int| 0 <= i < before.len() implies !visible(
            i,
            stride as int,
            width as int,
            0,
        ) by {
            vstd::arithmetic::div_mod::lemma_div_pos_is_pos(i, stride as int);
        }
    }
    while y < height
        invariant
            0 < stride,
            width as int <= stride,
            y <= height,
            memory@.len() == before.len(),
            height * stride <= memory.len(),
            memory@ == filled(before, stride as int, width as int, y as int, value),
        decreases height - y,
    {
        proof {
            lemma_rows(y as int, height as int, stride as int);
        }
        let start: usize = y as usize * stride;
        let mut x: u32 = 0;
        assert forall|i: int| 0 <= i < before.len() implies !(#[trigger] (i % (stride as int))
            < 0) by {
            vstd::arithmetic::div_mod::lemma_fundamental_div_mod(i, stride as int);
        }
        while x < width
            invariant
                0 < stride,
                x <= width,
                width as int <= stride,
                start == y * stride,
                start + width <= memory.len(),
                memory@.len() == before.len(),
                forall|i: int|
                    0 <= i < before.len() ==> #[trigger] memory@[i] == if visible(
                        i,
                        stride as int,
                        width as int,
                        y as int,
                    ) || (i / (stride as int) == y && i % (stride as int) < x) {
                        value
                    } else {
                        before[i]
                    },
            decreases width - x,
        {
            memory[start + x as usize] = value;
            assert forall|i: int| 0 <= i < before.len() implies #[trigger] memory@[i] == (
            if visible(i, stride as int, width as int, y as int) || (i / (stride as int) == y && i
                % (stride as int) <= x) {
                value
            } else {
                before[i]
            }) by {
                lemma_position(i, stride as int, x as int, y as int);
            }
            x = x + 1;
        }
        y = y + 1;
        assert(memory@ =~= filled(before, stride as int, width as int, y as int, value));
    }
}

// ---------------------------------------------------------------------------
// Presenting what was rendered
// ---------------------------------------------------------------------------

/// A rectangle of the panel, in pixels.
#[derive(Clone, Copy, Debug, PartialEq, Eq)]
pub struct Area {
    pub x: usize,
    pub y: usize,
    pub width: usize,
    pub height: usize,
}

impl Area {
    /// The pixel in column `x` of row `y` is in the rectangle.
    pub open spec fn holds(self, x: int, y: int) -> bool {
        self.x <= x < self.x + self.width && self.y <= y < self.y + self.height
    }
}

/// `memory` with the pixels of `area` taken from the rendered frame, whose rows are `width` long.
pub open spec fn presented(
    memory: Seq<u8>,
    stride: int,
    frame: Seq<Rgb8Pixel>,
    width: int,
    area: Area,
    black_and_white: bool,
) -> Seq<u8> {
    Seq::new(
        memory.len(),
        |i: int|
            if area.holds(i % stride, i / stride) {
                gray_of(frame[(i / stride) * width + i % stride], black_and_white)
            } else {
                memory[i]
            },
    )
}

/// Converts the pixels of `area` and writes them into the framebuffer. `scratch` holds one
/// converted row at a time.
pub fn present_area(
    frame: &[Rgb8Pixel],
    width: usize,
    area: Area,
    black_and_white: bool,
    scratch: &mut [u8],
    memory: &mut [u8],
    stride: usize,
)
    requires
        0 < stride,
        width <= stride,
        area.x + area.width <= width,
        (area.y + area.height) * width <= frame@.len(),
        (area.y + area.height) * stride <= old(memory)@.len(),
        area.width <= old(scratch)@.len(),
    ensures
        final(memory)@ == presented(
            old(memory)@,
            stride as int,
            frame@,
            width as int,
            area,
            black_and_white,
        ),
        final(scratch)@.len() == old(scratch)@.len(),
{
    let ghost before = memory@;
    let ghost none = Area { x: area.x, y: area.y, width: area.width, height: 0 };
    let mut row: usize = 0;
    assert(memory@ =~= presented(
        before,
        stride as int,
        frame@,
        width as int,
        none,
        black_and_white,
    ));
    while row < area.height
        invariant
            0 < stride,
            width <= stride,
            row <= area.height,
            area.x + area.width <= width,
            (area.y + area.height) * width <= frame.len(),
            (area.y + area.height) * stride <= memory.len(),
            memory@.len() == before.len(),
            scratch@.len() == old(scratch)@.len(),
            area.width <= scratch@.len(),
            memory@ == presented(
                before,
                stride as int,
                frame@,
                width as int,
                (Area { x: area.x, y: area.y, width: area.width, height: row }),
                black_and_white,
            ),
        decreases area.height - row,
    {
        proof {
            lemma_rows(area.y + row, area.y + area.height, width as int);
            lemma_rows(area.y + row, area.y + area.height, stride as int);
            assert(area.y + area.height <= memory.len()) by (nonlinear_arith)
                requires
                    0 < stride,
                    0 <= area.y + area.height,
                    (area.y + area.height) * stride <= memory.len(),
            ;
        }
        let y: usize = area.y + row;
        let start: usize = y * width + area.x;
        let ghost earlier = memory@;
        let (gray, _) = scratch.split_at_mut(area.width);
        rgb_to_gray(&frame[start..start + area.width], gray, black_and_white);
        write_line(memory, stride, y, area.x, gray);
        row = row + 1;
        assert(memory@ =~= presented(
            before,
            stride as int,
            frame@,
            width as int,
            (Area { x: area.x, y: area.y, width: area.width, height: row }),
            black_and_white,
        )) by {
            assert forall|i: int| 0 <= i < before.len() implies #[trigger] memory@[i] == (
            if (Area { x: area.x, y: area.y, width: area.width, height: row }).holds(
                i % (stride as int),
                i / (stride as int),
            ) {
                gray_of(
                    frame@[(i / (stride as int)) * width + i % (stride as int)],
                    black_and_white,
                )
            } else {
                before[i]
            }) by {
                lemma_span(i, stride as int, area.x as int, area.width as int, y as int);
                if y * stride + area.x <= i < y * stride + area.x + area.width {
                    lemma_position(i, stride as int, i % (stride as int), y as int);
                    assert(memory@[i] == gray_row(
                        frame@.subrange(start as int, start + area.width),
                        black_and_white,
                    )[i - (y * stride + area.x)]);
                } else {
                    assert(memory@[i] == earlier[i]);
                }
            }
        }
    }
}

/// The number of columns from `start` up to `end`.
pub open spec fn span_len(start: usize, end: usize) -> int {
    if start < end {
        end - start
    } else {
        0
    }
}

/// Converts one rendered line and writes it into row `line` of the framebuffer, in the columns
/// from `start` up to `end`.
pub fn process_line(
    line: usize,
    start: usize,
    end: usize,
    rendered: &[Rgb8Pixel],
    black_and_white: bool,
    scratch: &mut [u8],
    memory: &mut [u8],
    stride: usize,
)
    requires
        span_len(start, end) <= rendered@.len(),
        span_len(start, end) <= old(scratch)@.len(),
        line * stride + start + span_len(start, end) <= old(memory)@.len(),
    ensures
        final(memory)@ == overwritten(
            old(memory)@,
            line * stride + start,
            gray_row(rendered@.take(span_len(start, end)), black_and_white),
        ),
        final(scratch)@.len() == old(scratch)@.len(),
{
    let length: usize = if start < end {
        end - start
    } else {
        0
    };
    let (gray, _) = scratch.split_at_mut(length);
    rgb_to_gray(&rendered[0..length], gray, black_and_white);
    assert(rendered@.subrange(0, length as int) =~= rendered@.take(length as int));
    write_line(memory, stride, line, start, gray);
}

/// Presenting an area of one row is writing that line of the frame, converted.
pub proof fn a_line_is_an_area_of_one_row(
    memory: Seq<u8>,
    stride: int,
    frame: Seq<Rgb8Pixel>,
    width: int,
    area: Area,
    black_and_white: bool,
)
    requires
        0 < stride,
        width <= stride,
        area.height == 1,
        area.x + area.width <= width,
        (area.y + 1) * width <= frame.len(),
        (area.y + 1) * stride <= memory.len(),
    ensures
        presented(memory, stride, frame, width, area, black_and_white) == overwritten(
            memory,
            area.y * stride + area.x,
            gray_row(
                frame.subrange(
                    area.y * width + area.x,
                    area.y * width + area.x + area.width,
                ),
                black_and_white,
            ),
        ),
{
    lemma_rows(area.y as int, area.y + 1, width);
    lemma_rows(area.y as int, area.y + 1, stride);
    let at = area.y * stride + area.x;
    let line = gray_row(
        frame.subrange(area.y * width + area.x, area.y * width + area.x + area.width),
        black_and_white,
    );
    let whole = presented(memory, stride, frame, width, area, black_and_white);
    assert forall|i: int| 0 <= i < memory.len() implies whole[i] == overwritten(
        memory,
        at,
        line,
    )[i] by {
        lemma_span(i, stride, area.x as int, area.width as int, area.y as int);
        if at <= i < at + area.width {
            lemma_position(i, stride, i % stride, area.y as int);
        }
    }
    assert(whole =~= overwritten(memory, at, line));
}

/// Filling touches no padding, and every visible pixel afterwards has the value.
pub proof fn fill_covers_the_visible_area(
    memory: Seq<u8>,
    stride: int,
    width: int,
    height: int,
    value: u8,
    x: int,
    y: int,
)
    requires
        0 <= x < stride,
        0 <= y < height,
        height * stride <= memory.len(),
    ensures
        0 <= y * stride + x < memory.len(),
        filled(memory, stride, width, height, value)[y * stride + x] == if x < width {
            value
        } else {
            memory[y * stride + x]
        },
{
    lemma_rows(y, height, stride);
    lemma_position(y * stride + x, stride, x, y);
}

/// The number of pixels of a frame, as far as it can be counted.
pub fn frame_pixels(width: usize, height: usize) -> (r: usize)
    ensures
        r as int == if width * height <= usize::MAX {
            width * height
        } else {
            usize::MAX as int
        },
{
    match width.checked_mul(height) {
        Some(pixels) => pixels,
        None => usize::MAX,
    }
}

/// The gray value of a colour is the weighted mean of its parts, rounded down, with the weights 77,
/// 150 and 29 of 256.
pub proof fn gray_is_the_weighted_mean(pixel: Rgb8Pixel)
    ensures
        256 * gray_of(pixel, false) <= 77 * pixel.r + 150 * pixel.g + 29 * pixel.b < 256 * gray_of(
            pixel,
            false,
        ) + 256,
        gray_of(pixel, true) == 0xff <==> 77 * pixel.r + 150 * pixel.g + 29 * pixel.b >= 32768,
        gray_of(pixel, true) == 0x00 <==> 77 * pixel.r + 150 * pixel.g + 29 * pixel.b < 32768,
{
    assert(0 <= luma(pixel) <= 255);
}

/// A row is converted pixel by pixel.
pub proof fn a_row_is_converted_pixel_by_pixel(rgb: Seq<Rgb8Pixel>, black_and_white: bool, i: int)
    requires
        0 <= i < rgb.len(),
    ensures
        gray_row(rgb, black_and_white).len() == rgb.len(),
        gray_row(rgb, black_and_white)[i] == gray_of(rgb[i], black_and_white),
{
}

/// Writing pixels puts each in its place and leaves the rest of the memory alone.
pub proof fn writing_touches_its_place_only(memory: Seq<u8>, at: int, pixels: Seq<u8>, i: int)
    requires
        0 <= at,
        at + pixels.len() <= memory.len(),
        0 <= i < memory.len(),
    ensures
        overwritten(memory, at, pixels).len() == memory.len(),
        at <= i < at + pixels.len() ==> overwritten(memory, at, pixels)[i] == pixels[i - at],
        i < at || at + pixels.len() <= i ==> overwritten(memory, at, pixels)[i] == memory[i],
{
}

/// Filling leaves alone what lies after the last row.
pub proof fn fill_ends_with_the_last_row(
    memory: Seq<u8>,
    stride: int,
    width: int,
    height: int,
    value: u8,
    i: int,
)
    requires
        0 < stride,
        0 <= height,
        height * stride <= i < memory.len(),
        0 <= i,
    ensures
        filled(memory, stride, width, height, value).len() == memory.len(),
        filled(memory, stride, width, height, value)[i] == memory[i],
{
    vstd::arithmetic::div_mod::lemma_fundamental_div_mod(i, stride);
    if i / stride < height {
        let q = i / stride;
        assert(stride * q + i % stride < height * stride) by (nonlinear_arith)
            requires
                q < height,
                0 <= i % stride < stride,
                0 < stride,
        ;
    }
}

/// Presenting an area shows its pixels of the frame, each in its place, and leaves every other
/// position alone: the pixels beside the area and the padding of the rows.
pub proof fn presenting_shows_the_area_only(
    memory: Seq<u8>,
    stride: int,
    frame: Seq<Rgb8Pixel>,
    width: int,
    area: Area,
    black_and_white: bool,
    x: int,
    y: int,
)
    requires
        0 <= x < stride,
        0 <= y,
        0 <= y * stride + x < memory.len(),
    ensures
        ({
            let after = presented(memory, stride, frame, width, area, black_and_white);
            &&& after.len() == memory.len()
            &&& area.x <= x < area.x + area.width && area.y <= y < area.y + area.height ==> after[y
                * stride + x] == gray_of(frame[y * width + x], black_and_white)
            &&& !(area.x <= x < area.x + area.width && area.y <= y < area.y + area.height)
                ==> after[y * stride + x] == memory[y * stride + x]
        }),
{
    lemma_position(y * stride + x, stride, x, y);
}

/// A range of columns is as long as its end is after its start.
pub proof fn a_span_runs_from_start_to_end(start: usize, end: usize)
    ensures
        start <= end ==> span_len(start, end) == end - start,
        end <= start ==> span_len(start, end) == 0,
{
}

} // verus!
