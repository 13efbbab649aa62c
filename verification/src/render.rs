//! From tone-mapped pixel colours to the finished picture.
//!
//! Colours arrive in the order in which pixels are sampled: row after row,
//! with row zero at the bottom of the world. The picture that leaves holds
//! them as RGBA samples with row zero at the top, fully opaque.
use crate::math::RectSize;
use image::imageops::flip_vertical;
use image::ImageBuffer;
use image::Rgba;
use vstd::arithmetic::div_mod::lemma_fundamental_div_mod;
use vstd::prelude::*;

verus! {

/// Samples taken per pixel where the caller asks for no other number.
pub const NUM_SAMPLES: u32 = 10;

/// Bounces allowed per ray where the caller asks for no other number.
pub const MAX_SCATTER_DEPTH: u32 = 50;

/// The colour of one pixel after tone mapping.
#[derive(Clone, Copy, Debug, PartialEq, Eq, Structural)]
pub struct Rgb {
    pub r: u8,
    pub g: u8,
    pub b: u8,
}

impl Rgb {
    /// The sample that the colour puts in channel `channel` of an RGBA
    /// pixel: red, green, blue, then full opacity.
    pub open spec fn sample(self, channel: int) -> u8 {
        if channel == 0 {
            self.r
        } else if channel == 1 {
            self.g
        } else if channel == 2 {
            self.b
        } else {
            255
        }
    }
}

/// The place of a sample in a row-major RGBA buffer of the given width.
pub open spec fn sample_index(width: int, x: int, y: int, channel: int) -> int {
    (y * width + x) * 4 + channel
}

/// The place of channel `channel` of the pixel that is `pixel` steps into a
/// row-major RGBA buffer.
spec fn slot(pixel: int, channel: int) -> int {
    4 * pixel + channel
}

/// A picture in the making: an RGBA buffer of the `image` crate. Verus sees
/// it only through `frame_size` and `frame_samples`.
#[verifier::external_body]
pub struct Frame {
    buffer: ImageBuffer<Rgba<u8>, Vec<u8>>,
}

/// The width and the height that a frame was made with, in pixels.
pub uninterp spec fn frame_size(frame: Frame) -> (int, int);

/// The samples of a frame, row-major, four to a pixel.
pub uninterp spec fn frame_samples(frame: Frame) -> Seq<u8>;

/// The width of a frame in pixels.
pub open spec fn frame_width(frame: Frame) -> int {
    frame_size(frame).0
}

/// The height of a frame in pixels.
pub open spec fn frame_height(frame: Frame) -> int {
    frame_size(frame).1
}

/// `image::ImageBuffer::new`: a buffer of the given size whose samples are
/// all zero. It computes the buffer's length as four times the width, times
/// the height, and panics where either product leaves `usize` or where the
/// length is more than a vector can hold; the `requires` keeps four times the
/// width in `usize` and the length within `isize::MAX`, which covers both
/// products.
#[verifier::external_body]
fn frame_new(width: u32, height: u32) -> (frame: Frame)
    requires
        4 * width <= usize::MAX,
        4 * (width * height) <= isize::MAX,
    ensures
        frame_size(frame) == (width as int, height as int),
        frame_samples(frame) == Seq::new((4 * (width * height)) as nat, |i: int| 0u8),
{
    Frame { buffer: ImageBuffer::new(width, height) }
}

/// `image::ImageBuffer::put_pixel`: stores the four samples of the pixel at
/// `(x, y)` and leaves every other sample and the size as they were. It
/// panics outside the frame, which the `requires` rules out.
#[verifier::external_body]
fn frame_put(frame: &mut Frame, x: u32, y: u32, r: u8, g: u8, b: u8, a: u8)
    requires
        x < frame_width(*old(frame)),
        y < frame_height(*old(frame)),
        frame_samples(*old(frame)).len() == 4 * (frame_width(*old(frame)) * frame_height(
            *old(frame),
        )),
    ensures
        frame_size(*final(frame)) == frame_size(*old(frame)),
        frame_samples(*final(frame)) == frame_samples(*old(frame)).update(
            sample_index(frame_width(*old(frame)), x as int, y as int, 0),
            r,
        ).update(sample_index(frame_width(*old(frame)), x as int, y as int, 1), g).update(
            sample_index(frame_width(*old(frame)), x as int, y as int, 2),
            b,
        ).update(sample_index(frame_width(*old(frame)), x as int, y as int, 3), a),
{
    frame.buffer.put_pixel(x, y, Rgba([r, g, b, a]));
}

/// `image::imageops::flip_vertical`: a new buffer of the same size in which
/// the pixel at `(x, y)` is the one that the given buffer has at
/// `(x, height - 1 - y)`. It makes the new buffer with
/// `image::ImageBuffer::new`, so the `requires` asks of the size what
/// `frame_new` asks.
#[verifier::external_body]
fn frame_flip(frame: &Frame) -> (flipped: Frame)
    requires
        0 <= frame_width(*frame),
        0 <= frame_height(*frame),
        4 * frame_width(*frame) <= usize::MAX,
        4 * (frame_width(*frame) * frame_height(*frame)) <= isize::MAX,
        frame_samples(*frame).len() == 4 * (frame_width(*frame) * frame_height(*frame)),
    ensures
        frame_size(flipped) == frame_size(*frame),
        frame_samples(flipped).len() == 4 * (frame_width(*frame) * frame_height(*frame)),
        forall|x: int, y: int, channel: int|
            0 <= x < frame_width(*frame) && 0 <= y < frame_height(*frame) && 0 <= channel < 4
                ==> frame_samples(flipped)[#[trigger] sample_index(
                frame_width(*frame),
                x,
                y,
                channel,
            )] == frame_samples(*frame)[sample_index(
                frame_width(*frame),
                x,
                frame_height(*frame) - 1 - y,
                channel,
            )],
{
    Frame { buffer: flip_vertical(&frame.buffer) }
}

/// `image::ImageBuffer::into_raw`: the samples of the buffer as a vector.
#[verifier::external_body]
fn frame_into_raw(frame: Frame) -> (samples: Vec<u8>)
    ensures
        samples@ == frame_samples(frame),
{
    frame.buffer.into_raw()
}

/// The pixel that the sampling order visits at step `index`: pixels are
/// visited row by row, each row from left to right.
pub fn pixel_at(size: RectSize, index: u64) -> (at: (u32, u32))
    requires
        index < size.width * size.height,
    ensures
        at.0 < size.width,
        at.1 < size.height,
        index == at.1 * size.width + at.0,
{
    assert(size.width > 0) by (nonlinear_arith)
        requires
            index < size.width * size.height,
    ;
    let width = size.width as u64;
    let x = index % width;
    let y = index / width;
    proof {
        lemma_fundamental_div_mod(index as int, width as int);
        assert(y < size.height) by (nonlinear_arith)
            requires
                index == width * y + x,
                index < width * size.height,
                0 <= x,
                0 < width,
        ;
        assert(width * y == y * width) by (nonlinear_arith);
    }
    (x as u32, y as u32)
}

/// The seed of the generator that samples the pixel visited at step `index`
/// of a render seeded with `seed`: their sum, wrapped to 64 bits.
pub open spec fn spec_pixel_seed(seed: u64, index: u64) -> u64 {
    if seed + index > u64::MAX {
        (seed + index - 0x1_0000_0000_0000_0000) as u64
    } else {
        (seed + index) as u64
    }
}

/// Derives the seed of one pixel's generator from the seed of the render,
/// so that a pixel's samples do not depend on which worker takes it or on
/// what that worker sampled before.
pub fn pixel_seed(seed: u64, index: u64) -> (derived: u64)
    ensures
        derived == spec_pixel_seed(seed, index),
{
    if index > u64::MAX - seed {
        index - (u64::MAX - seed) - 1
    } else {
        seed + index
    }
}

/// No two pixels of a render share a seed.
pub proof fn lemma_pixel_seeds_differ(seed: u64, first: u64, second: u64)
    requires
        first != second,
    ensures
        spec_pixel_seed(seed, first) != spec_pixel_seed(seed, second),
{
}

/// Stores a colour at `(x, y)`, fully opaque.
fn write_color(frame: &mut Frame, x: u32, y: u32, color: Rgb)
    requires
        x < frame_width(*old(frame)),
        y < frame_height(*old(frame)),
        frame_samples(*old(frame)).len() == 4 * (frame_width(*old(frame)) * frame_height(
            *old(frame),
        )),
    ensures
        frame_size(*final(frame)) == frame_size(*old(frame)),
        frame_samples(*final(frame)).len() == frame_samples(*old(frame)).len(),
        forall|i: int|
            0 <= i < frame_samples(*old(frame)).len() ==> #[trigger] frame_samples(
                *final(frame),
            )[i] == if 4 * (y * frame_width(*old(frame)) + x) <= i < 4 * (y * frame_width(
                *old(frame),
            ) + x) + 4 {
                color.sample(i - 4 * (y * frame_width(*old(frame)) + x))
            } else {
                frame_samples(*old(frame))[i]
            },
{
    proof {
        let w = frame_width(*frame);
        let h = frame_height(*frame);
        assert((y * w + x) * 4 + 4 <= 4 * (w * h)) by (nonlinear_arith)
            requires
                0 <= x < w,
                0 <= y < h,
        ;
    }
    frame_put(frame, x, y, color.r, color.g, color.b, 255);
}

/// The finished picture for the colours of a render: `4 * width * height`
/// samples, row-major with the top row first, in which the pixel at
/// `(x, y)` shows the colour that was sampled for column `x` of row
/// `height - 1 - y`, fully opaque. A row of samples must fit in `usize` and
/// the whole picture in a vector.
pub fn compose(size: RectSize, colors: &Vec<Rgb>) -> (picture: Vec<u8>)
    requires
        colors@.len() == size.width * size.height,
        4 * size.width <= usize::MAX,
        4 * (size.width * size.height) <= isize::MAX,
    ensures
        picture@.len() == 4 * (size.width * size.height),
        forall|x: int, y: int, channel: int|
            0 <= x < size.width && 0 <= y < size.height && 0 <= channel < 4
                ==> picture@[#[trigger] sample_index(size.width as int, x, y, channel)]
                == colors@[(size.height - 1 - y) * size.width + x].sample(channel),
{
    let width = size.width;
    let height = size.height;
    let ghost w = width as int;
    let ghost h = height as int;
    let mut frame = frame_new(width, height);
    let mut y: u32 = 0;
    while y < height
        invariant
            0 <= y <= height,
            w == width,
            h == height,
            colors@.len() == w * h,
            4 * (w * h) <= isize::MAX,
            frame_width(frame) == w,
            frame_height(frame) == h,
            frame_samples(frame).len() == 4 * (w * h),
            forall|p: int, channel: int|
                0 <= p < y * w && 0 <= channel < 4 ==> frame_samples(frame)[#[trigger] slot(
                    p,
                    channel,
                )] == colors@[p].sample(channel),
        decreases height - y,
    {
        let mut x: u32 = 0;
        proof {
            lemma_row_bounds(w, h, y as int);
        }
        while x < width
            invariant
                0 <= x <= width,
                0 <= y < height,
                w == width,
                h == height,
                colors@.len() == w * h,
                4 * (w * h) <= isize::MAX,
                (y + 1) * w <= w * h,
                0 <= y * w,
                frame_width(frame) == w,
                frame_height(frame) == h,
                frame_samples(frame).len() == 4 * (w * h),
                forall|p: int, channel: int|
                    0 <= p < y * w + x && 0 <= channel < 4 ==> frame_samples(
                        frame,
                    )[#[trigger] slot(p, channel)] == colors@[p].sample(channel),
            decreases width - x,
        {
            proof {
                assert((y + 1) * w == y * w + w) by (nonlinear_arith);
            }
            let place = (y as usize) * (width as usize) + (x as usize);
            let ghost before = frame_samples(frame);
            write_color(&mut frame, x, y, colors[place]);
            proof {
                assert forall|p: int, channel: int|
                    0 <= p < y * w + x + 1 && 0 <= channel < 4 implies frame_samples(
                    frame,
                )[#[trigger] slot(p, channel)] == colors@[p].sample(channel) by {
                    let i = slot(p, channel);
                    assert(0 <= i < before.len());
                    if p < y * w + x {
                        assert(frame_samples(frame)[i] == before[i]);
                    }
                }
            }
            x += 1;
        }
        proof {
            assert((y + 1) * w == y * w + w) by (nonlinear_arith);
        }
        y += 1;
    }
    let flipped = frame_flip(&frame);
    let picture = frame_into_raw(flipped);
    proof {
        assert forall|x: int, y: int, channel: int|
            0 <= x < w && 0 <= y < h && 0 <= channel < 4 implies picture@[#[trigger] sample_index(
            w,
            x,
            y,
            channel,
        )] == colors@[(h - 1 - y) * w + x].sample(channel) by {
            let row = h - 1 - y;
            lemma_row_bounds(w, h, row);
            assert((row + 1) * w == row * w + w) by (nonlinear_arith);
            assert(h * w == w * h) by (nonlinear_arith);
            let p = row * w + x;
            assert(sample_index(w, x, row, channel) == slot(p, channel));
        }
    }
    picture
}

/// A row of a grid starts and ends inside the grid.
proof fn lemma_row_bounds(w: int, h: int, row: int)
    by (nonlinear_arith)
    requires
        0 <= row < h,
        0 <= w,
    ensures
        0 <= row * w,
        (row + 1) * w <= w * h,
{
}

} // verus!
