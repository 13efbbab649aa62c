//! Pictures as plain-text PPM: a header with the format's magic number, the
//! grid's columns and rows and the channel maximum 255, then one line per
//! pixel with its three channel values in decimal.
use vstd::prelude::*;

verus! {

/// The channel values of one pixel as they are written to the file.
#[derive(Clone, Copy, Debug, PartialEq, Eq, Structural)]
pub struct Color {
    pub r: i32,
    pub g: i32,
    pub b: i32,
}

/// The decimal digits of a natural number, most significant first, as ASCII.
pub open spec fn digits(n: nat) -> Seq<u8>
    decreases n,
{
    if n < 10 {
        seq![(48 + n) as u8]
    } else {
        digits(n / 10).push((48 + n % 10) as u8)
    }
}

/// An integer in decimal, with a minus sign where it is negative.
pub open spec fn decimal(value: int) -> Seq<u8> {
    if value < 0 {
        seq![45u8] + digits((-value) as nat)
    } else {
        digits(value as nat)
    }
}

/// The header of a picture of `ncols` columns and `nrows` rows: the magic
/// number of plain PPM, the two numbers on a line of their own, and `255`.
pub open spec fn header(ncols: u32, nrows: u32) -> Seq<u8> {
    seq![80u8, 51u8, 10u8] + digits(ncols as nat) + seq![32u8] + digits(nrows as nat) + seq![
        10u8,
        50u8,
        53u8,
        53u8,
        10u8,
    ]
}

/// The line of one pixel: red, green and blue, a space between them.
pub open spec fn line(color: Color) -> Seq<u8> {
    decimal(color.r as int) + seq![32u8] + decimal(color.g as int) + seq![32u8] + decimal(
        color.b as int,
    ) + seq![10u8]
}

/// The lines of all pixels, in order.
pub open spec fn lines(data: Seq<Color>) -> Seq<u8>
    decreases data.len(),
{
    if data.len() == 0 {
        Seq::empty()
    } else {
        lines(data.drop_last()) + line(data.last())
    }
}

/// The abstract value of an `Image`.
pub ghost struct ImageView {
    pub width: u32,
    pub height: u32,
    pub ncols: u32,
    pub nrows: u32,
    pub data: Seq<Color>,
}

/// The whole file of a picture.
pub open spec fn spec_encode(image: ImageView) -> Seq<u8> {
    header(image.ncols, image.nrows) + lines(image.data)
}

/// A picture to be written as plain PPM: its size in pixels, the grid that
/// its header announces, and the pixels pushed so far.
pub struct Image {
    width: u32,
    height: u32,
    ncols: u32,
    nrows: u32,
    data: Vec<Color>,
}

impl View for Image {
    type V = ImageView;

    closed spec fn view(&self) -> ImageView {
        ImageView {
            width: self.width,
            height: self.height,
            ncols: self.ncols,
            nrows: self.nrows,
            data: self.data@,
        }
    }
}

impl Image {
    /// An empty picture whose header announces its own size.
    pub fn new(width: u32, height: u32) -> (image: Self)
        ensures
            image@ == (ImageView {
                width,
                height,
                ncols: width,
                nrows: height,
                data: Seq::empty(),
            }),
    {
        Self::with_col_row(width, height, width, height)
    }

    /// An empty picture whose header announces `ncols` columns and `nrows`
    /// rows.
    pub fn with_col_row(width: u32, height: u32, ncols: u32, nrows: u32) -> (image: Self)
        ensures
            image@ == (ImageView { width, height, ncols, nrows, data: Seq::empty() }),
    {
        Image { width, height, ncols, nrows, data: Vec::new() }
    }

    /// The pixels pushed so far.
    pub fn data(&self) -> (data: &Vec<Color>)
        ensures
            data@ == self@.data,
    {
        &self.data
    }

    /// The picture's width in pixels.
    pub fn width(&self) -> (width: u32)
        ensures
            width == self@.width,
    {
        self.width
    }

    /// The picture's height in pixels.
    pub fn height(&self) -> (height: u32)
        ensures
            height == self@.height,
    {
        self.height
    }

    /// The number of columns that the header announces.
    pub fn ncols(&self) -> (ncols: u32)
        ensures
            ncols == self@.ncols,
    {
        self.ncols
    }

    /// The number of rows that the header announces.
    pub fn nrows(&self) -> (nrows: u32)
        ensures
            nrows == self@.nrows,
    {
        self.nrows
    }

    /// Adds a pixel after those pushed so far.
    pub fn push(&mut self, color: Color)
        ensures
            final(self)@ == (ImageView { data: old(self)@.data.push(color), ..old(self)@ }),
    {
        self.data.push(color);
    }

    /// Drops every pixel; the sizes stay.
    pub fn clear(&mut self)
        ensures
            final(self)@ == (ImageView { data: Seq::empty(), ..old(self)@ }),
    {
        self.data.clear();
    }

    /// The bytes of the picture's file: the header, then the line of each
    /// pixel in the order in which they were pushed.
    pub fn encode(&self) -> (text: Vec<u8>)
        ensures
            text@ == spec_encode(self@),
    {
        let mut text: Vec<u8> = Vec::new();
        text.push(80);
        text.push(51);
        text.push(10);
        push_digits(&mut text, self.ncols as u64);
        text.push(32);
        push_digits(&mut text, self.nrows as u64);
        text.push(10);
        text.push(50);
        text.push(53);
        text.push(53);
        text.push(10);
        assert(text@ =~= header(self.ncols, self.nrows));
        let mut i: usize = 0;
        proof {
            assert(self.data@.take(0) =~= Seq::<Color>::empty());
        }
        while i < self.data.len()
            invariant
                0 <= i <= self.data@.len(),
                text@ == header(self.ncols, self.nrows) + lines(self.data@.take(i as int)),
            decreases self.data@.len() - i,
        {
            let color = self.data[i];
            let ghost before = text@;
            push_decimal(&mut text, color.r);
            text.push(32);
            push_decimal(&mut text, color.g);
            text.push(32);
            push_decimal(&mut text, color.b);
            text.push(10);
            proof {
                assert(text@ =~= before + line(color));
                assert(self.data@.take(i + 1).drop_last() =~= self.data@.take(i as int));
                assert(self.data@.take(i + 1).last() == color);
                assert(text@ =~= header(self.ncols, self.nrows) + lines(
                    self.data@.take(i + 1),
                ));
            }
            i += 1;
        }
        proof {
            assert(self.data@.take(i as int) =~= self.data@);
        }
        text
    }
}

/// Appends a natural number in decimal.
fn push_digits(text: &mut Vec<u8>, n: u64)
    ensures
        final(text)@ == old(text)@ + digits(n as nat),
    decreases n,
{
    if n >= 10 {
        push_digits(text, n / 10);
    }
    let digit: u8 = (n % 10) as u8;
    text.push(48 + digit);
    assert(final(text)@ =~= old(text)@ + digits(n as nat));
}

/// Appends an integer in decimal.
fn push_decimal(text: &mut Vec<u8>, value: i32)
    ensures
        final(text)@ == old(text)@ + decimal(value as int),
{
    if value < 0 {
        text.push(45);
        let magnitude: i64 = -(value as i64);
        push_digits(text, magnitude as u64);
        assert(final(text)@ =~= old(text)@ + decimal(value as int));
    } else {
        push_digits(text, value as u64);
    }
}

} // verus!
