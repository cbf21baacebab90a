//! Raster images and their plain-text encoding: a header `P3`, the width
//! and height, the largest sample value, then the pixels as decimal
//! triples, one scanline to a line.

use vstd::prelude::*;

verus! {

#[derive(Debug, Clone, Copy)]
pub struct Pixel {
    pub r: u8,
    pub g: u8,
    pub b: u8,
}

#[derive(Debug, Clone)]
pub struct Image {
    pub width: u32,
    pub height: u32,
    pub max_value: u8,
    pub data: Vec<Pixel>,
}

/// The byte of a space.
pub const SPACE: u8 = 32;

/// The byte of a line feed.
pub const NEWLINE: u8 = 10;

/// The decimal digits of `n`, most significant first, as ASCII bytes.
pub open spec fn digits(n: nat) -> Seq<u8>
    decreases n,
{
    if n < 10 {
        seq![(48 + n) as u8]
    } else {
        digits(n / 10).push((48 + n % 10) as u8)
    }
}

/// `R G B`: the three samples of a pixel in decimal, with a space between.
pub open spec fn pixel_text(p: Pixel) -> Seq<u8> {
    digits(p.r as nat) + seq![SPACE] + digits(p.g as nat) + seq![SPACE] + digits(p.b as nat)
}

/// The header: `P3`, then width and height on one line, then the largest
/// sample value on a line of its own.
pub open spec fn header_text(width: u32, height: u32, max_value: u8) -> Seq<u8> {
    seq![80u8, 51u8, NEWLINE] + digits(width as nat) + seq![SPACE] + digits(height as nat) + seq![
        NEWLINE,
    ] + digits(max_value as nat) + seq![NEWLINE]
}

/// The text of the first `n` pixels: each pixel's triple and a space, with
/// a line feed behind every `width`-th pixel.
pub open spec fn body_text(data: Seq<Pixel>, width: u32, n: int) -> Seq<u8>
    decreases n,
{
    if n <= 0 {
        Seq::empty()
    } else {
        let before = body_text(data, width, n - 1) + pixel_text(data[n - 1]) + seq![SPACE];
        if width > 0 && n % (width as int) == 0 {
            before.push(NEWLINE)
        } else {
            before
        }
    }
}

/// The first `c` pixels of scanline `row`, each followed by a space.
pub open spec fn row_text(data: Seq<Pixel>, width: u32, row: int, c: int) -> Seq<u8>
    decreases c,
{
    if c <= 0 {
        Seq::empty()
    } else {
        row_text(data, width, row, c - 1) + pixel_text(data[row * width + c - 1]) + seq![SPACE]
    }
}

/// The first `rows` scanlines, each a full row of pixels ended by a line
/// feed.
pub open spec fn lines_text(data: Seq<Pixel>, width: u32, rows: int) -> Seq<u8>
    decreases rows,
{
    if rows <= 0 {
        Seq::empty()
    } else {
        lines_text(data, width, rows - 1) + row_text(data, width, rows - 1, width as int) + seq![
            NEWLINE,
        ]
    }
}

/// Appends the decimal digits of `n`.
fn push_decimal(out: &mut Vec<u8>, n: u32)
    ensures
        final(out)@ == old(out)@ + digits(n as nat),
    decreases n,
{
    if n >= 10 {
        push_decimal(out, n / 10);
    }
    out.push(48 + (n % 10) as u8);
    assert(out@ =~= old(out)@ + digits(n as nat));
}

impl Pixel {
    pub open spec fn spec_new(r: u8, g: u8, b: u8) -> Pixel {
        Pixel { r, g, b }
    }

    #[verifier::when_used_as_spec(spec_new)]
    pub fn new(r: u8, g: u8, b: u8) -> (p: Pixel)
        ensures
            p == Pixel::spec_new(r, g, b),
    {
        Pixel { r, g, b }
    }

    /// Appends `R G B` to `out`.
    pub fn write_text(&self, out: &mut Vec<u8>)
        ensures
            final(out)@ == old(out)@ + pixel_text(*self),
    {
        push_decimal(out, self.r as u32);
        out.push(SPACE);
        push_decimal(out, self.g as u32);
        out.push(SPACE);
        push_decimal(out, self.b as u32);
        assert(out@ =~= old(out)@ + pixel_text(*self));
    }

    /// The text `R G B` of the pixel.
    pub fn to_text(&self) -> (out: Vec<u8>)
        ensures
            out@ == pixel_text(*self),
    {
        let mut out: Vec<u8> = Vec::new();
        self.write_text(&mut out);
        assert(out@ =~= pixel_text(*self));
        out
    }
}

impl Image {
    /// An image of the given size that holds no pixel yet.
    pub fn new(width: u32, height: u32, max_value: u8) -> (image: Image)
        ensures
            image.width == width,
            image.height == height,
            image.max_value == max_value,
            image.data@.len() == 0,
    {
        Image { width, height, max_value, data: Vec::new() }
    }

    /// The whole file: the header and the text of every pixel held.
    pub open spec fn ppm_text(&self) -> Seq<u8> {
        header_text(self.width, self.height, self.max_value) + body_text(
            self.data@,
            self.width,
            self.data@.len() as int,
        )
    }

    /// The image in the plain-text format, pixels in the order held.
    pub fn to_ppm(&self) -> (out: Vec<u8>)
        ensures
            out@ == self.ppm_text(),
    {
        let mut out: Vec<u8> = Vec::new();
        out.push(80u8);
        out.push(51u8);
        out.push(NEWLINE);
        push_decimal(&mut out, self.width);
        out.push(SPACE);
        push_decimal(&mut out, self.height);
        out.push(NEWLINE);
        push_decimal(&mut out, self.max_value as u32);
        out.push(NEWLINE);
        assert(out@ =~= header_text(self.width, self.height, self.max_value));
        let mut column: u32 = 0;
        let mut index: usize = 0;
        while index < self.data.len()
            invariant
                index <= self.data@.len(),
                self.width > 0 ==> column < self.width && column as int == index as int % (
                self.width as int),
                out@ == header_text(self.width, self.height, self.max_value) + body_text(
                    self.data@,
                    self.width,
                    index as int,
                ),
            decreases self.data@.len() - index,
        {
            self.data[index].write_text(&mut out);
            out.push(SPACE);
            index = index + 1;
            if self.width > 0 {
                proof {
                    lemma_next_column(index as int - 1, self.width as int);
                }
                column = column + 1;
                if column == self.width {
                    out.push(NEWLINE);
                    column = 0;
                }
            }
            assert(out@ =~= header_text(self.width, self.height, self.max_value) + body_text(
                self.data@,
                self.width,
                index as int,
            ));
        }
        out
    }
}

/// Stepping one pixel on moves the column on by one, or back to zero at the
/// end of a scanline.
proof fn lemma_next_column(index: int, width: int)
    requires
        index >= 0,
        width > 0,
    ensures
        (index + 1) % width == if index % width + 1 == width {
            0
        } else {
            index % width + 1
        },
{
    vstd::arithmetic::div_mod::lemma_fundamental_div_mod(index, width);
    let q = index / width;
    let r = index % width;
    if r + 1 == width {
        assert(index + 1 == (q + 1) * width + 0) by (nonlinear_arith)
            requires
                index == width * q + r,
                r + 1 == width,
        ;
        vstd::arithmetic::div_mod::lemma_fundamental_div_mod_converse(index + 1, width, q + 1, 0);
    } else {
        assert(index + 1 == q * width + (r + 1)) by (nonlinear_arith)
            requires
                index == width * q + r,
        ;
        vstd::arithmetic::div_mod::lemma_fundamental_div_mod_converse(index + 1, width, q, r + 1);
    }
}

/// Within scanline `row`, the text of the first `row * width + c` pixels
/// is that of `row` full lines and of the first `c` pixels of the next.
proof fn lemma_body_is_lines(data: Seq<Pixel>, width: u32, row: int, c: int)
    requires
        width > 0,
        row >= 0,
        0 <= c <= width,
        c > 0 || row == 0,
    ensures
        body_text(data, width, row * width + c) == if c == width {
            lines_text(data, width, row + 1)
        } else {
            lines_text(data, width, row) + row_text(data, width, row, c)
        },
    decreases row, c,
{
    let w = width as int;
    let n = row * w + c;
    assert(row * w >= 0) by (nonlinear_arith)
        requires
            row >= 0,
            w > 0,
    ;
    if c == 0 {
        assert(n == 0) by (nonlinear_arith)
            requires
                n == row * w + c,
                row == 0,
                c == 0,
        ;
        assert(lines_text(data, width, 0) + row_text(data, width, 0, 0) =~= Seq::<u8>::empty());
    } else {
        if c == 1 && row > 0 {
            lemma_body_is_lines(data, width, row - 1, w);
            assert((row - 1) * w + w == row * w) by (nonlinear_arith);
        } else {
            lemma_body_is_lines(data, width, row, c - 1);
        }
        // body(n - 1) == lines(row) + row_text(row, c - 1)
        assert(body_text(data, width, n - 1) == lines_text(data, width, row) + row_text(
            data,
            width,
            row,
            c - 1,
        )) by {
            if c == 1 {
                assert(row_text(data, width, row, 0) =~= Seq::<u8>::empty());
                assert(lines_text(data, width, row) + Seq::<u8>::empty() =~= lines_text(
                    data,
                    width,
                    row,
                ));
            }
        }
        assert(n % w == if c == w { 0int } else { c }) by {
            if c == w {
                assert(n == (row + 1) * w + 0) by (nonlinear_arith)
                    requires
                        n == row * w + c,
                        c == w,
                ;
                vstd::arithmetic::div_mod::lemma_fundamental_div_mod_converse(n, w, row + 1, 0);
            } else {
                vstd::arithmetic::div_mod::lemma_fundamental_div_mod_converse(n, w, row, c);
            }
        }
        let step = pixel_text(data[n - 1]) + seq![SPACE];
        assert(row_text(data, width, row, c) == row_text(data, width, row, c - 1) + pixel_text(
            data[row * width + c - 1],
        ) + seq![SPACE]);
        if c == w {
            assert(body_text(data, width, n) =~= lines_text(data, width, row + 1));
        } else {
            assert(body_text(data, width, n) =~= lines_text(data, width, row) + row_text(
                data,
                width,
                row,
                c,
            ));
        }
    }
}

/// An image that holds `height` scanlines of `width` pixels is written as
/// the header `P3`, `width height`, `max_value`, followed by exactly
/// `height` lines, each the `width` triples of one scanline and a line
/// feed.
pub proof fn law_ppm_is_header_and_lines(image: Image)
    requires
        image.width > 0,
        image.data@.len() == image.width * image.height,
    ensures
        image.ppm_text() == header_text(image.width, image.height, image.max_value) + lines_text(
            image.data@,
            image.width,
            image.height as int,
        ),
{
    let w = image.width as int;
    let h = image.height as int;
    if h == 0 {
        assert(image.data@.len() == 0) by (nonlinear_arith)
            requires
                image.data@.len() == w * h,
                h == 0,
        ;
    } else {
        lemma_body_is_lines(image.data@, image.width, h - 1, w);
        assert((h - 1) * w + w == w * h) by (nonlinear_arith);
    }
}

} // verus!
