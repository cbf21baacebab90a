//! Textures: colour as a function of surface coordinates and position.

use crate::perlin::Perlin;
use crate::scalar::Scalar;
use crate::vec3::Vec3;
use std::sync::Arc;
use vstd::prelude::*;

verus! {

pub struct SolidColor {
    pub color_value: Vec3,
}

pub struct CheckerTexture {
    pub odd: Arc<Texture>,
    pub even: Arc<Texture>,
}

pub struct NoiseTexture {
    pub noise: Perlin,
    pub scale: Scalar,
}

pub struct ImageTexture {
    data: Vec<u8>,
    width: u32,
    height: u32,
    bytes_per_scanline: u32,
}

pub enum Texture {
    Solid(SolidColor),
    Checker(CheckerTexture),
    Noise(NoiseTexture),
    Image(ImageTexture),
}

/// The number of bytes that one pixel of an image texture takes.
pub const PIXEL_SIZE: u32 = 3;

/// The number of octaves that the noise texture adds up.
pub const NOISE_DEPTH: i32 = 7;

impl SolidColor {
    pub open spec fn spec_new(color_value: Vec3) -> SolidColor {
        SolidColor { color_value }
    }

    #[verifier::when_used_as_spec(spec_new)]
    pub fn new(color_value: Vec3) -> (r: SolidColor)
        ensures
            r == SolidColor::spec_new(color_value),
    {
        SolidColor { color_value }
    }

    /// The one colour, wherever it is asked for.
    pub fn value(&self, u: Scalar, v: Scalar, p: Vec3) -> (c: Vec3)
        ensures
            c == self.color_value,
    {
        self.color_value
    }
}

/// The sign pattern of the checker: whether the product of the sines of
/// ten times each coordinate of `p` is negative.
pub open spec fn checker_is_odd(p: Vec3) -> bool {
    p.x.times(Scalar::from_int(10)).sin()@ * p.y.times(Scalar::from_int(10)).sin()@ * p.z.times(
        Scalar::from_int(10),
    ).sin()@ < 0
}

/// A product of three integers is negative exactly where none is zero and
/// one or all three are negative.
proof fn lemma_sign_of_product(a: int, b: int, c: int)
    by (nonlinear_arith)
    ensures
        (a * b * c < 0) <==> (a != 0 && b != 0 && c != 0 && ((a < 0) != ((b < 0) != (c < 0)))),
{
    if a > 0 && b > 0 {
        assert(a * b > 0);
    } else if a < 0 && b < 0 {
        assert(a * b > 0);
    } else if a != 0 && b != 0 {
        assert(a * b < 0);
    } else {
        assert(a * b == 0);
    }
}

impl CheckerTexture {
    pub fn new(odd: Arc<Texture>, even: Arc<Texture>) -> (r: CheckerTexture)
        ensures
            r.odd == odd,
            r.even == even,
    {
        CheckerTexture { odd, even }
    }

    /// A checker of two plain colours.
    pub fn from_color(odd: Vec3, even: Vec3) -> (r: CheckerTexture)
        ensures
            *r.odd == Texture::Solid(SolidColor::new(odd)),
            *r.even == Texture::Solid(SolidColor::new(even)),
    {
        CheckerTexture {
            odd: Arc::new(Texture::Solid(SolidColor::new(odd))),
            even: Arc::new(Texture::Solid(SolidColor::new(even))),
        }
    }

    /// The colour of the odd texture where the checker is odd at `p`, and
    /// that of the even texture elsewhere.
    pub fn value(&self, u: Scalar, v: Scalar, p: Vec3) -> (c: Vec3)
        ensures
            c == if checker_is_odd(p) {
                self.odd.value_spec(u, v, p)
            } else {
                self.even.value_spec(u, v, p)
            },
        decreases self, 0int,
    {
        if CheckerTexture::is_odd(p) {
            self.odd.value(u, v, p)
        } else {
            self.even.value(u, v, p)
        }
    }

    /// Whether `p` lies in a cell of the odd texture.
    pub fn is_odd(p: Vec3) -> (r: bool)
        ensures
            r == checker_is_odd(p),
    {
        let ten: Scalar = Scalar::from_int(10);
        let sx: Scalar = p.x.times(ten).sin();
        let sy: Scalar = p.y.times(ten).sin();
        let sz: Scalar = p.z.times(ten).sin();
        proof {
            lemma_sign_of_product(sx@, sy@, sz@);
        }
        if sx.is_zero() || sy.is_zero() || sz.is_zero() {
            false
        } else {
            sx.is_negative() != (sy.is_negative() != sz.is_negative())
        }
    }
}

impl NoiseTexture {
    /// A noise texture of scale one over a fresh generator.
    pub fn new() -> (r: NoiseTexture)
        ensures
            r.scale == Scalar::one(),
    {
        NoiseTexture { noise: Perlin::new(), scale: Scalar::one() }
    }

    /// A noise texture of the given scale over a fresh generator.
    pub fn new_with_scale(scale: Scalar) -> (r: NoiseTexture)
        ensures
            r.scale == scale,
    {
        NoiseTexture { noise: Perlin::new(), scale }
    }

    /// Marble: a grey of `(1 + sin(scale * z + 10 * turbulence)) / 2`.
    pub open spec fn value_spec(&self, p: Vec3) -> Vec3 {
        let phase = self.scale.times(p.z).plus(
            Scalar::from_int(10).times(self.noise.turbulence_spec(p, NOISE_DEPTH)),
        );
        Vec3::splat(Scalar::one()).scale(Scalar::from_ratio(1, 2)).scale(
            Scalar::one().plus(phase.sin()),
        )
    }

    pub fn value(&self, u: Scalar, v: Scalar, p: Vec3) -> (c: Vec3)
        ensures
            c == self.value_spec(p),
    {
        let phase: Scalar = self.scale.times(p.z).plus(
            Scalar::from_int(10).times(self.noise.turbulence(p, NOISE_DEPTH)),
        );
        Vec3::splat(Scalar::one()).scale(Scalar::from_ratio(1, 2)).scale(
            Scalar::one().plus(phase.sin()),
        )
    }
}

/// The column or row, out of `count`, that a coordinate of `[0, 1]`
/// selects: the whole part of `count * t`, and the last one for `t = 1`.
pub open spec fn texel_index(t: Scalar, count: u32) -> int {
    let clamped = t.clamp(Scalar::zero(), Scalar::one());
    let scaled = clamped.times(Scalar::from_int(count as i64)).whole() as int;
    if scaled >= count {
        count - 1
    } else if scaled < 0 {
        0
    } else {
        scaled
    }
}

fn texel(t: Scalar, count: u32) -> (index: u32)
    requires
        count > 0,
    ensures
        index == texel_index(t, count),
        index < count,
{
    let clamped: Scalar = t.clamp(Scalar::zero(), Scalar::one());
    let scaled: i64 = clamped.times(Scalar::from_int(count as i64)).whole();
    if scaled >= count as i64 {
        count - 1
    } else if scaled < 0 {
        0
    } else {
        scaled as u32
    }
}

/// A colour component from a byte: `byte / 255`.
pub open spec fn channel(byte: u8) -> Scalar {
    Scalar::from_ratio(byte as i64, 255)
}

/// The three bytes of a pixel inside the image lie inside its data.
proof fn lemma_texel_in_bounds(i: int, j: int, w: int, h: int)
    by (nonlinear_arith)
    requires
        0 <= i < w,
        0 <= j < h,
    ensures
        0 <= j * w,
        (j * w + i) * 3 + 2 < h * (w * 3),
        (j * w + i) * 3 + 2 < 3 * w * h,
{
    assert(j * w + i <= (h - 1) * w + (w - 1));
}

impl ImageTexture {
    /// A texture is never empty and holds three bytes for each pixel, row
    /// after row.
    #[verifier::type_invariant]
    pub closed spec fn wf(&self) -> bool {
        &&& self.width > 0
        &&& self.height > 0
        &&& self.bytes_per_scanline == self.width * PIXEL_SIZE
        &&& self.data@.len() == self.height * self.bytes_per_scanline
    }

    /// The decoded bytes: red, green and blue of each pixel, row by row
    /// from the top.
    pub closed spec fn bytes(&self) -> Seq<u8> {
        self.data@
    }

    pub closed spec fn spec_width(&self) -> u32 {
        self.width
    }

    pub closed spec fn spec_height(&self) -> u32 {
        self.height
    }

    /// Whether `data` can be the bytes of a `width` by `height` image: the
    /// image is not empty, a scanline's byte count fits in 32 bits, and
    /// there are three bytes for each pixel.
    pub open spec fn fits(data: Seq<u8>, width: u32, height: u32) -> bool {
        &&& width > 0
        &&& height > 0
        &&& 3 * width <= u32::MAX
        &&& data.len() == 3 * width * height
    }

    /// A texture over decoded pixel bytes, or nothing where `data` does not
    /// fit the given size.
    pub fn new(data: Vec<u8>, width: u32, height: u32) -> (r: Option<ImageTexture>)
        ensures
            r is Some <==> ImageTexture::fits(data@, width, height),
            r matches Some(t) ==> t.bytes() == data@ && t.spec_width() == width && t.spec_height()
                == height,
    {
        if width == 0 || height == 0 {
            return None;
        }
        let row: u64 = (width as u64) * 3;
        if row > u32::MAX as u64 {
            return None;
        }
        assert(row * height <= 0xffff_ffff * 0xffff_ffff) by (nonlinear_arith)
            requires
                row <= 0xffff_ffff,
                height <= 0xffff_ffff,
        ;
        let total: u64 = row * (height as u64);
        assert(total == 3 * width * height) by (nonlinear_arith)
            requires
                total == row * height,
                row == width * 3,
        ;
        assert(height * (row as u32) == total) by (nonlinear_arith)
            requires
                total == row * height,
                row <= 0xffff_ffff,
        ;
        if data.len() as u64 != total {
            return None;
        }
        Some(ImageTexture { data, width, height, bytes_per_scanline: row as u32 })
    }

    pub fn width(&self) -> (w: u32)
        ensures
            w == self.spec_width(),
            w > 0,
    {
        proof {
            use_type_invariant(self);
        }
        self.width
    }

    pub fn height(&self) -> (h: u32)
        ensures
            h == self.spec_height(),
            h > 0,
    {
        proof {
            use_type_invariant(self);
        }
        self.height
    }

    /// The colour of the pixel that `(u, v)` selects, `v` running upward:
    /// column `texel_index(u, width)`, row `height - 1 - texel_index(v,
    /// height)`.
    pub open spec fn value_spec(&self, u: Scalar, v: Scalar) -> Vec3 {
        let i = texel_index(u, self.spec_width());
        let j = self.spec_height() - 1 - texel_index(v, self.spec_height());
        let at = (j * self.spec_width() + i) * 3;
        Vec3::new(
            channel(self.bytes()[at]),
            channel(self.bytes()[at + 1]),
            channel(self.bytes()[at + 2]),
        )
    }

    pub fn value(&self, u: Scalar, v: Scalar, p: Vec3) -> (c: Vec3)
        ensures
            c == self.value_spec(u, v),
    {
        proof {
            use_type_invariant(self);
        }
        let i: u32 = texel(u, self.width);
        let j: u32 = self.height - 1 - texel(v, self.height);
        proof {
            lemma_texel_in_bounds(i as int, j as int, self.width as int, self.height as int);
            assert(self.data@.len() == self.height as int * (self.width as int * 3));
        }
        // the offset lies below the length of the data, which a `usize` holds
        let limit: usize = self.data.len();
        assert((j as int * self.width as int + i as int) * 3 + 2 < limit);
        let at: usize = ((j as usize) * (self.width as usize) + (i as usize)) * 3;
        Vec3::new(
            Scalar::from_ratio(self.data[at] as i64, 255),
            Scalar::from_ratio(self.data[at + 1] as i64, 255),
            Scalar::from_ratio(self.data[at + 2] as i64, 255),
        )
    }
}

impl Texture {
    /// The colour at surface coordinates `(u, v)` and position `p`.
    pub open spec fn value_spec(&self, u: Scalar, v: Scalar, p: Vec3) -> Vec3
        decreases self,
    {
        match self {
            Texture::Solid(t) => t.color_value,
            Texture::Checker(t) => if checker_is_odd(p) {
                t.odd.value_spec(u, v, p)
            } else {
                t.even.value_spec(u, v, p)
            },
            Texture::Noise(t) => t.value_spec(p),
            Texture::Image(t) => t.value_spec(u, v),
        }
    }

    pub fn value(&self, u: Scalar, v: Scalar, p: Vec3) -> (c: Vec3)
        ensures
            c == self.value_spec(u, v, p),
        decreases self, 1int,
    {
        match self {
            Texture::Solid(t) => t.value(u, v, p),
            Texture::Checker(t) => t.value(u, v, p),
            Texture::Noise(t) => t.value(u, v, p),
            Texture::Image(t) => t.value(u, v, p),
        }
    }
}

} // verus!
