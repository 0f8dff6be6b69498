//! What a render job is asked to do, and the canvas arithmetic that follows
//! from it.

use vstd::prelude::*;
use vstd::arithmetic::div_mod::{
    lemma_div_multiples_vanish_quotient,
    lemma_fundamental_div_mod,
    lemma_mod_multiples_vanish,
};
use crate::error::InvalidConfiguration;

verus! {

/// Whether the positive number `d` divides both `a` and `b`.
pub open spec fn common_divisor(d: int, a: int, b: int) -> bool {
    d > 0 && a % d == 0 && b % d == 0
}

/// Whether `g` is the greatest common divisor of `a` and `b`.
pub open spec fn is_gcd(g: int, a: int, b: int) -> bool {
    &&& common_divisor(g, a, b)
    &&& forall|d: int| #[trigger] common_divisor(d, a, b) ==> d <= g
}

/// One step of Euclid's algorithm keeps the common divisors.
proof fn lemma_gcd_step(d: int, a: int, b: int)
    requires
        a > 0,
        b >= 0,
    ensures
        common_divisor(d, b % a, a) == common_divisor(d, a, b),
{
    if d > 0 && a % d == 0 {
        let k = a / d;
        let q = b / a;
        let r = b % a;
        lemma_fundamental_div_mod(a, d);
        lemma_fundamental_div_mod(b, a);
        assert(b == d * (k * q) + r) by (nonlinear_arith)
            requires
                a == d * k,
                b == a * q + r,
        ;
        lemma_mod_multiples_vanish(k * q, r, d);
    }
}

/// A positive divisor of a positive number is no larger than it.
proof fn lemma_divisor_bound(d: int, a: int)
    requires
        d > 0,
        a > 0,
        a % d == 0,
    ensures
        d <= a,
{
    lemma_fundamental_div_mod(a, d);
    let k = a / d;
    assert(d <= a) by (nonlinear_arith)
        requires
            a == d * k,
            a > 0,
            d > 0,
    ;
}

/// The greatest common divisor of `n` and `m`, by Euclid's algorithm; 0 when
/// both are 0.
pub fn calc_gcd(n: u32, m: u32) -> (g: u32)
    ensures
        n == 0 && m == 0 ==> g == 0,
        n != 0 || m != 0 ==> is_gcd(g as int, n as int, m as int),
{
    let mut a = n;
    let mut b = m;
    while a != 0
        invariant
            forall|d: int|
                #![trigger common_divisor(d, a as int, b as int)]
                #![trigger common_divisor(d, n as int, m as int)]
                common_divisor(d, a as int, b as int) == common_divisor(d, n as int, m as int),
            (a != 0 || b != 0) == (n != 0 || m != 0),
        decreases a,
    {
        let r = b % a;
        proof {
            assert forall|d: int|
                #![trigger common_divisor(d, r as int, a as int)]
                common_divisor(d, r as int, a as int) == common_divisor(
                    d,
                    n as int,
                    m as int,
                ) by {
                lemma_gcd_step(d, a as int, b as int);
            }
        }
        b = a;
        a = r;
    }
    proof {
        if b != 0 {
            assert forall|d: int| #[trigger]
                common_divisor(d, n as int, m as int) implies d <= b by {
                lemma_divisor_bound(d, b as int);
            }
        }
    }
    b
}

/// The fraction of each canvas side that is left free on either side of the
/// content, as the ratio `numerator / denominator`.
#[derive(Clone, Copy, Debug, PartialEq, Eq, Structural)]
pub struct Padding {
    pub numerator: u32,
    pub denominator: u32,
}

impl Padding {
    /// Whether the fraction is well defined and below one half, so that a
    /// strictly positive part of the canvas is left for the content.
    pub open spec fn valid(&self) -> bool {
        self.denominator > 0 && 2 * self.numerator < self.denominator
    }

    /// Numerator of the part of a side that the content may take,
    /// `1 - 2 * padding`, over the same denominator.
    pub open spec fn inner(&self) -> int {
        self.denominator - 2 * self.numerator
    }

    /// `len / (1 - 2 * padding)`, rounded down: the canvas side that leaves
    /// `len` for the content.
    pub open spec fn grown(&self, len: int) -> int {
        (len * self.denominator) / self.inner()
    }

    /// `len * (1 - 2 * padding)`, rounded down: what a canvas side of `len`
    /// leaves for the content.
    pub open spec fn shrunk(&self, len: int) -> int {
        (len * self.inner()) / (self.denominator as int)
    }

    /// The padding `numerator / denominator`, or
    /// [`InvalidConfiguration::Padding`] when that is not a fraction below
    /// one half.
    pub fn new(numerator: u32, denominator: u32) -> (res: Result<Padding, InvalidConfiguration>)
        ensures
            res is Ok <==> denominator > 0 && 2 * numerator < denominator,
            res matches Ok(p) ==> p.numerator == numerator && p.denominator == denominator
                && p.valid(),
            res matches Err(e) ==> e == InvalidConfiguration::Padding,
    {
        let p = Padding { numerator, denominator };
        if p.is_valid() {
            Ok(p)
        } else {
            Err(InvalidConfiguration::Padding)
        }
    }

    /// Computes [`Padding::valid`].
    pub fn is_valid(&self) -> (b: bool)
        ensures
            b == self.valid(),
    {
        self.denominator > 0 && (self.numerator as u64) * 2 < self.denominator as u64
    }

    /// Computes [`Padding::grown`].
    pub fn grow(&self, len: u32) -> (res: u64)
        requires
            self.valid(),
        ensures
            res == self.grown(len as int),
            res >= len,
    {
        let inner: u64 = self.denominator as u64 - 2 * (self.numerator as u64);
        assert(len * self.denominator <= 0xffff_ffff * 0xffff_ffff) by (nonlinear_arith)
            requires
                0 <= len <= 0xffff_ffff,
                0 <= self.denominator <= 0xffff_ffff,
        ;
        let scaled: u64 = (len as u64) * (self.denominator as u64);
        proof {
            let i = inner as int;
            let q = (scaled as int) / i;
            lemma_fundamental_div_mod(scaled as int, i);
            vstd::arithmetic::div_mod::lemma_mod_bound(scaled as int, i);
            assert(q >= len) by (nonlinear_arith)
                requires
                    scaled == i * q + (scaled as int) % i,
                    0 <= (scaled as int) % i < i,
                    scaled == len * self.denominator,
                    0 < i <= self.denominator,
                    len >= 0,
            ;
        }
        scaled / inner
    }

    /// Computes [`Padding::shrunk`].
    pub fn shrink(&self, len: u32) -> (res: u32)
        requires
            self.valid(),
        ensures
            res == self.shrunk(len as int),
            res <= len,
    {
        let inner: u64 = self.denominator as u64 - 2 * (self.numerator as u64);
        assert(len * inner <= 0xffff_ffff * 0xffff_ffff) by (nonlinear_arith)
            requires
                0 <= len <= 0xffff_ffff,
                0 <= inner <= 0xffff_ffff,
        ;
        let scaled: u64 = (len as u64) * inner;
        proof {
            let d = self.denominator as int;
            let q = (scaled as int) / d;
            lemma_fundamental_div_mod(scaled as int, d);
            vstd::arithmetic::div_mod::lemma_mod_bound(scaled as int, d);
            assert(q <= len) by (nonlinear_arith)
                requires
                    scaled == d * q + (scaled as int) % d,
                    0 <= (scaled as int) % d < d,
                    scaled == len * inner,
                    0 < inner <= d,
                    len >= 0,
            ;
        }
        (scaled / (self.denominator as u64)) as u32
    }
}

/// Geometry and effect parameters of a render job.
#[derive(Clone, Copy, Debug)]
pub struct Size {
    /// Canvas width in pixels, or the width term of the aspect ratio.
    pub width: u32,
    /// Canvas height in pixels, or the height term of the aspect ratio.
    pub height: u32,
    /// Whether `width` and `height` give an aspect ratio rather than pixels.
    pub aspect_ratio: bool,
    /// Gaussian blur radius of the background, in pixels.
    pub blur_radius: u32,
    /// Corner radius of the foreground, in pixels.
    pub round_radius: u32,
    /// Free fraction of the canvas on each side of the content.
    pub padding: Padding,
    /// Blur radius of the drop shadow, in pixels.
    pub shadow: u32,
    /// Horizontal shadow offset, to the right when positive.
    pub shadow_offset_x: i32,
    /// Vertical shadow offset, downwards when positive.
    pub shadow_offset_y: i32,
}

impl Default for Size {
    fn default() -> (size: Size)
        ensures
            size.width == 1920,
            size.height == 1080,
            !size.aspect_ratio,
            size.blur_radius == 50,
            size.round_radius == 45,
            size.padding == (Padding { numerator: 1, denominator: 10 }),
            size.shadow == 40,
            size.shadow_offset_x == 30,
            size.shadow_offset_y == 30,
    {
        Size {
            width: 1920,
            height: 1080,
            aspect_ratio: false,
            blur_radius: 50,
            round_radius: 45,
            padding: Padding { numerator: 1, denominator: 10 },
            shadow: 40,
            shadow_offset_x: 30,
            shadow_offset_y: 30,
        }
    }
}

/// A render job: where the photo comes from, where the poster goes, and how
/// it is to look.
#[derive(Clone, Debug)]
pub struct Config {
    pub source_file: String,
    pub dest_file: String,
    pub font: Option<String>,
    pub size: Size,
    pub white_bg: bool,
}

impl Size {
    /// Whether the target is at least as wide, relative to its height, as
    /// content of `width` by `height`.
    pub open spec fn wider_than(&self, width: int, height: int) -> bool {
        self.width * height >= width * self.height
    }

    /// The canvas for content of `width` by `height`.
    ///
    /// With fixed pixels it is the target itself. With an aspect ratio, the
    /// side along which the content is relatively larger is the content's
    /// side divided by `1 - 2 * padding`, and the other side follows from
    /// the ratio; both are rounded down.
    pub open spec fn canvas(&self, width: int, height: int) -> (int, int) {
        if !self.aspect_ratio {
            (self.width as int, self.height as int)
        } else if self.wider_than(width, height) {
            let h = self.padding.grown(height);
            ((self.width * h) / (self.height as int), h)
        } else {
            let w = self.padding.grown(width);
            (w, (self.height * w) / (self.width as int))
        }
    }

    /// Why the job cannot be laid out for content of `width` by `height`, if
    /// it cannot: the first of an invalid padding, a zero target dimension, a
    /// zero content dimension against an aspect ratio, and a canvas side that
    /// does not fit in 32 bits.
    pub open spec fn rejection(&self, width: int, height: int) -> Option<InvalidConfiguration> {
        if !self.padding.valid() {
            Some(InvalidConfiguration::Padding)
        } else if self.width == 0 || self.height == 0 {
            Some(InvalidConfiguration::ZeroDimension)
        } else if self.aspect_ratio && (width == 0 || height == 0) {
            Some(InvalidConfiguration::ZeroDimension)
        } else if self.canvas(width, height).0 > u32::MAX || self.canvas(width, height).1
            > u32::MAX {
            Some(InvalidConfiguration::TooLarge)
        } else {
            None
        }
    }

    /// Checks what can be checked of the job without the content: the
    /// padding and the target dimensions.
    pub fn validate(&self) -> (res: Result<(), InvalidConfiguration>)
        ensures
            res is Ok <==> self.padding.valid() && self.width > 0 && self.height > 0,
            res matches Err(e) ==> e == (if !self.padding.valid() {
                InvalidConfiguration::Padding
            } else {
                InvalidConfiguration::ZeroDimension
            }),
    {
        if !self.padding.is_valid() {
            Err(InvalidConfiguration::Padding)
        } else if self.width == 0 || self.height == 0 {
            Err(InvalidConfiguration::ZeroDimension)
        } else {
            Ok(())
        }
    }

    /// The canvas size for content of `width` by `height`.
    pub fn calc_bg(&self, width: u32, height: u32) -> (res: Result<
        (u32, u32),
        InvalidConfiguration,
    >)
        ensures
            match res {
                Ok(bg) => self.rejection(width as int, height as int) is None && (
                    bg.0 as int,
                    bg.1 as int,
                ) == self.canvas(width as int, height as int),
                Err(e) => self.rejection(width as int, height as int) == Some(e),
            },
    {
        match self.validate() {
            Err(e) => {
                return Err(e);
            },
            Ok(()) => {},
        }
        if !self.aspect_ratio {
            return Ok((self.width, self.height));
        }
        if width == 0 || height == 0 {
            return Err(InvalidConfiguration::ZeroDimension);
        }
        // Both ratios in lowest terms.
        let g = calc_gcd(self.width, self.height);
        let bg_width = self.width / g;
        let bg_height = self.height / g;
        let g2 = calc_gcd(width, height);
        let w = width / g2;
        let h = height / g2;
        proof {
            lemma_fundamental_div_mod(self.width as int, g as int);
            lemma_fundamental_div_mod(self.height as int, g as int);
            lemma_fundamental_div_mod(width as int, g2 as int);
            lemma_fundamental_div_mod(height as int, g2 as int);
            assert(bg_width > 0 && bg_height > 0) by (nonlinear_arith)
                requires
                    self.width == g * bg_width,
                    self.height == g * bg_height,
                    self.width > 0,
                    self.height > 0,
                    g > 0,
            ;
            lemma_reduced_ratio(
                g as int,
                bg_width as int,
                bg_height as int,
                g2 as int,
                w as int,
                h as int,
            );
            assert(bg_width * h <= 0xffff_ffff * 0xffff_ffff) by (nonlinear_arith)
                requires
                    0 <= bg_width <= 0xffff_ffff,
                    0 <= h <= 0xffff_ffff,
            ;
            assert(w * bg_height <= 0xffff_ffff * 0xffff_ffff) by (nonlinear_arith)
                requires
                    0 <= w <= 0xffff_ffff,
                    0 <= bg_height <= 0xffff_ffff,
            ;
        }
        if (bg_width as u64) * (h as u64) >= (w as u64) * (bg_height as u64) {
            let res_h = self.padding.grow(height);
            let res_w = scale(res_h, bg_width, bg_height);
            proof {
                lemma_scale_reduced(res_h as int, g as int, bg_width as int, bg_height as int);
            }
            if res_h > u32::MAX as u64 || res_w > u32::MAX as u128 {
                Err(InvalidConfiguration::TooLarge)
            } else {
                Ok((res_w as u32, res_h as u32))
            }
        } else {
            let res_w = self.padding.grow(width);
            let res_h = scale(res_w, bg_height, bg_width);
            proof {
                lemma_scale_reduced(res_w as int, g as int, bg_height as int, bg_width as int);
            }
            if res_w > u32::MAX as u64 || res_h > u32::MAX as u128 {
                Err(InvalidConfiguration::TooLarge)
            } else {
                Ok((res_w as u32, res_h as u32))
            }
        }
    }

    /// The box that the content must fit in on a canvas of fixed size
    /// `bg_width` by `bg_height`: each side times `1 - 2 * padding`, rounded
    /// down.
    pub fn content_box(&self, bg_width: u32, bg_height: u32) -> (b: (u32, u32))
        requires
            self.padding.valid(),
        ensures
            b.0 == self.padding.shrunk(bg_width as int),
            b.1 == self.padding.shrunk(bg_height as int),
            b.0 <= bg_width,
            b.1 <= bg_height,
    {
        (self.padding.shrink(bg_width), self.padding.shrink(bg_height))
    }
}

/// Where the content lies on the canvas: the sizes of both and the distance
/// of the content from the left and the top edge when it is centred.
#[derive(Clone, Copy, Debug, PartialEq, Eq, Structural)]
pub struct Geometry {
    pub bg_width: u32,
    pub bg_height: u32,
    pub content_width: u32,
    pub content_height: u32,
    pub dist_h: u32,
    pub dist_v: u32,
}

impl Geometry {
    /// Centres content of the given size on a canvas of the given size: the
    /// free space along each axis is halved, rounding down. `None` when the
    /// content is larger than the canvas.
    pub fn new(bg_width: u32, bg_height: u32, content_width: u32, content_height: u32) -> (res:
        Option<Geometry>)
        ensures
            res is Some <==> content_width <= bg_width && content_height <= bg_height,
            res matches Some(g) ==> g == (Geometry {
                bg_width,
                bg_height,
                content_width,
                content_height,
                dist_h: ((bg_width - content_width) / 2) as u32,
                dist_v: ((bg_height - content_height) / 2) as u32,
            }),
    {
        if content_width > bg_width || content_height > bg_height {
            None
        } else {
            Some(
                Geometry {
                    bg_width,
                    bg_height,
                    content_width,
                    content_height,
                    dist_h: (bg_width - content_width) / 2,
                    dist_v: (bg_height - content_height) / 2,
                },
            )
        }
    }
}

/// `len * num / den`, rounded down.
fn scale(len: u64, num: u32, den: u32) -> (res: u128)
    requires
        den > 0,
    ensures
        res == (num * len) / (den as int),
{
    assert(num * len <= 0xffff_ffff * 0xffff_ffff_ffff_ffff) by (nonlinear_arith)
        requires
            0 <= num <= 0xffff_ffff,
            0 <= len <= 0xffff_ffff_ffff_ffff,
    ;
    ((num as u128) * (len as u128)) / (den as u128)
}

/// Comparing two ratios in lowest terms is comparing them as they were given.
proof fn lemma_reduced_ratio(g: int, a: int, b: int, g2: int, c: int, d: int)
    requires
        g > 0,
        g2 > 0,
    ensures
        (a * d >= c * b) == ((g * a) * (g2 * d) >= (g2 * c) * (g * b)),
{
    assert((g * a) * (g2 * d) == (g * g2) * (a * d)) by (nonlinear_arith);
    assert((g2 * c) * (g * b) == (g * g2) * (c * b)) by (nonlinear_arith);
    assert(g * g2 > 0) by (nonlinear_arith)
        requires
            g > 0,
            g2 > 0,
    ;
    let k = g * g2;
    let p = a * d;
    let q = c * b;
    assert((p >= q) == (k * p >= k * q)) by (nonlinear_arith)
        requires
            k > 0,
    ;
}

/// Scaling by a ratio in lowest terms is scaling by the ratio as given.
proof fn lemma_scale_reduced(len: int, g: int, num: int, den: int)
    requires
        len >= 0,
        g > 0,
        num >= 0,
        den > 0,
    ensures
        (num * len) / den == ((g * num) * len) / (g * den),
{
    lemma_div_multiples_vanish_quotient(g, num * len, den);
    assert(g * (num * len) == (g * num) * len) by (nonlinear_arith);
}

/// `x * num / den`, rounded down, is at least `y` when `x * num >= y * den`.
proof fn lemma_floor_at_least(x: int, num: int, den: int, y: int)
    requires
        den > 0,
        x * num >= y * den,
    ensures
        (x * num) / den >= y,
{
    let n = x * num;
    lemma_fundamental_div_mod(n, den);
    vstd::arithmetic::div_mod::lemma_mod_bound(n, den);
    let q = n / den;
    assert(q >= y) by (nonlinear_arith)
        requires
            n == den * q + n % den,
            0 <= n % den < den,
            n >= y * den,
            den > 0,
    ;
}

/// Dividing a length by `1 - 2 * padding` does not shorten it.
pub proof fn lemma_grown_at_least(padding: Padding, len: int)
    requires
        padding.valid(),
        len >= 0,
    ensures
        padding.grown(len) >= len,
{
    assert(len * padding.denominator >= len * padding.inner()) by (nonlinear_arith)
        requires
            len >= 0,
            padding.denominator >= padding.inner(),
    ;
    lemma_floor_at_least(len, padding.denominator as int, padding.inner(), len);
}

/// Dividing a length by `1 - 2 * padding` gives the largest whole canvas
/// side of which that part does not exceed the length.
pub proof fn lemma_grown_is_floor(padding: Padding, len: int)
    requires
        padding.valid(),
        len >= 0,
    ensures
        padding.grown(len) * padding.inner() <= len * padding.denominator,
        len * padding.denominator < (padding.grown(len) + 1) * padding.inner(),
{
    let n = len * padding.denominator;
    let i = padding.inner();
    let q = n / i;
    lemma_fundamental_div_mod(n, i);
    vstd::arithmetic::div_mod::lemma_mod_bound(n, i);
    assert(q * i == i * q) by (nonlinear_arith);
    assert((q + 1) * i == i * q + i) by (nonlinear_arith);
}

/// A canvas laid out by aspect ratio is at least as large as the content in
/// both directions, so the content can be centred on it.
pub proof fn lemma_canvas_holds_content(size: Size, width: int, height: int)
    requires
        size.aspect_ratio,
        size.padding.valid(),
        size.width > 0,
        size.height > 0,
        width > 0,
        height > 0,
    ensures
        size.canvas(width, height).0 >= width,
        size.canvas(width, height).1 >= height,
{
    let tw = size.width as int;
    let th = size.height as int;
    if size.wider_than(width, height) {
        let h = size.padding.grown(height);
        lemma_grown_at_least(size.padding, height);
        assert(tw * h >= width * th) by (nonlinear_arith)
            requires
                tw * height >= width * th,
                h >= height,
                tw > 0,
        ;
        lemma_floor_at_least(tw, h, th, width);
    } else {
        let w = size.padding.grown(width);
        lemma_grown_at_least(size.padding, width);
        assert(th * w >= height * tw) by (nonlinear_arith)
            requires
                tw * height < width * th,
                w >= width,
                th > 0,
        ;
        lemma_floor_at_least(th, w, tw, height);
    }
}

/// A canvas laid out by aspect ratio has the requested ratio, up to the
/// rounding of the derived side to whole pixels: that side is the largest
/// whole number that does not exceed the exact one.
pub proof fn lemma_canvas_keeps_ratio(size: Size, width: int, height: int)
    requires
        size.aspect_ratio,
        size.padding.valid(),
        size.width > 0,
        size.height > 0,
        width > 0,
        height > 0,
    ensures
        ({
            let (w, h) = size.canvas(width, height);
            if size.wider_than(width, height) {
                w * size.height <= size.width * h < (w + 1) * size.height
            } else {
                h * size.width <= size.height * w < (h + 1) * size.width
            }
        }),
{
    let tw = size.width as int;
    let th = size.height as int;
    let (w, h) = size.canvas(width, height);
    if size.wider_than(width, height) {
        lemma_fundamental_div_mod(tw * h, th);
        vstd::arithmetic::div_mod::lemma_mod_bound(tw * h, th);
        assert((w + 1) * th == th * w + th) by (nonlinear_arith);
    } else {
        lemma_fundamental_div_mod(th * w, tw);
        vstd::arithmetic::div_mod::lemma_mod_bound(th * w, tw);
        assert((h + 1) * tw == tw * h + tw) by (nonlinear_arith);
    }
}

} // verus!
