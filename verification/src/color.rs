//! Decoded texture images and their quantized average color.
//!
//! A color is packed as `0xaarrggbb`: blue in the low byte, then green, red
//! and alpha. The average of a channel is the arithmetic mean over all
//! pixels, rounded to the nearest integer (halves round up).

use vstd::prelude::*;
use vstd::arithmetic::div_mod::lemma_div_multiples_vanish_fancy;

verus! {

/// A decoded texture image: dimensions and the raw RGBA bytes, four per
/// pixel, rows in order.
pub struct DecodedImage {
    pub width: u32,
    pub height: u32,
    pub rgba: Vec<u8>,
}

/// The mathematical value of a `DecodedImage`.
pub ghost struct DecodedImageView {
    pub width: u32,
    pub height: u32,
    pub rgba: Seq<u8>,
}

impl View for DecodedImage {
    type V = DecodedImageView;

    open spec fn view(&self) -> DecodedImageView {
        DecodedImageView { width: self.width, height: self.height, rgba: self.rgba@ }
    }
}

impl DecodedImage {
    /// The buffer holds exactly four bytes per pixel.
    pub open spec fn wf(&self) -> bool {
        self.rgba@.len() == 4 * (self.width as int) * (self.height as int)
    }
}

/// What decoding an image byte stream yields: dimensions and RGBA bytes, or
/// nothing when the bytes are not a readable image. The result depends on
/// the bytes alone.
pub uninterp spec fn decoded_image(data: Seq<u8>) -> Option<(u32, u32, Seq<u8>)>;

/// Relies on image::load_from_memory and DynamicImage::to_rgba8: the decoded
/// pixels are a function of the bytes alone, and the raw RGBA buffer holds
/// exactly four bytes per pixel.
#[verifier::external_body]
pub(crate) fn decode_image(data: &Vec<u8>) -> (r: Result<DecodedImage, String>)
    ensures
        match r {
            Ok(img) => Some((img.width, img.height, img.rgba@)) == decoded_image(data@)
                && img.wf(),
            Err(_) => decoded_image(data@) is None,
        },
{
    match image::load_from_memory(data.as_slice()) {
        Ok(img) => {
            let rgba = img.to_rgba8();
            let (width, height) = rgba.dimensions();
            Ok(DecodedImage { width, height, rgba: rgba.into_raw() })
        },
        Err(e) => Err(e.to_string()),
    }
}

/// The sum of channel `c` (0 red, 1 green, 2 blue, 3 alpha) over the first
/// `k` pixels.
pub open spec fn channel_sum(rgba: Seq<u8>, k: int, c: int) -> int
    decreases k,
{
    if k <= 0 {
        0
    } else {
        channel_sum(rgba, k - 1, c) + rgba[4 * (k - 1) + c]
    }
}

/// The arithmetic mean of `sum` over `n` samples, rounded to nearest with
/// halves up; an empty image averages to zero.
pub open spec fn rounded_mean(sum: int, n: int) -> int {
    if n <= 0 {
        0
    } else {
        (2 * sum + n) / (2 * n)
    }
}

/// The packed `0xaarrggbb` average color of an RGBA buffer.
pub open spec fn average_color_spec(width: int, height: int, rgba: Seq<u8>) -> u32 {
    let n = width * height;
    (rounded_mean(channel_sum(rgba, n, 2), n) + 256 * rounded_mean(channel_sum(rgba, n, 1), n)
        + 65536 * rounded_mean(channel_sum(rgba, n, 0), n) + 16777216 * rounded_mean(
        channel_sum(rgba, n, 3),
        n,
    )) as u32
}

/// A channel sum over `k` pixels of byte values stays within `255 * k`.
proof fn lemma_channel_sum_bounds(rgba: Seq<u8>, k: int, c: int)
    requires
        0 <= k,
        0 <= c < 4,
        4 * k <= rgba.len(),
    ensures
        0 <= channel_sum(rgba, k, c) <= 255 * k,
    decreases k,
{
    if k > 0 {
        lemma_channel_sum_bounds(rgba, k - 1, c);
    }
}

/// A rounded mean of byte values is itself a byte value.
proof fn lemma_rounded_mean_byte(sum: int, n: int)
    requires
        0 <= sum <= 255 * n,
    ensures
        0 <= rounded_mean(sum, n) <= 255,
{
    if n > 0 {
        let x = 2 * sum + n;
        let d = 2 * n;
        vstd::arithmetic::div_mod::lemma_fundamental_div_mod(x, d);
        vstd::arithmetic::div_mod::lemma_mod_bound(x, d);
        let q = x / d;
        let rm = x % d;
        assert(0 <= q <= 255) by (nonlinear_arith)
            requires
                x == d * q + rm,
                0 <= rm < d,
                d == 2 * n,
                n > 0,
                0 < x <= 511 * n,
        ;
    }
}

/// Computes the quantized average color of a decoded image.
pub fn average_color(img: &DecodedImage) -> (c: u32)
    requires
        img.wf(),
    ensures
        c == average_color_spec(img.width as int, img.height as int, img.rgba@),
{
    let len: usize = img.rgba.len();
    proof {
        assert((4 * (img.width as int)) * (img.height as int) == 4 * ((img.width as int) * (
        img.height as int)) && (img.width as int) * (img.height as int) >= 0) by (nonlinear_arith);
    }
    let n: usize = (img.width as usize) * (img.height as usize);
    assert(4 * n == len);
    let ghost pix = img.rgba@;
    let mut sum_r: u128 = 0;
    let mut sum_g: u128 = 0;
    let mut sum_b: u128 = 0;
    let mut sum_a: u128 = 0;
    let mut i: usize = 0;
    while i < n
        invariant
            4 * n == pix.len(),
            4 * n <= usize::MAX,
            pix == img.rgba@,
            i <= n,
            sum_r == channel_sum(pix, i as int, 0),
            sum_g == channel_sum(pix, i as int, 1),
            sum_b == channel_sum(pix, i as int, 2),
            sum_a == channel_sum(pix, i as int, 3),
        decreases n - i,
    {
        proof {
            lemma_channel_sum_bounds(pix, i as int, 0);
            lemma_channel_sum_bounds(pix, i as int, 1);
            lemma_channel_sum_bounds(pix, i as int, 2);
            lemma_channel_sum_bounds(pix, i as int, 3);
        }
        sum_r = sum_r + (img.rgba[4 * i] as u128);
        sum_g = sum_g + (img.rgba[4 * i + 1] as u128);
        sum_b = sum_b + (img.rgba[4 * i + 2] as u128);
        sum_a = sum_a + (img.rgba[4 * i + 3] as u128);
        i = i + 1;
    }
    proof {
        lemma_channel_sum_bounds(pix, n as int, 0);
        lemma_channel_sum_bounds(pix, n as int, 1);
        lemma_channel_sum_bounds(pix, n as int, 2);
        lemma_channel_sum_bounds(pix, n as int, 3);
        lemma_rounded_mean_byte(sum_r as int, n as int);
        lemma_rounded_mean_byte(sum_g as int, n as int);
        lemma_rounded_mean_byte(sum_b as int, n as int);
        lemma_rounded_mean_byte(sum_a as int, n as int);
    }
    let mean_r: u32 = mean_of(sum_r, n);
    let mean_g: u32 = mean_of(sum_g, n);
    let mean_b: u32 = mean_of(sum_b, n);
    let mean_a: u32 = mean_of(sum_a, n);
    mean_b + 256 * mean_g + 65536 * mean_r + 16777216 * mean_a
}

/// The rounded mean of one channel, as a 32-bit value.
fn mean_of(sum: u128, n: usize) -> (m: u32)
    requires
        sum <= 255 * (n as int),
    ensures
        m == rounded_mean(sum as int, n as int),
        m <= 255,
{
    proof {
        lemma_rounded_mean_byte(sum as int, n as int);
    }
    if n == 0 {
        0
    } else {
        ((2 * sum + (n as u128)) / (2 * (n as u128))) as u32
    }
}

/// A texture image of uniform pixels `(r, g, b, a)` averages to exactly that
/// color: the rounding is exact for uniform input.
pub proof fn lemma_uniform_average(width: int, height: int, rgba: Seq<u8>, r: u8, g: u8, b: u8, a: u8)
    requires
        width * height > 0,
        rgba.len() == 4 * width * height,
        forall|i: int| 0 <= i < width * height ==> #[trigger] rgba[4 * i] == r,
        forall|i: int| 0 <= i < width * height ==> #[trigger] rgba[4 * i + 1] == g,
        forall|i: int| 0 <= i < width * height ==> #[trigger] rgba[4 * i + 2] == b,
        forall|i: int| 0 <= i < width * height ==> #[trigger] rgba[4 * i + 3] == a,
    ensures
        average_color_spec(width, height, rgba) == (b as int) + 256 * (g as int) + 65536 * (
        r as int) + 16777216 * (a as int),
{
    let n = width * height;
    assert forall|i: int| 0 <= i < n implies #[trigger] rgba[4 * i + 0] == r by {
        assert(rgba[4 * i] == r);
    }
    lemma_uniform_channel_sum(rgba, n, 0, r);
    lemma_uniform_channel_sum(rgba, n, 1, g);
    lemma_uniform_channel_sum(rgba, n, 2, b);
    lemma_uniform_channel_sum(rgba, n, 3, a);
    lemma_uniform_rounded_mean(n, r as int);
    lemma_uniform_rounded_mean(n, g as int);
    lemma_uniform_rounded_mean(n, b as int);
    lemma_uniform_rounded_mean(n, a as int);
}

/// The channel sum of a uniform channel is `k` times the common value.
proof fn lemma_uniform_channel_sum(rgba: Seq<u8>, k: int, c: int, v: u8)
    requires
        0 <= k,
        0 <= c < 4,
        forall|i: int| 0 <= i < k ==> #[trigger] rgba[4 * i + c] == v,
    ensures
        channel_sum(rgba, k, c) == k * (v as int),
    decreases k,
{
    if k == 0 {
        assert(k * (v as int) == 0) by (nonlinear_arith)
            requires
                k == 0,
        ;
    } else {
        lemma_uniform_channel_sum(rgba, k - 1, c, v);
        assert(rgba[4 * (k - 1) + c] == v);
        assert((k - 1) * (v as int) + (v as int) == k * (v as int)) by (nonlinear_arith);
    }
}

/// The rounded mean of `n` copies of `v` is `v`.
proof fn lemma_uniform_rounded_mean(n: int, v: int)
    requires
        n > 0,
        0 <= v,
    ensures
        rounded_mean(n * v, n) == v,
{
    assert(2 * (n * v) + n == (2 * n) * v + n) by (nonlinear_arith);
    lemma_div_multiples_vanish_fancy(v, n, 2 * n);
}

} // verus!
