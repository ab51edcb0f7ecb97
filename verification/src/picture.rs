//! 8-bit pictures held as plain pixel bytes, the pixel operations the panel code needs
//! (channel conversion, cropping, letterboxing), and resampling through the `image` crate.
use vstd::prelude::*;

verus! {

/// An 8-bit RGB picture: `width` x `height` pixels, row by row, three bytes each.
#[derive(Debug, Clone)]
pub struct RgbImage {
    pub width: u32,
    pub height: u32,
    pub pixels: Vec<u8>,
}

/// An 8-bit RGBA picture: `width` x `height` pixels, row by row, four bytes each.
#[derive(Debug, Clone)]
pub struct RgbaImage {
    pub width: u32,
    pub height: u32,
    pub pixels: Vec<u8>,
}

impl RgbImage {
    /// The pixel bytes are exactly the picture's.
    pub open spec fn wf(&self) -> bool {
        self.pixels@.len() == self.width as nat * self.height as nat * 3
    }

    /// A black picture of `width` x `height` pixels.
    pub fn new(width: u32, height: u32) -> (r: RgbImage)
        requires
            width as nat * height as nat * 3 <= usize::MAX,
        ensures
            r.width == width,
            r.height == height,
            r.wf(),
            forall|k: int| 0 <= k < r.pixels@.len() ==> r.pixels@[k] == 0,
    {
        let len = width as usize * height as usize * 3;
        let mut pixels: Vec<u8> = Vec::new();
        let mut k: usize = 0;
        while k < len
            invariant
                k <= len,
                pixels@.len() == k,
                forall|j: int| 0 <= j < k ==> pixels@[j] == 0,
            decreases len - k,
        {
            pixels.push(0);
            k = k + 1;
        }
        RgbImage { width, height, pixels }
    }
}

impl RgbaImage {
    /// The pixel bytes are exactly the picture's.
    pub open spec fn wf(&self) -> bool {
        self.pixels@.len() == self.width as nat * self.height as nat * 4
    }

    /// A copy of the picture.
    pub fn clone_picture(&self) -> (r: RgbaImage)
        ensures
            r.width == self.width,
            r.height == self.height,
            r.pixels@ == self.pixels@,
    {
        let pixels = self.pixels.clone();
        assert(pixels@ =~= self.pixels@);
        RgbaImage { width: self.width, height: self.height, pixels }
    }
}

/// The resampling filter of a resize.
#[derive(Debug, Clone, Copy, PartialEq, Eq, Structural)]
pub enum ResizeFilter {
    Triangle,
    Lanczos3,
}

/// Whether a `width` x `height` picture can be scaled to cover `nwidth` x `nheight` without
/// either scaled side passing 2^31 pixels: neither side is more than 2^31 times longer,
/// relative to the other, than the target's.
pub open spec fn cover_scalable(width: u32, height: u32, nwidth: u32, nheight: u32) -> bool {
    &&& width > 0
    &&& height > 0
    &&& width as nat * nheight as nat <= 0x8000_0000 * height as nat
    &&& height as nat * nwidth as nat <= 0x8000_0000 * width as nat
}

/// The pixel bytes of `image::imageops::resize` of the `width` x `height` RGBA picture `px` to
/// exactly `nwidth` x `nheight` pixels with the Triangle filter. The Triangle weights and the
/// sums over them are plain `f32` additions, multiplications, divisions, `floor`, `ceil` and
/// rounding, so the bytes are a function of these arguments alone.
pub uninterp spec fn triangle_resized(px: Seq<u8>, width: u32, height: u32, nwidth: u32, nheight: u32) -> Seq<u8>;

/// Calls `image::imageops::resize` to resample an RGBA picture to exactly `nwidth` x
/// `nheight` pixels (an empty picture gives a blank one of that size). The result has that
/// size and four bytes a pixel. A picture that already has that size is copied unchanged
/// (`resize` checks for it before resampling); with the Triangle filter the bytes are the
/// named `triangle_resized` of the arguments. The Lanczos3 bytes are not stated: its weights
/// come from `f32::sin`, whose last bits may differ between platforms.
#[verifier::external_body]
pub(crate) fn resize_exact(img: &RgbaImage, nwidth: u32, nheight: u32, filter: ResizeFilter) -> (r:
    RgbaImage)
    requires
        img.wf(),
        nwidth as nat * nheight as nat * 4 <= usize::MAX,
    ensures
        r.width == nwidth,
        r.height == nheight,
        r.wf(),
        img.width == nwidth && img.height == nheight ==> r.pixels@ == img.pixels@,
        filter == ResizeFilter::Triangle ==> r.pixels@ == triangle_resized(
            img.pixels@,
            img.width,
            img.height,
            nwidth,
            nheight,
        ),
{
    let src = image::RgbaImage::from_raw(img.width, img.height, img.pixels.clone()).unwrap();
    let kind = match filter {
        ResizeFilter::Triangle => image::imageops::FilterType::Triangle,
        ResizeFilter::Lanczos3 => image::imageops::FilterType::Lanczos3,
    };
    let out = image::imageops::resize(&src, nwidth, nheight, kind);
    RgbaImage { width: out.width(), height: out.height(), pixels: out.into_raw() }
}

/// The size (width, height) that `image::DynamicImage::resize` gives a `width` x `height`
/// picture fitted into `nwidth` x `nheight`: the size `resize_dimensions` computes in `f64`
/// (the smaller of the two scale ratios, each side rounded, at least 1), or the picture's own
/// size when it already is the bound.
pub uninterp spec fn fit_size(width: u32, height: u32, nwidth: u32, nheight: u32) -> (u32, u32);

/// Calls `image::DynamicImage::resize`, which scales the picture with its aspect ratio kept to
/// the largest size inside `nwidth` x `nheight`. The result has four bytes a pixel and the
/// named `fit_size` of the arguments; for a non-empty bound each side lies within it, and for a
/// picture with a non-empty side one side meets the bound (the scale ratio of that side is
/// the one chosen, and `f64` rounding of `side * (bound / side)` gives back the bound). A
/// picture that is already the bound is returned as it is (`resize` checks for it), and one
/// whose fitted size is its own size is copied (`imageops::resize` checks for it); otherwise the
/// resampling is `imageops::resize` to the fitted size, so with the Triangle filter the bytes
/// are the named `triangle_resized`. The Lanczos3 bytes are not stated (`f32::sin` weights).
#[verifier::external_body]
pub(crate) fn resize_fit(img: &RgbaImage, nwidth: u32, nheight: u32, filter: ResizeFilter) -> (r:
    RgbaImage)
    requires
        img.wf(),
        nwidth as nat * nheight as nat * 4 <= usize::MAX,
    ensures
        r.wf(),
        (r.width, r.height) == fit_size(img.width, img.height, nwidth, nheight),
        nwidth >= 1 && nheight >= 1 ==> 1 <= r.width <= nwidth && 1 <= r.height <= nheight,
        nwidth >= 1 && nheight >= 1 && (img.width > 0 || img.height > 0) ==> (r.width == nwidth
            || r.height == nheight),
        img.width == nwidth && img.height == nheight ==> r.width == nwidth && r.height == nheight,
        r.width == img.width && r.height == img.height ==> r.pixels@ == img.pixels@,
        filter == ResizeFilter::Triangle ==> r.pixels@ == triangle_resized(
            img.pixels@,
            img.width,
            img.height,
            r.width,
            r.height,
        ),
{
    let src = image::RgbaImage::from_raw(img.width, img.height, img.pixels.clone()).unwrap();
    let kind = match filter {
        ResizeFilter::Triangle => image::imageops::FilterType::Triangle,
        ResizeFilter::Lanczos3 => image::imageops::FilterType::Lanczos3,
    };
    let out = image::DynamicImage::ImageRgba8(src).resize(nwidth, nheight, kind).into_rgba8();
    RgbaImage { width: out.width(), height: out.height(), pixels: out.into_raw() }
}

/// Calls `image::DynamicImage::resize_to_fill`, which scales the picture with its aspect
/// ratio kept to cover `nwidth` x `nheight` and crops the middle of it to exactly that size.
/// The picture must be scalable that way (`cover_scalable`): otherwise a scaled side would
/// pass `u32::MAX` and the crop come out smaller, or the intermediate picture not fit in
/// memory. The result is `nwidth` x `nheight` with four bytes a pixel. A picture that already
/// is `nwidth` x `nheight` comes back unchanged: its covering size is its own size, so the
/// resize copies it and the crop takes all of it. More generally, a picture as tall as the
/// bound and at least as wide (or as wide and at least as tall) has scale ratio exactly 1.0
/// on that side, which is the larger ratio, so `resize_dimensions` gives its own size, the
/// resize copies it, and `resize_to_fill` crops its middle: the result is the centre
/// `nwidth` x `nheight` part of the picture, unscaled. Other pixel values are not stated (the
/// library resizes to fill only with Lanczos3, whose weights come from `f32::sin`).
#[verifier::external_body]
pub(crate) fn resize_fill(img: &RgbaImage, nwidth: u32, nheight: u32, filter: ResizeFilter) -> (r:
    RgbaImage)
    requires
        img.wf(),
        cover_scalable(img.width, img.height, nwidth, nheight),
        0 < nwidth <= 65536,
        0 < nheight <= 65536,
        nwidth as nat * nheight as nat * 4 <= usize::MAX,
    ensures
        r.width == nwidth,
        r.height == nheight,
        r.wf(),
        img.width == nwidth && img.height == nheight ==> r.pixels@ == img.pixels@,
        (img.height == nheight && img.width >= nwidth) || (img.width == nwidth && img.height
            >= nheight) ==> r.pixels@ == cropped(
            img.width as int,
            img.pixels@,
            (img.width - nwidth) / 2,
            (img.height - nheight) / 2,
            nwidth as int,
            nheight as int,
        ),
{
    let src = image::RgbaImage::from_raw(img.width, img.height, img.pixels.clone()).unwrap();
    let kind = match filter {
        ResizeFilter::Triangle => image::imageops::FilterType::Triangle,
        ResizeFilter::Lanczos3 => image::imageops::FilterType::Lanczos3,
    };
    let out = image::DynamicImage::ImageRgba8(src).resize_to_fill(nwidth, nheight, kind).into_rgba8();
    RgbaImage { width: out.width(), height: out.height(), pixels: out.into_raw() }
}

/// The bytes of the `w` x `h` RGBA picture `px` turned 90 degrees clockwise (an `h` x `w`
/// picture): output pixel (X, Y) is input pixel (Y, h - 1 - X).
pub open spec fn turned_90(px: Seq<u8>, w: int, h: int) -> Seq<u8> {
    Seq::new((w * h * 4) as nat, |k: int| px[((h - 1 - (k / 4) % h) * w + (k / 4) / h) * 4 + k % 4])
}

/// The bytes of the `w` x `h` RGBA picture `px` turned 180 degrees: output pixel (X, Y) is
/// input pixel (w - 1 - X, h - 1 - Y).
pub open spec fn turned_180(px: Seq<u8>, w: int, h: int) -> Seq<u8> {
    Seq::new(
        (w * h * 4) as nat,
        |k: int| px[((h - 1 - (k / 4) / w) * w + (w - 1 - (k / 4) % w)) * 4 + k % 4],
    )
}

/// The bytes of the `w` x `h` RGBA picture `px` turned 270 degrees clockwise (an `h` x `w`
/// picture): output pixel (X, Y) is input pixel (w - 1 - Y, X).
pub open spec fn turned_270(px: Seq<u8>, w: int, h: int) -> Seq<u8> {
    Seq::new((w * h * 4) as nat, |k: int| px[((k / 4) % h * w + (w - 1 - (k / 4) / h)) * 4 + k % 4])
}

/// Calls `image::imageops::rotate90`, which writes input pixel (x, y) to output pixel
/// (h - 1 - y, x) of an `h` x `w` picture: the result is `turned_90` of the picture.
#[verifier::external_body]
pub(crate) fn rotate_90(img: &RgbaImage) -> (r: RgbaImage)
    requires
        img.wf(),
    ensures
        r.width == img.height,
        r.height == img.width,
        r.wf(),
        r.pixels@ == turned_90(img.pixels@, img.width as int, img.height as int),
{
    let src = image::RgbaImage::from_raw(img.width, img.height, img.pixels.clone()).unwrap();
    let out = image::imageops::rotate90(&src);
    RgbaImage { width: out.width(), height: out.height(), pixels: out.into_raw() }
}

/// Calls `image::imageops::rotate180`, which writes input pixel (x, y) to output pixel
/// (w - 1 - x, h - 1 - y): the result is `turned_180` of the picture.
#[verifier::external_body]
pub(crate) fn rotate_180(img: &RgbaImage) -> (r: RgbaImage)
    requires
        img.wf(),
    ensures
        r.width == img.width,
        r.height == img.height,
        r.wf(),
        r.pixels@ == turned_180(img.pixels@, img.width as int, img.height as int),
{
    let src = image::RgbaImage::from_raw(img.width, img.height, img.pixels.clone()).unwrap();
    let out = image::imageops::rotate180(&src);
    RgbaImage { width: out.width(), height: out.height(), pixels: out.into_raw() }
}

/// Calls `image::imageops::rotate270`, which writes input pixel (x, y) to output pixel
/// (y, w - 1 - x) of an `h` x `w` picture: the result is `turned_270` of the picture.
#[verifier::external_body]
pub(crate) fn rotate_270(img: &RgbaImage) -> (r: RgbaImage)
    requires
        img.wf(),
    ensures
        r.width == img.height,
        r.height == img.width,
        r.wf(),
        r.pixels@ == turned_270(img.pixels@, img.width as int, img.height as int),
{
    let src = image::RgbaImage::from_raw(img.width, img.height, img.pixels.clone()).unwrap();
    let out = image::imageops::rotate270(&src);
    RgbaImage { width: out.width(), height: out.height(), pixels: out.into_raw() }
}

/// The RGB bytes of the RGBA bytes `px`: each pixel's alpha byte dropped.
pub open spec fn rgb_of(px: Seq<u8>) -> Seq<u8> {
    Seq::new((px.len() / 4 * 3) as nat, |k: int| px[(k / 3) * 4 + k % 3])
}

/// The RGB picture of an RGBA picture: every pixel keeps its red, green and blue bytes and
/// loses its alpha byte, as `image`'s `to_rgb8` converts.
pub fn to_rgb(img: &RgbaImage) -> (r: RgbImage)
    requires
        img.wf(),
    ensures
        r.width == img.width,
        r.height == img.height,
        r.wf(),
        r.pixels@ == rgb_of(img.pixels@),
{
    let plen = img.pixels.len();
    let n = plen / 4;
    let mut out: Vec<u8> = Vec::new();
    let mut p: usize = 0;
    while p < n
        invariant
            plen == img.pixels@.len(),
            n == plen / 4,
            plen % 4 == 0,
            p <= n,
            out@.len() == p * 3,
            forall|k: int| 0 <= k < out@.len() ==> #[trigger] out@[k] == img.pixels@[(k / 3) * 4 + k % 3],
        decreases n - p,
    {
        assert(p * 4 + 3 < plen) by (nonlinear_arith)
            requires
                p < n,
                n == plen / 4,
                plen % 4 == 0,
        {
        }
        let base = p * 4;
        out.push(img.pixels[base]);
        out.push(img.pixels[base + 1]);
        out.push(img.pixels[base + 2]);
        proof {
            assert forall|k: int| 0 <= k < out@.len() implies #[trigger] out@[k] == img.pixels@[(k / 3) * 4 + k % 3] by {
                if k >= p * 3 {
                    assert(k / 3 == p);
                }
            }
        }
        p = p + 1;
    }
    proof {
        assert(out@.len() == (img.pixels@.len() / 4 * 3) as nat);
        assert(out@ =~= rgb_of(img.pixels@));
        assert(img.pixels@.len() / 4 * 3 == img.width as nat * img.height as nat * 3);
    }
    RgbImage { width: img.width, height: img.height, pixels: out }
}

/// `a - b`, or 0 when `b` is larger.
pub open spec fn minus_or_zero(a: int, b: int) -> int {
    if a >= b {
        a - b
    } else {
        0
    }
}

/// The bytes of the 720x1280 black canvas with the `w` x `h` RGB picture `px` laid over it
/// centred (`image::imageops::overlay` at ((720 - w) / 2, (1280 - h) / 2), clipped).
pub open spec fn letterboxed(w: int, h: int, px: Seq<u8>) -> Seq<u8> {
    let ox = minus_or_zero(720, w) / 2;
    let oy = minus_or_zero(1280, h) / 2;
    Seq::new(
        2_764_800,
        |k: int|
            {
                let x = (k / 3) % 720;
                let y = (k / 3) / 720;
                if ox <= x < ox + w && oy <= y < oy + h {
                    px[((y - oy) * w + (x - ox)) * 3 + k % 3]
                } else {
                    0u8
                }
            },
    )
}

/// Where byte `k` of a letterboxed picture comes from lies inside the source picture.
proof fn lemma_letterbox_source(w: int, h: int, x: int, y: int, ox: int, oy: int, c: int)
    requires
        0 <= c < 3,
        ox <= x < ox + w,
        oy <= y < oy + h,
        0 <= ox,
        0 <= oy,
    ensures
        0 <= (y - oy) * w <= (y - oy) * w + (x - ox) < w * h,
        0 <= ((y - oy) * w + (x - ox)) * 3 + c < w * h * 3,
{
    assert(0 <= (y - oy) * w <= (y - oy) * w + (x - ox) < w * h) by (nonlinear_arith)
        requires
            0 <= x - ox < w,
            0 <= y - oy < h,
    {
    }
}

/// A picture that already fills the 720x1280 frame is laid over it unchanged.
pub proof fn lemma_letterbox_of_full_frame(q: Seq<u8>)
    requires
        q.len() == 2_764_800,
    ensures
        letterboxed(720, 1280, q) == q,
{
    assert forall|k: int| 0 <= k < 2_764_800 implies #[trigger] letterboxed(720, 1280, q)[k] == q[k] by {
        let x = (k / 3) % 720;
        let y = (k / 3) / 720;
        assert((y * 720 + x) * 3 + k % 3 == k) by (nonlinear_arith)
            requires
                x == (k / 3) % 720,
                y == (k / 3) / 720,
                0 <= k,
        {
        }
        assert(0 <= y < 1280);
    }
    assert(letterboxed(720, 1280, q) =~= q);
}

/// The 720x1280 picture with `img` centred on black, as `image::imageops::overlay` lays an
/// RGB picture (every covered pixel replaced) over a black `RgbImage::from_pixel` canvas.
pub fn letterbox(img: &RgbImage) -> (r: RgbImage)
    requires
        img.wf(),
    ensures
        r.width == 720,
        r.height == 1280,
        r.wf(),
        r.pixels@ == letterboxed(img.width as int, img.height as int, img.pixels@),
{
    let w = img.width as usize;
    let h = img.height as usize;
    let ox: usize = if w < 720 {
        (720 - w) / 2
    } else {
        0
    };
    let oy: usize = if h < 1280 {
        (1280 - h) / 2
    } else {
        0
    };
    let ghost goal = letterboxed(w as int, h as int, img.pixels@);
    let plen = img.pixels.len();
    let mut out: Vec<u8> = Vec::new();
    let mut k: usize = 0;
    while k < 2_764_800
        invariant
            w == img.width,
            h == img.height,
            img.wf(),
            plen == img.pixels@.len(),
            ox == minus_or_zero(720, w as int) / 2,
            oy == minus_or_zero(1280, h as int) / 2,
            goal == letterboxed(w as int, h as int, img.pixels@),
            k <= 2_764_800,
            out@.len() == k,
            forall|j: int| 0 <= j < k ==> #[trigger] out@[j] == goal[j],
        decreases 2_764_800 - k,
    {
        let x = (k / 3) % 720;
        let y = (k / 3) / 720;
        if ox <= x && x < ox + w && oy <= y && y < oy + h {
            proof {
                lemma_letterbox_source(w as int, h as int, x as int, y as int, ox as int, oy as int, (k % 3) as int);
            }
            let src = ((y - oy) * w + (x - ox)) * 3 + k % 3;
            out.push(img.pixels[src]);
        } else {
            out.push(0);
        }
        k = k + 1;
    }
    assert(out@ =~= goal);
    RgbImage { width: 720, height: 1280, pixels: out }
}

/// The bytes of the `cw` x `ch` part of the `w`-pixel-wide RGBA picture `px` whose top left
/// pixel is (`x`, `y`).
pub open spec fn cropped(w: int, px: Seq<u8>, x: int, y: int, cw: int, ch: int) -> Seq<u8> {
    Seq::new(
        (cw * ch * 4) as nat,
        |k: int| px[((y + (k / 4) / cw) * w + (x + (k / 4) % cw)) * 4 + k % 4],
    )
}

/// The crop rectangle as `image::imageops::crop_imm` clamps it to the picture: origin, width
/// and height.
pub open spec fn crop_box(w: u32, h: u32, x: u32, y: u32, cw: u32, ch: u32) -> (u32, u32, u32, u32) {
    let x2 = if x < w {
        x
    } else {
        w
    };
    let y2 = if y < h {
        y
    } else {
        h
    };
    let cw2 = if cw < w - x2 {
        cw
    } else {
        (w - x2) as u32
    };
    let ch2 = if ch < h - y2 {
        ch
    } else {
        (h - y2) as u32
    };
    (x2, y2, cw2, ch2)
}

/// Where byte `k` of a crop comes from lies inside the source picture.
proof fn lemma_crop_source(w: int, h: int, x: int, y: int, cw: int, ch: int, k: int)
    requires
        0 <= x,
        0 <= y,
        0 < cw,
        x + cw <= w,
        y + ch <= h,
        0 <= k < cw * ch * 4,
    ensures
        0 <= (k / 4) / cw < ch,
        0 <= (k / 4) % cw < cw,
        0 <= (y + (k / 4) / cw) * w <= (y + (k / 4) / cw) * w + (x + (k / 4) % cw) < w * h,
        0 <= ((y + (k / 4) / cw) * w + (x + (k / 4) % cw)) * 4 + k % 4 < w * h * 4,
{
    let p = k / 4;
    assert(p < cw * ch) by (nonlinear_arith)
        requires
            0 <= k < cw * ch * 4,
            p == k / 4,
    {
    }
    assert(0 <= p / cw < ch) by (nonlinear_arith)
        requires
            0 <= p < cw * ch,
            0 < cw,
    {
    }
    assert(0 <= (y + p / cw) * w <= (y + p / cw) * w + (x + p % cw) < w * h) by (nonlinear_arith)
        requires
            0 <= y + p / cw < h,
            0 <= x + p % cw < w,
    {
    }
}

/// The part of `img` inside the rectangle at (`x`, `y`) of `cw` x `ch` pixels, clamped to the
/// picture as `image::imageops::crop_imm` clamps it.
pub fn crop(img: &RgbaImage, x: u32, y: u32, cw: u32, ch: u32) -> (r: RgbaImage)
    requires
        img.wf(),
    ensures
        r.wf(),
        ({
            let (x2, y2, cw2, ch2) = crop_box(img.width, img.height, x, y, cw, ch);
            &&& r.width == cw2
            &&& r.height == ch2
            &&& r.pixels@ == cropped(img.width as int, img.pixels@, x2 as int, y2 as int, cw2 as int, ch2 as int)
        }),
{
    let w = img.width;
    let h = img.height;
    let x2 = if x < w {
        x
    } else {
        w
    };
    let y2 = if y < h {
        y
    } else {
        h
    };
    let cw2 = if cw < w - x2 {
        cw
    } else {
        w - x2
    };
    let ch2 = if ch < h - y2 {
        ch
    } else {
        h - y2
    };
    let ghost goal = cropped(w as int, img.pixels@, x2 as int, y2 as int, cw2 as int, ch2 as int);
    assert(cw2 as nat * ch2 as nat * 4 <= w as nat * h as nat * 4) by (nonlinear_arith)
        requires
            cw2 <= w,
            ch2 <= h,
    {
    }
    let plen = img.pixels.len();
    let total = cw2 as usize * ch2 as usize * 4;
    let mut out: Vec<u8> = Vec::new();
    let mut k: usize = 0;
    while k < total
        invariant
            img.wf(),
            w == img.width,
            h == img.height,
            x2 + cw2 <= w,
            y2 + ch2 <= h,
            total == cw2 * ch2 * 4,
            total <= w * h * 4,
            plen == img.pixels@.len(),
            goal == cropped(w as int, img.pixels@, x2 as int, y2 as int, cw2 as int, ch2 as int),
            k <= total,
            out@.len() == k,
            forall|j: int| 0 <= j < k ==> #[trigger] out@[j] == goal[j],
        decreases total - k,
    {
        assert(cw2 > 0) by (nonlinear_arith)
            requires
                k < total,
                total == cw2 * ch2 * 4,
        {
        }
        proof {
            lemma_crop_source(w as int, h as int, x2 as int, y2 as int, cw2 as int, ch2 as int, k as int);
        }
        let cwu = cw2 as usize;
        let p = k / 4;
        let row = y2 as usize + p / cwu;
        let col = x2 as usize + p % cwu;
        let wu = w as usize;
        assert(row * wu <= row * wu + col < w * h);
        let src = (row * wu + col) * 4 + k % 4;
        out.push(img.pixels[src]);
        k = k + 1;
    }
    assert(out@ =~= goal);
    RgbaImage { width: cw2, height: ch2, pixels: out }
}

} // verus!
