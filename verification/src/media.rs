//! Media framing options for the 720x1280 live stream, and copying a picture into the BGRA
//! frame buffer.
use vstd::prelude::*;
use vstd::string::StringExecFns;
use crate::picture::{
    resize_exact, rotate_180, rotate_270, rotate_90, triangle_resized, turned_180, turned_270,
    turned_90, ResizeFilter, RgbaImage,
};
use crate::text::{ascii_lower, chars_of, lower_equals};
use crate::renderer::{
    fill_rect_bgra, filled, in_rect, lemma_pixel_of_byte, lemma_pixel_offset, pixel_x, pixel_y, whole_pixel, HEIGHT, WIDTH,
};

verus! {

/// How a picture or video frame is scaled to the 9:16 panel.
#[derive(Debug, Clone, Copy, PartialEq, Eq, Structural)]
pub enum ScaleMode {
    /// Crop to fill 9:16 (no black bars, maintains aspect ratio)
    Fill,
    /// Letterbox / Pillarbox (black bars, complete content visible)
    Fit,
    /// Non-uniform stretch to 720x1280
    Stretch,
    /// User interactive pan / zoom framing
    CustomCrop,
}

impl ScaleMode {
    /// The human-readable label of the mode.
    pub fn label(&self) -> (r: &'static str)
        ensures
            r@ == match *self {
                ScaleMode::Fill => "Fill (Crop to 9:16)"@,
                ScaleMode::Fit => "Fit (Letterbox)"@,
                ScaleMode::Stretch => "Stretch (Full Frame)"@,
                ScaleMode::CustomCrop => "Custom Pan & Zoom"@,
            },
    {
        match self {
            ScaleMode::Fill => "Fill (Crop to 9:16)",
            ScaleMode::Fit => "Fit (Letterbox)",
            ScaleMode::Stretch => "Stretch (Full Frame)",
            ScaleMode::CustomCrop => "Custom Pan & Zoom",
        }
    }
}

/// Clockwise rotation applied before scaling.
#[derive(Debug, Clone, Copy, PartialEq, Eq, Structural)]
pub enum Rotation {
    Rot0,
    Rot90,
    Rot180,
    Rot270,
}

impl Rotation {
    /// The human-readable label of the rotation.
    pub fn label(&self) -> (r: &'static str)
        ensures
            r@ == match *self {
                Rotation::Rot0 => "0° (Default)"@,
                Rotation::Rot90 => "90° Clockwise"@,
                Rotation::Rot180 => "180° Inverted"@,
                Rotation::Rot270 => "270° (90° CCW)"@,
            },
    {
        match self {
            Rotation::Rot0 => "0° (Default)",
            Rotation::Rot90 => "90° Clockwise",
            Rotation::Rot180 => "180° Inverted",
            Rotation::Rot270 => "270° (90° CCW)",
        }
    }
}

/// The byte of an RGBA pixel that goes to byte `c` of a BGRA pixel.
pub open spec fn bgra_source(c: int) -> int {
    if c == 0 {
        2
    } else if c == 2 {
        0
    } else {
        c
    }
}

/// `s` with the `w` x `h` RGBA picture `px` copied in as BGRA with its top left pixel at
/// (`ox`, `oy`), clipped to the 720x1280 canvas and to whole pixels of the buffer.
pub open spec fn blitted(s: Seq<u8>, w: int, h: int, px: Seq<u8>, ox: int, oy: int) -> Seq<u8> {
    Seq::new(
        s.len(),
        |k: int|
            if in_rect(k, s.len() as int, ox, oy, w, h) {
                px[((pixel_y(k) - oy) * w + (pixel_x(k) - ox)) * 4 + bgra_source(k % 4)]
            } else {
                s[k]
            },
    )
}

/// Pixel (`x`, `y`) of a `w` x `h` picture lies inside its bytes.
proof fn lemma_source_pixel(w: int, h: int, x: int, y: int)
    requires
        0 <= x < w,
        0 <= y < h,
    ensures
        0 <= y * w <= y * w + x,
        (y * w + x) * 4 + 3 < w * h * 4,
{
    assert(0 <= y * w <= y * w + x) by (nonlinear_arith)
        requires
            0 <= x < w,
            0 <= y < h,
    {
    }
    assert((y * w + x) * 4 + 3 < w * h * 4) by (nonlinear_arith)
        requires
            0 <= x < w,
            0 <= y < h,
    {
    }
}

/// Copies `img` into the 720x1280 BGRA buffer with its top left pixel at
/// (`offset_x`, `offset_y`); what falls outside the canvas or the buffer is left out.
pub fn copy_image_to_bgra_buffer(img: &RgbaImage, buffer: &mut [u8], offset_x: usize, offset_y: usize)
    requires
        img.wf(),
    ensures
        final(buffer)@ == blitted(
            old(buffer)@,
            img.width as int,
            img.height as int,
            img.pixels@,
            offset_x as int,
            offset_y as int,
        ),
{
    let ghost s = buffer@;
    let ghost px = img.pixels@;
    let len = buffer.len();
    let w = img.width as usize;
    let h = img.height as usize;
    let plen = img.pixels.len();
    let rows: usize = if offset_y >= HEIGHT {
        0
    } else if h < HEIGHT - offset_y {
        h
    } else {
        HEIGHT - offset_y
    };
    let cols: usize = if offset_x >= WIDTH {
        0
    } else if w < WIDTH - offset_x {
        w
    } else {
        WIDTH - offset_x
    };
    let ghost ox = offset_x as int;
    let ghost oy = offset_y as int;
    let mut y: usize = 0;
    while y < rows
        invariant
            len == s.len(),
            buffer@.len() == s.len(),
            img.wf(),
            px == img.pixels@,
            plen == px.len(),
            ox == offset_x,
            oy == offset_y,
            w == img.width,
            h == img.height,
            rows <= h,
            cols <= w,
            offset_y + rows <= HEIGHT || rows == 0,
            offset_x + cols <= WIDTH || cols == 0,
            rows == (if oy >= 1280 { 0 } else if h < 1280 - oy { h as int } else { 1280 - oy }),
            cols == (if ox >= 720 { 0 } else if w < 720 - ox { w as int } else { 720 - ox }),
            y <= rows,
            forall|k: int|
                0 <= k < s.len() ==> #[trigger] buffer@[k] == (if whole_pixel(k, s.len() as int) && ox
                    <= pixel_x(k) < ox + cols && oy <= pixel_y(k) < oy + y {
                    px[((pixel_y(k) - oy) * w + (pixel_x(k) - ox)) * 4 + bgra_source(k % 4)]
                } else {
                    s[k]
                }),
        decreases rows - y,
    {
        let dst_y = offset_y + y;
        let mut x: usize = 0;
        while x < cols
            invariant
                len == s.len(),
                buffer@.len() == s.len(),
                img.wf(),
                px == img.pixels@,
                plen == px.len(),
                ox == offset_x,
                oy == offset_y,
                w == img.width,
                h == img.height,
                rows <= h,
                cols <= w,
                offset_x + cols <= WIDTH || cols == 0,
                y < rows,
                offset_y + rows <= HEIGHT,
                dst_y == offset_y + y,
                x <= cols,
                forall|k: int|
                    0 <= k < s.len() ==> #[trigger] buffer@[k] == (if whole_pixel(k, s.len() as int)
                        && ox <= pixel_x(k) < ox + cols && (oy <= pixel_y(k) < oy + y || (pixel_y(k)
                        == oy + y && pixel_x(k) < ox + x)) {
                        px[((pixel_y(k) - oy) * w + (pixel_x(k) - ox)) * 4 + bgra_source(k % 4)]
                    } else {
                        s[k]
                    }),
            decreases cols - x,
        {
            let dst_x = offset_x + x;
            let dst_idx = (dst_y * WIDTH + dst_x) * 4;
            proof {
                lemma_source_pixel(w as int, h as int, x as int, y as int);
            }
            let src = (y * w + x) * 4;
            if dst_idx + 3 < len {
                buffer[dst_idx] = img.pixels[src + 2];
                buffer[dst_idx + 1] = img.pixels[src + 1];
                buffer[dst_idx + 2] = img.pixels[src];
                buffer[dst_idx + 3] = img.pixels[src + 3];
            }
            proof {
                assert forall|k: int| 0 <= k < s.len() implies #[trigger] buffer@[k] == (if whole_pixel(
                    k,
                    s.len() as int,
                ) && ox <= pixel_x(k) < ox + cols && (oy <= pixel_y(k) < oy + y || (pixel_y(k) == oy
                    + y && pixel_x(k) < ox + x + 1)) {
                    px[((pixel_y(k) - oy) * w + (pixel_x(k) - ox)) * 4 + bgra_source(k % 4)]
                } else {
                    s[k]
                }) by {
                    lemma_pixel_of_byte(k);
                    if dst_idx <= k < dst_idx + 4 {
                        lemma_pixel_offset(dst_x as int, dst_y as int, k - dst_idx);
                        assert(pixel_y(k) - oy == y);
                        assert(pixel_x(k) - ox == x);
                        assert((pixel_y(k) - oy) * w == y * w);
                    } else {
                        if pixel_y(k) == dst_y && pixel_x(k) == dst_x {
                            lemma_pixel_offset(dst_x as int, dst_y as int, k % 4);
                        }
                    }
                }
            }
            x = x + 1;
        }
        y = y + 1;
    }
    proof {
        assert forall|k: int| 0 <= k < s.len() implies #[trigger] buffer@[k] == blitted(
            s,
            w as int,
            h as int,
            px,
            ox,
            oy,
        )[k] by {
            lemma_pixel_of_byte(k);
        }
        assert(buffer@ =~= blitted(s, w as int, h as int, px, ox, oy));
    }
}

/// `name` spells `word` once lowercased (for these ASCII words, Unicode lowercasing and ASCII
/// lowercasing agree: no uppercase letter but ASCII ones lowercases to one of their letters).
pub open spec fn names(name: Seq<char>, word: Seq<char>) -> bool {
    name.map_values(|c: char| ascii_lower(c)) == word
}

/// The scaling mode that a command-line name selects: "fit" or "letterbox", "stretch", and
/// fill for anything else.
pub open spec fn scale_mode_for(name: Seq<char>) -> ScaleMode {
    if names(name, "fit"@) || names(name, "letterbox"@) {
        ScaleMode::Fit
    } else if names(name, "stretch"@) {
        ScaleMode::Stretch
    } else {
        ScaleMode::Fill
    }
}

/// The scaling mode named `name` (any letter case), as `scale_mode_for`.
pub fn scale_mode_named(name: &str) -> (r: ScaleMode)
    ensures
        r == scale_mode_for(name@),
{
    let v = chars_of(name);
    let n = v.len();
    proof {
        assert(v@.subrange(0, n as int) =~= name@);
    }
    if lower_equals(&v, 0, n, "fit") || lower_equals(&v, 0, n, "letterbox") {
        ScaleMode::Fit
    } else if lower_equals(&v, 0, n, "stretch") {
        ScaleMode::Stretch
    } else {
        ScaleMode::Fill
    }
}

/// The rotation of `degrees`: 90, 180 or 270, and none for anything else.
pub fn rotation_from_degrees(degrees: u32) -> (r: Rotation)
    ensures
        r == (if degrees == 90 {
            Rotation::Rot90
        } else if degrees == 180 {
            Rotation::Rot180
        } else if degrees == 270 {
            Rotation::Rot270
        } else {
            Rotation::Rot0
        }),
{
    if degrees == 90 {
        Rotation::Rot90
    } else if degrees == 180 {
        Rotation::Rot180
    } else if degrees == 270 {
        Rotation::Rot270
    } else {
        Rotation::Rot0
    }
}

/// The ffmpeg filter of a rotation ("" for none).
pub open spec fn rotation_filter_text(rotation: Rotation) -> Seq<char> {
    match rotation {
        Rotation::Rot0 => ""@,
        Rotation::Rot90 => "transpose=1"@,
        Rotation::Rot180 => "hflip,vflip"@,
        Rotation::Rot270 => "transpose=2"@,
    }
}

/// The ffmpeg filter of a rotation ("" for none).
pub fn rotation_filter(rotation: Rotation) -> (r: &'static str)
    ensures
        r@ == rotation_filter_text(rotation),
{
    match rotation {
        Rotation::Rot0 => "",
        Rotation::Rot90 => "transpose=1",
        Rotation::Rot180 => "hflip,vflip",
        Rotation::Rot270 => "transpose=2",
    }
}

/// The ffmpeg scaling filter of a scaling mode; the custom pan and zoom framing has none fixed
/// (its numbers come from the zoom and pan settings).
pub fn scale_filter(mode: ScaleMode) -> (r: Option<&'static str>)
    ensures
        match mode {
            ScaleMode::Stretch => r matches Some(f) && f@ == "scale=720:1280"@,
            ScaleMode::Fit => r matches Some(f) && f@
                == "scale=720:1280:force_original_aspect_ratio=decrease,pad=720:1280:(ow-iw)/2:(oh-ih)/2:black"@,
            ScaleMode::Fill => r matches Some(f) && f@
                == "scale=720:1280:force_original_aspect_ratio=increase,crop=720:1280"@,
            ScaleMode::CustomCrop => r is None,
        },
{
    match mode {
        ScaleMode::Stretch => Some("scale=720:1280"),
        ScaleMode::Fit => Some(
            "scale=720:1280:force_original_aspect_ratio=decrease,pad=720:1280:(ow-iw)/2:(oh-ih)/2:black",
        ),
        ScaleMode::Fill => Some("scale=720:1280:force_original_aspect_ratio=increase,crop=720:1280"),
        ScaleMode::CustomCrop => None,
    }
}

/// The ffmpeg filter graph: the rotation filter, if any, then the scaling filter `scale`,
/// joined by a comma.
pub fn filter_string(rotation: Rotation, scale: &str) -> (r: String)
    ensures
        r@ == (if rotation == Rotation::Rot0 {
            scale@
        } else {
            rotation_filter_text(rotation) + ","@ + scale@
        }),
{
    let mut out = String::new();
    if rotation != Rotation::Rot0 {
        out.append(rotation_filter(rotation));
        out.append(",");
    }
    out.append(scale);
    proof {
        reveal_strlit(",");
        reveal_strlit("");
    }
    out
}

/// The picture (width, height, bytes) of the `w` x `h` RGBA picture `px` turned by `rotation`.
pub open spec fn rotated(px: Seq<u8>, w: u32, h: u32, rotation: Rotation) -> (u32, u32, Seq<u8>) {
    match rotation {
        Rotation::Rot0 => (w, h, px),
        Rotation::Rot90 => (h, w, turned_90(px, w as int, h as int)),
        Rotation::Rot180 => (w, h, turned_180(px, w as int, h as int)),
        Rotation::Rot270 => (h, w, turned_270(px, w as int, h as int)),
    }
}

/// The picture turned clockwise by `rotation`, as `rotated`.
pub fn rotate_picture(img: &RgbaImage, rotation: Rotation) -> (r: RgbaImage)
    requires
        img.wf(),
    ensures
        r.wf(),
        (r.width, r.height, r.pixels@) == rotated(img.pixels@, img.width, img.height, rotation),
{
    match rotation {
        Rotation::Rot0 => img.clone_picture(),
        Rotation::Rot90 => rotate_90(img),
        Rotation::Rot180 => rotate_180(img),
        Rotation::Rot270 => rotate_270(img),
    }
}

/// The 720x1280 frame buffer `s` after a media frame in stretch mode: the picture turned by
/// `rotation`, then, if it has pixels, resampled (Triangle) to exactly 720x1280 and written
/// over the whole frame; a picture without pixels gives an opaque black frame instead.
pub open spec fn stretched_frame(s: Seq<u8>, px: Seq<u8>, w: u32, h: u32, rotation: Rotation) -> Seq<u8> {
    let (rw, rh, rp) = rotated(px, w, h, rotation);
    if rw == 0 || rh == 0 {
        filled(s, 0, 0, 720, 1280, seq![0x00u8, 0x00, 0x00, 0xff])
    } else {
        blitted(s, 720, 1280, triangle_resized(rp, rw, rh, 720, 1280), 0, 0)
    }
}

/// Writes a media frame in stretch mode: the picture turned by `rotation` and stretched to the
/// whole 720x1280 frame (Triangle filter), or a black frame for a picture without pixels, as
/// `stretched_frame`.
pub fn stretch_to_bgra(img: &RgbaImage, rotation: Rotation, buffer: &mut [u8])
    requires
        img.wf(),
    ensures
        final(buffer)@ == stretched_frame(old(buffer)@, img.pixels@, img.width, img.height, rotation),
{
    let turned = rotate_picture(img, rotation);
    if turned.width == 0 || turned.height == 0 {
        fill_rect_bgra(buffer, 0, 0, WIDTH, HEIGHT, [0x00, 0x00, 0x00, 0xff]);
        assert([0x00u8, 0x00, 0x00, 0xff]@ =~= seq![0x00u8, 0x00, 0x00, 0xff]);
        return;
    }
    let resized = resize_exact(&turned, 720, 1280, ResizeFilter::Triangle);
    copy_image_to_bgra_buffer(&resized, buffer, 0, 0);
}

} // verus!
