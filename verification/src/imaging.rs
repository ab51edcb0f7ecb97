//! Image preparation for the 720x1280 LCD panel: fitting a picture to the panel, baseline
//! JPEG encoding with 4:2:0 subsampling, and the JFIF component numbering that the panel's
//! hardware decoder insists on.
use vstd::prelude::*;
use crate::picture::{
    cover_scalable, cropped, fit_size, lemma_letterbox_of_full_frame, rgb_of, letterbox, letterboxed, resize_exact, resize_fill, resize_fit, to_rgb,
    ResizeFilter, RgbImage, RgbaImage,
};

verus! {

#[verifier::external_type_specification]
#[verifier::external_body]
pub struct ExEncodingError(jpeg_encoder::EncodingError);

#[verifier::external_type_specification]
#[verifier::external_body]
pub struct ExDecodingError(image::ImageError);

/// Why a picture could not be made into a panel JPEG.
#[derive(Debug)]
pub enum PanelImageError {
    /// Failed to load image.
    Load(image::ImageError),
    /// Failed to encode JPEG.
    Encode(jpeg_encoder::EncodingError),
    /// The picture has no pixels, so no scale makes it cover the panel.
    NoPixels,
    /// The picture is so elongated that scaling it to cover the panel would make a side
    /// longer than 2^31 pixels.
    TooElongated,
}

/// How a picture is fitted to the 720x1280 panel.
#[derive(Debug, Clone, Copy, PartialEq, Eq, Structural)]
pub enum FitMode {
    /// Scale to fill the 720x1280 screen, center-cropping any excess (default)
    Cover,
    /// Scale to fit inside 720x1280, letterboxing / pillarboxing with black bars
    Fit,
    /// Force stretch to exact 720x1280
    Stretch,
}

impl Default for FitMode {
    fn default() -> (r: Self)
        ensures
            r == FitMode::Cover,
    {
        FitMode::Cover
    }
}

/// The baseline JPEG that `jpeg_encoder::Encoder` writes for the `width` x `height` RGB bytes
/// `rgb` at `quality`, with 4:2:0 chroma subsampling.
pub uninterp spec fn jpeg_baseline_420(rgb: Seq<u8>, width: u16, height: u16, quality: u8) -> Seq<u8>;

/// Encodes RGB bytes with `jpeg_encoder::Encoder` (quality `quality`, sampling factor 4:2:0,
/// color type RGB) into a byte vector. The encoder refuses data shorter than
/// `width * height * 3` bytes and a zero dimension, and writing into a vector cannot fail;
/// otherwise the bytes are the named `jpeg_baseline_420` of the arguments.
#[verifier::external_body]
fn encode_rgb_420(rgb: &[u8], width: u16, height: u16, quality: u8) -> (r: Result<
    Vec<u8>,
    jpeg_encoder::EncodingError,
>)
    ensures
        r is Err <==> (rgb@.len() < width as nat * height as nat * 3 || width == 0 || height == 0),
        r matches Ok(bytes) ==> bytes@ == jpeg_baseline_420(rgb@, width, height, quality)
            && bytes@.len() <= isize::MAX,
{
    let mut buffer = Vec::new();
    let mut encoder = jpeg_encoder::Encoder::new(&mut buffer, quality);
    encoder.set_sampling_factor(jpeg_encoder::SamplingFactor::R_4_2_0);
    encoder.encode(rgb, width, height, jpeg_encoder::ColorType::Rgb)?;
    Ok(buffer)
}

/// The size (width, height) of the picture that `image::load_from_memory` decodes from
/// `bytes`, or `None` where it reports an error: which bytes decode, and to what size, is
/// fixed by the bytes (the format is guessed from them, and the size read from its header).
pub uninterp spec fn decoded_size(bytes: Seq<u8>) -> Option<(u32, u32)>;

/// Decodes an encoded picture (format guessed from its bytes) with `image::load_from_memory`
/// and converts it to 8-bit RGBA. The outcome and the picture's size are the named
/// `decoded_size` of the bytes, with four bytes a pixel; the pixel values are not stated, as
/// the decoders choose their arithmetic by the processor's features at run time.
#[verifier::external_body]
fn decode_rgba(bytes: &[u8]) -> (r: Result<RgbaImage, image::ImageError>)
    ensures
        r is Ok <==> decoded_size(bytes@) is Some,
        r matches Ok(img) ==> img.wf() && decoded_size(bytes@) == Some((img.width, img.height)),
{
    let img = image::load_from_memory(bytes)?.into_rgba8();
    Ok(RgbaImage { width: img.width(), height: img.height(), pixels: img.into_raw() })
}

/// Decodes a picture file's bytes (format guessed from the bytes) into 8-bit RGBA: a
/// well-formed picture of the decoded size, or the decoder's error as `Load`.
pub fn decode_picture(bytes: &[u8]) -> (r: Result<RgbaImage, PanelImageError>)
    ensures
        match decoded_size(bytes@) {
            Some((w, h)) => r matches Ok(img) && img.wf() && img.width == w && img.height == h,
            None => r matches Err(e) && e is Load,
        },
{
    match decode_rgba(bytes) {
        Ok(img) => Ok(img),
        Err(e) => Err(PanelImageError::Load(e)),
    }
}

/// The quality handed to the encoder: at most 100.
pub open spec fn capped_quality(quality: u8) -> u8 {
    if quality < 100 {
        quality
    } else {
        100
    }
}

/// The panel JPEG of the RGB picture (`width`, `height`, `rgb`): the encoder's output with
/// standard JFIF component IDs, or `None` where the encoder refuses it. The dimensions are
/// handed to the encoder as 16-bit values, cut to their low 16 bits.
pub open spec fn panel_jpeg(width: u32, height: u32, rgb: Seq<u8>, quality: u8) -> Option<Seq<u8>> {
    let w = width as u16;
    let h = height as u16;
    if rgb.len() < w as nat * h as nat * 3 || w == 0 || h == 0 {
        None
    } else {
        Some(jfif_patched(jpeg_baseline_420(rgb, w, h, capped_quality(quality))))
    }
}

/// A 720x1280 RGB picture whose bytes are some picture of the size that a `width` x `height`
/// picture is fitted to (`fit_size` into 720x1280, its aspect ratio kept) centred on black:
/// every pixel outside the centred box is black.
pub open spec fn letterboxed_frame(px: Seq<u8>, width: u32, height: u32) -> bool {
    let (fw, fh) = fit_size(width, height, 720, 1280);
    &&& 1 <= fw <= 720
    &&& 1 <= fh <= 1280
    &&& (width > 0 || height > 0) ==> (fw == 720 || fh == 1280)
    &&& exists|q: Seq<u8>|
        q.len() == fw as nat * fh as nat * 3 && px == #[trigger] letterboxed(fw as int, fh as int, q)
}

/// Prepares any picture for the 720x1280 panel according to the chosen fit mode: stretched
/// to 720x1280, fitted inside it on black bars, or scaled to cover it and center-cropped
/// (Lanczos3 resampling). The result is always 720x1280; in fit mode the picture sits centred
/// on black. The resampled pixel values are the `image` crate's and are not stated. The
/// picture is resampled in 8-bit RGBA, the form it was decoded to.
pub fn process_image(img: &RgbaImage, mode: FitMode) -> (r: RgbImage)
    requires
        img.wf(),
        mode == FitMode::Cover ==> cover_scalable(img.width, img.height, 720, 1280),
    ensures
        r.wf(),
        r.width == 720,
        r.height == 1280,
        mode == FitMode::Fit ==> letterboxed_frame(r.pixels@, img.width, img.height),
        img.width == 720 && img.height == 1280 ==> r.pixels@ == rgb_of(img.pixels@),
        mode == FitMode::Cover && ((img.height == 1280 && img.width >= 720) || (img.width == 720
            && img.height >= 1280)) ==> r.pixels@ == rgb_of(
            cropped(
                img.width as int,
                img.pixels@,
                (img.width - 720) / 2,
                (img.height - 1280) / 2,
                720,
                1280,
            ),
        ),
{
    match mode {
        FitMode::Stretch => {
            let resized = resize_exact(img, 720, 1280, ResizeFilter::Lanczos3);
            to_rgb(&resized)
        },
        FitMode::Fit => {
            let resized = resize_fit(img, 720, 1280, ResizeFilter::Lanczos3);
            let rgb = to_rgb(&resized);
            let r = letterbox(&rgb);
            proof {
                let fs = fit_size(img.width, img.height, 720, 1280);
                assert(resized.width == fs.0 && resized.height == fs.1);
                assert(rgb.pixels@.len() == fs.0 as nat * fs.1 as nat * 3);
                assert(r.pixels@ == letterboxed(fs.0 as int, fs.1 as int, rgb.pixels@));
            }
            assert(letterboxed_frame(r.pixels@, img.width, img.height));
            proof {
                if img.width == 720 && img.height == 1280 {
                    lemma_letterbox_of_full_frame(rgb.pixels@);
                }
            }
            r
        },
        FitMode::Cover => {
            let resized = resize_fill(img, 720, 1280, ResizeFilter::Lanczos3);
            to_rgb(&resized)
        },
    }
}

/// Encodes an RGB picture to a baseline JPEG using YUV 4:2:0 subsampling, matching the panel's
/// hardware JPEG decoder, with the JFIF component IDs it requires.
pub fn encode_to_jpeg(img: &RgbImage, quality: u8) -> (r: Result<Vec<u8>, PanelImageError>)
    ensures
        match panel_jpeg(img.width, img.height, img.pixels@, quality) {
            Some(bytes) => r matches Ok(out) && out@ == bytes,
            None => r matches Err(PanelImageError::Encode(_)),
        },
{
    let q = if quality < 100 {
        quality
    } else {
        100
    };
    match encode_rgb_420(img.pixels.as_slice(), img.width as u16, img.height as u16, q) {
        Ok(mut buffer) => {
            patch_jfif_component_ids(buffer.as_mut_slice());
            Ok(buffer)
        },
        Err(e) => Err(PanelImageError::Encode(e)),
    }
}

/// The panel JPEG of a 720x1280 RGB picture `px` at `quality`.
pub open spec fn panel_frame_jpeg(px: Seq<u8>, quality: u8) -> Seq<u8> {
    jfif_patched(jpeg_baseline_420(px, 720, 1280, capped_quality(quality)))
}

/// Encodes a decoded picture as a 720x1280 panel JPEG. In cover mode a picture without pixels
/// is `NoPixels`, and one too elongated to be scaled to cover the panel (`cover_scalable`) is
/// `TooElongated`; otherwise the result is the panel JPEG of the picture `process_image` makes
/// of it (720x1280, centred on black at its fitted size in fit mode; the picture itself when it
/// already is 720x1280), and encoding never fails.
pub fn prepare_jpeg(img: &RgbaImage, mode: FitMode, quality: u8) -> (r: Result<Vec<u8>, PanelImageError>)
    requires
        img.wf(),
    ensures
        if mode == FitMode::Cover && (img.width == 0 || img.height == 0) {
            r matches Err(e) && e is NoPixels
        } else if mode == FitMode::Cover && !cover_scalable(img.width, img.height, 720, 1280) {
            r matches Err(e) && e is TooElongated
        } else {
            r matches Ok(out) && exists|px: Seq<u8>|
                px.len() == 2_764_800 && (mode == FitMode::Fit ==> letterboxed_frame(
                    px,
                    img.width,
                    img.height,
                )) && (img.width == 720 && img.height == 1280 ==> px == rgb_of(img.pixels@))
                    && out@ == #[trigger] panel_frame_jpeg(px, quality)
        },
{
    if mode == FitMode::Cover {
        if img.width == 0 || img.height == 0 {
            return Err(PanelImageError::NoPixels);
        }
        if !cover_fits(img.width, img.height) {
            return Err(PanelImageError::TooElongated);
        }
    }
    let processed = process_image(img, mode);
    let r = encode_to_jpeg(&processed, quality);
    proof {
        assert(processed.pixels@.len() == 2_764_800);
        if r is Ok {
            assert(r->Ok_0@ == panel_frame_jpeg(processed.pixels@, quality));
        }
    }
    r
}

/// Decodes a picture file's bytes and encodes it as a 720x1280 panel JPEG: a decoding failure
/// is `Load`; otherwise the decoded picture (of the named `decoded_size`) goes through
/// `prepare_jpeg`. The decoded pixels themselves are the decoder's and are not named, so what
/// is stated of the JPEG is what `prepare_jpeg` states of every picture of that size.
pub fn load_and_prepare_jpeg(bytes: &[u8], mode: FitMode, quality: u8) -> (r: Result<
    Vec<u8>,
    PanelImageError,
>)
    ensures
        match decoded_size(bytes@) {
            None => r matches Err(e) && e is Load,
            Some((w, h)) => if mode == FitMode::Cover && (w == 0 || h == 0) {
                r matches Err(e) && e is NoPixels
            } else if mode == FitMode::Cover && !cover_scalable(w, h, 720, 1280) {
                r matches Err(e) && e is TooElongated
            } else {
                r matches Ok(out) && exists|px: Seq<u8>|
                    px.len() == 2_764_800 && (mode == FitMode::Fit ==> letterboxed_frame(px, w, h))
                        && out@ == #[trigger] panel_frame_jpeg(px, quality)
            },
        },
{
    let img = match decode_picture(bytes) {
        Ok(img) => img,
        Err(e) => {
            return Err(e);
        },
    };
    prepare_jpeg(&img, mode, quality)
}

/// Whether a `width` x `height` picture can be scaled to cover the 720x1280 panel
/// (`cover_scalable`).
pub fn cover_fits(width: u32, height: u32) -> (r: bool)
    ensures
        r == cover_scalable(width, height, 720, 1280),
{
    width > 0 && height > 0 && (width as u64) * 1280 <= 0x8000_0000u64 * (height as u64) && (
    height as u64) * 720 <= 0x8000_0000u64 * (width as u64)
}

/// A marker that stands alone, without a length field: SOI, EOI and RST0..RST7.
pub open spec fn is_standalone_marker(m: u8) -> bool {
    m == 0xD8 || m == 0xD9 || (0xD0 <= m && m <= 0xD7)
}

/// The big-endian 16-bit segment length stored after the marker at `i`.
pub open spec fn segment_len(s: Seq<u8>, i: int) -> int {
    256 * (s[i + 2] as int) + s[i + 3] as int
}

/// `s` with the `n` SOF0 component IDs that start at `i + 10` (three bytes apart)
/// renumbered: the ID slot of component `c` that holds `c` is set to `c + 1`.
pub open spec fn renumber_sof(s: Seq<u8>, i: int, n: int) -> Seq<u8> {
    Seq::new(
        s.len(),
        |k: int|
            if k >= i + 10 && (k - (i + 10)) % 3 == 0 && (k - (i + 10)) / 3 < n && s[k] as int == (k
                - (i + 10)) / 3 {
                (s[k] + 1) as u8
            } else {
                s[k]
            },
    )
}

/// `s` with the `n` SOS component selectors that start at `i + 5` (two bytes apart)
/// renumbered: the selector of component `c` that holds `c` is set to `c + 1`.
pub open spec fn renumber_sos(s: Seq<u8>, i: int, n: int) -> Seq<u8> {
    Seq::new(
        s.len(),
        |k: int|
            if k >= i + 5 && (k - (i + 5)) % 2 == 0 && (k - (i + 5)) / 2 < n && s[k] as int == (k - (
            i + 5)) / 2 {
                (s[k] + 1) as u8
            } else {
                s[k]
            },
    )
}

/// The marker walk from position `i` on: bytes other than 0xFF are skipped, stand-alone
/// markers are stepped over, other segments are skipped by their length field. A SOF0
/// segment has its component IDs renumbered 0,1,2 -> 1,2,3 and the walk goes on; a SOS
/// segment has its component selectors renumbered the same way and ends the walk; a segment
/// whose length field is cut off ends it too.
pub open spec fn jfif_walk(s: Seq<u8>, i: int) -> Seq<u8>
    decreases (if i <= s.len() {
        s.len() - i
    } else {
        0
    }),
{
    if i < 0 || i + 1 >= s.len() {
        s
    } else if s[i] != 0xFF {
        jfif_walk(s, i + 1)
    } else if is_standalone_marker(s[i + 1]) {
        jfif_walk(s, i + 2)
    } else if i + 3 >= s.len() {
        s
    } else if s[i + 1] == 0xC0 {
        let n = if i + 9 < s.len() {
            s[i + 9] as int
        } else {
            0
        };
        jfif_walk(renumber_sof(s, i, n), i + 2 + segment_len(s, i))
    } else if s[i + 1] == 0xDA {
        let n = if i + 4 < s.len() {
            s[i + 4] as int
        } else {
            0
        };
        renumber_sos(s, i, n)
    } else {
        jfif_walk(s, i + 2 + segment_len(s, i))
    }
}

/// The JPEG stream after its component IDs have been made the standard JFIF 1, 2, 3.
pub open spec fn jfif_patched(s: Seq<u8>) -> Seq<u8> {
    jfif_walk(s, 0)
}

/// Renumbers the component IDs or selectors of one segment, `stride` bytes apart from
/// `start` on; `spec_start` and the result spell out which segment kind it is.
fn renumber_components(jpeg: &mut [u8], i: usize, n: u8, sof: bool)
    requires
        old(jpeg)@.len() <= isize::MAX,
        i < old(jpeg)@.len(),
    ensures
        sof ==> final(jpeg)@ == renumber_sof(old(jpeg)@, i as int, n as int),
        !sof ==> final(jpeg)@ == renumber_sos(old(jpeg)@, i as int, n as int),
{
    let ghost s = jpeg@;
    let start: usize = if sof {
        i + 10
    } else {
        i + 5
    };
    let stride: usize = if sof {
        3
    } else {
        2
    };
    let count = n as usize;
    let mut c: usize = 0;
    while c < count
        invariant
            s.len() <= isize::MAX,
            i < s.len(),
            jpeg@.len() == s.len(),
            start == (if sof { i + 10 } else { i + 5 }),
            stride == (if sof { 3usize } else { 2usize }),
            count == n,
            c <= count,
            sof ==> jpeg@ == renumber_sof(s, i as int, c as int),
            !sof ==> jpeg@ == renumber_sos(s, i as int, c as int),
        decreases count - c,
    {
        let off = start + c * stride;
        let ghost before = jpeg@;
        if off < jpeg.len() {
            if jpeg[off] == c as u8 {
                jpeg[off] = (c + 1) as u8;
            }
        }
        proof {
            if sof {
                assert forall|k: int| 0 <= k < s.len() implies #[trigger] jpeg@[k] == renumber_sof(
                    s,
                    i as int,
                    c + 1,
                )[k] by {
                    if k == off {
                        assert((k - (i + 10)) / 3 == c);
                    } else if k >= i + 10 && (k - (i + 10)) % 3 == 0 {
                        assert((k - (i + 10)) / 3 != c);
                    }
                }
                assert(jpeg@ =~= renumber_sof(s, i as int, c + 1));
            } else {
                assert forall|k: int| 0 <= k < s.len() implies #[trigger] jpeg@[k] == renumber_sos(
                    s,
                    i as int,
                    c + 1,
                )[k] by {
                    if k == off {
                        assert((k - (i + 5)) / 2 == c);
                    } else if k >= i + 5 && (k - (i + 5)) % 2 == 0 {
                        assert((k - (i + 5)) / 2 != c);
                    }
                }
                assert(jpeg@ =~= renumber_sos(s, i as int, c + 1));
            }
        }
        c = c + 1;
    }
}

/// Patches JPEG byte stream to ensure standard JFIF component IDs (1=Y, 2=Cb, 3=Cr)
/// in SOF0 and SOS markers, as strictly required by the STM32H7 hardware JPEG decoder.
pub fn patch_jfif_component_ids(jpeg: &mut [u8])
    requires
        old(jpeg)@.len() <= isize::MAX,
    ensures
        final(jpeg)@ == jfif_patched(old(jpeg)@),
{
    let ghost goal = jfif_patched(jpeg@);
    let mut i: usize = 0;
    while i + 1 < jpeg.len()
        invariant_except_break
            jpeg@.len() == old(jpeg)@.len(),
            old(jpeg)@.len() <= isize::MAX,
            jfif_walk(jpeg@, i as int) == goal,
            i <= old(jpeg)@.len() + 65537,
        ensures
            jpeg@ == goal,
        decreases (if i <= jpeg@.len() {
            jpeg@.len() - i
        } else {
            0
        }),
    {
        if jpeg[i] != 0xFF {
            i += 1;
            continue;
        }
        let marker = jpeg[i + 1];
        // Skip SOI, EOI, RST markers which have no length
        if marker == 0xD8 || marker == 0xD9 || (0xD0 <= marker && marker <= 0xD7) {
            i += 2;
            continue;
        }
        if i + 3 >= jpeg.len() {
            break;
        }
        let len = (jpeg[i + 2] as usize) * 256 + jpeg[i + 3] as usize;
        if marker == 0xC0 {
            // SOF0: Baseline DCT
            // Offset 4: precision (8), 5..7: height, 7..9: width, 9: num_components
            if i + 9 < jpeg.len() {
                let num_components = jpeg[i + 9];
                renumber_components(jpeg, i, num_components, true);
            } else {
                proof {
                    assert(renumber_sof(jpeg@, i as int, 0) =~= jpeg@);
                }
            }
        } else if marker == 0xDA {
            // SOS: Start of Scan
            // Offset 4: num_components
            if i + 4 < jpeg.len() {
                let num_components = jpeg[i + 4];
                renumber_components(jpeg, i, num_components, false);
            } else {
                proof {
                    assert(renumber_sos(jpeg@, i as int, 0) =~= jpeg@);
                }
            }
            // Scan data follows SOS, we don't need to scan past this
            break;
        }
        i += 2 + len;
    }
}

/// Renumbering the components of one segment keeps the length and never lowers a byte.
proof fn lemma_renumber_raises(s: Seq<u8>, i: int, n: int)
    requires
        n <= 255,
    ensures
        renumber_sof(s, i, n).len() == s.len(),
        renumber_sos(s, i, n).len() == s.len(),
        forall|k: int| 0 <= k < s.len() ==> s[k] <= #[trigger] renumber_sof(s, i, n)[k],
        forall|k: int| 0 <= k < s.len() ==> s[k] <= #[trigger] renumber_sos(s, i, n)[k],
{
}

/// The marker walk from `i` keeps the length and never lowers a byte.
proof fn lemma_walk_raises(s: Seq<u8>, i: int)
    ensures
        jfif_walk(s, i).len() == s.len(),
        forall|k: int| 0 <= k < s.len() ==> s[k] <= #[trigger] jfif_walk(s, i)[k],
    decreases (if i <= s.len() {
        s.len() - i
    } else {
        0
    }),
{
    if i < 0 || i + 1 >= s.len() {
    } else if s[i] != 0xFF {
        lemma_walk_raises(s, i + 1);
    } else if is_standalone_marker(s[i + 1]) {
        lemma_walk_raises(s, i + 2);
    } else if i + 3 >= s.len() {
    } else if s[i + 1] == 0xC0 {
        let n = if i + 9 < s.len() {
            s[i + 9] as int
        } else {
            0
        };
        let t = renumber_sof(s, i, n);
        lemma_renumber_raises(s, i, n);
        lemma_walk_raises(t, i + 2 + segment_len(s, i));
        assert forall|k: int| 0 <= k < s.len() implies s[k] <= #[trigger] jfif_walk(s, i)[k] by {
            assert(s[k] <= t[k]);
            assert(t[k] <= jfif_walk(t, i + 2 + segment_len(s, i))[k]);
        }
    } else if s[i + 1] == 0xDA {
        let n = if i + 4 < s.len() {
            s[i + 4] as int
        } else {
            0
        };
        lemma_renumber_raises(s, i, n);
    } else {
        lemma_walk_raises(s, i + 2 + segment_len(s, i));
    }
}

/// Law: fixing the JFIF component numbering never moves, drops or lowers a byte of the
/// stream: the patched stream has the same length, and every byte is at least what it was
/// (a component ID or selector `c` becomes `c + 1`).
pub proof fn law_jfif_patch_only_raises(s: Seq<u8>)
    ensures
        jfif_patched(s).len() == s.len(),
        forall|k: int| 0 <= k < s.len() ==> s[k] <= #[trigger] jfif_patched(s)[k],
{
    lemma_walk_raises(s, 0);
}

/// The stream from position `i` on is well formed for the marker walk: every SOF0 segment the
/// walk meets keeps its component list inside the segment (its length field reaches past the
/// last ID), the walk going on over the stream as it is renumbered.
pub open spec fn jfif_well_formed_from(s: Seq<u8>, i: int) -> bool
    decreases (if i <= s.len() {
        s.len() - i
    } else {
        0
    }),
{
    if i < 0 || i + 1 >= s.len() {
        true
    } else if s[i] != 0xFF {
        jfif_well_formed_from(s, i + 1)
    } else if is_standalone_marker(s[i + 1]) {
        jfif_well_formed_from(s, i + 2)
    } else if i + 3 >= s.len() {
        true
    } else if s[i + 1] == 0xC0 {
        let n = if i + 9 < s.len() {
            s[i + 9] as int
        } else {
            0
        };
        let j = i + 2 + segment_len(s, i);
        i + 10 + 3 * n <= j && jfif_well_formed_from(renumber_sof(s, i, n), j)
    } else if s[i + 1] == 0xDA {
        true
    } else {
        jfif_well_formed_from(s, i + 2 + segment_len(s, i))
    }
}

/// The walk from `i` keeps the stream's length and every byte before `i + 5`.
proof fn lemma_walk_frame(s: Seq<u8>, i: int)
    ensures
        jfif_walk(s, i).len() == s.len(),
        i >= 0 ==> forall|k: int| 0 <= k < s.len() && k < i + 5 ==> #[trigger] jfif_walk(s, i)[k] == s[k],
    decreases (if i <= s.len() {
        s.len() - i
    } else {
        0
    }),
{
    if i < 0 || i + 1 >= s.len() {
    } else if s[i] != 0xFF {
        lemma_walk_frame(s, i + 1);
    } else if is_standalone_marker(s[i + 1]) {
        lemma_walk_frame(s, i + 2);
    } else if i + 3 >= s.len() {
    } else if s[i + 1] == 0xC0 {
        let n = if i + 9 < s.len() {
            s[i + 9] as int
        } else {
            0
        };
        let s1 = renumber_sof(s, i, n);
        lemma_walk_frame(s1, i + 2 + segment_len(s, i));
    } else if s[i + 1] == 0xDA {
    } else {
        lemma_walk_frame(s, i + 2 + segment_len(s, i));
    }
}

/// On a well-formed stream, walking again from `i` changes nothing more.
proof fn lemma_walk_idempotent(s: Seq<u8>, i: int)
    requires
        i >= 0,
        jfif_well_formed_from(s, i),
    ensures
        jfif_walk(jfif_walk(s, i), i) == jfif_walk(s, i),
    decreases (if i <= s.len() {
        s.len() - i
    } else {
        0
    }),
{
    let r = jfif_walk(s, i);
    lemma_walk_frame(s, i);
    if i + 1 >= s.len() {
    } else if s[i] != 0xFF {
        lemma_walk_idempotent(s, i + 1);
        lemma_walk_frame(s, i + 1);
        assert(r[i] == s[i]);
    } else if is_standalone_marker(s[i + 1]) {
        lemma_walk_idempotent(s, i + 2);
        lemma_walk_frame(s, i + 2);
        assert(r[i] == s[i] && r[i + 1] == s[i + 1]);
    } else if i + 3 >= s.len() {
    } else if s[i + 1] == 0xC0 {
        let n = if i + 9 < s.len() {
            s[i + 9] as int
        } else {
            0
        };
        let j = i + 2 + segment_len(s, i);
        let s1 = renumber_sof(s, i, n);
        lemma_walk_frame(s1, j);
        lemma_walk_idempotent(s1, j);
        assert(r[i] == s[i] && r[i + 1] == s[i + 1] && r[i + 2] == s[i + 2] && r[i + 3] == s[i + 3]);
        if i + 9 < s.len() {
            assert(r[i + 9] == s[i + 9]);
        }
        assert(segment_len(r, i) == segment_len(s, i));
        assert forall|k: int| 0 <= k < r.len() implies #[trigger] renumber_sof(r, i, n)[k] == r[k] by {
            if k >= i + 10 && (k - (i + 10)) % 3 == 0 && (k - (i + 10)) / 3 < n {
                assert(k < j);
                assert(r[k] == s1[k]);
            }
        }
        assert(renumber_sof(r, i, n) =~= r);
    } else if s[i + 1] == 0xDA {
        let n = if i + 4 < s.len() {
            s[i + 4] as int
        } else {
            0
        };
        assert(r[i] == s[i] && r[i + 1] == s[i + 1] && r[i + 2] == s[i + 2] && r[i + 3] == s[i + 3]);
        if i + 4 < s.len() {
            assert(r[i + 4] == s[i + 4]);
        }
        assert(renumber_sos(r, i, n) =~= r);
    } else {
        let j = i + 2 + segment_len(s, i);
        lemma_walk_frame(s, j);
        lemma_walk_idempotent(s, j);
        assert(r[i] == s[i] && r[i + 1] == s[i + 1] && r[i + 2] == s[i + 2] && r[i + 3] == s[i + 3]);
        assert(segment_len(r, i) == segment_len(s, i));
    }
}

/// Law: on a stream whose SOF0 component lists lie inside their segments, fixing the JFIF
/// component numbering twice gives what fixing it once gave.
pub proof fn law_jfif_patch_idempotent(s: Seq<u8>)
    requires
        jfif_well_formed_from(s, 0),
    ensures
        jfif_patched(jfif_patched(s)) == jfif_patched(s),
{
    lemma_walk_idempotent(s, 0);
}

/// Law: cover mode keeps the picture's proportions and crops instead of squeezing: a picture
/// exactly as tall as the panel (and at least as wide), or exactly as wide (and at least as
/// tall), keeps its pixels unscaled — output pixel (X, Y) is the RGB of the picture's pixel
/// (X + (w - 720) / 2, Y + (h - 1280) / 2), its centre part.
pub proof fn law_cover_crops_centre(w: u32, h: u32, px: Seq<u8>, x: int, y: int, c: int)
    requires
        (h == 1280 && w >= 720) || (w == 720 && h >= 1280),
        px.len() == w as nat * h as nat * 4,
        0 <= x < 720,
        0 <= y < 1280,
        0 <= c < 3,
    ensures
        ({
            let out = rgb_of(cropped(w as int, px, (w - 720) / 2, (h - 1280) / 2, 720, 1280));
            &&& out.len() == 2_764_800
            &&& out[(y * 720 + x) * 3 + c] == px[((y + (h - 1280) / 2) * w + (x + (w - 720) / 2))
                * 4 + c]
        }),
{
    let ox = (w - 720) / 2;
    let oy = (h - 1280) / 2;
    let cr = cropped(w as int, px, ox, oy, 720, 1280);
    let k = (y * 720 + x) * 3 + c;
    assert(cr.len() == 3_686_400);
    assert(k / 3 == y * 720 + x && k % 3 == c) by (nonlinear_arith)
        requires
            k == (y * 720 + x) * 3 + c,
            0 <= c < 3,
            0 <= x,
            0 <= y,
    {
    }
    let j = (k / 3) * 4 + k % 3;
    assert(j / 4 == y * 720 + x && j % 4 == c) by (nonlinear_arith)
        requires
            j == (y * 720 + x) * 4 + c,
            0 <= c < 3,
            0 <= x,
            0 <= y,
    {
    }
    assert((y * 720 + x) / 720 == y && (y * 720 + x) % 720 == x) by (nonlinear_arith)
        requires
            0 <= x < 720,
            0 <= y,
    {
    }
    assert(0 <= k < 2_764_800) by (nonlinear_arith)
        requires
            k == (y * 720 + x) * 3 + c,
            0 <= c < 3,
            0 <= x < 720,
            0 <= y < 1280,
    {
    }
    assert(0 <= j < 3_686_400) by (nonlinear_arith)
        requires
            j == (y * 720 + x) * 4 + c,
            0 <= c < 3,
            0 <= x < 720,
            0 <= y < 1280,
    {
    }
}

} // verus!
