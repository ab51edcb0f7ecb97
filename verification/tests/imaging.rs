use x870e_lcd::imaging::{
    cover_fits, decode_picture, encode_to_jpeg, load_and_prepare_jpeg, prepare_jpeg, patch_jfif_component_ids, process_image, FitMode,
    PanelImageError,
};
use x870e_lcd::picture::{crop, letterbox, to_rgb, RgbImage, RgbaImage};
use x870e_lcd::protocol::{PANEL_HEIGHT, PANEL_WIDTH};

fn solid_rgba(width: u32, height: u32, px: [u8; 4]) -> RgbaImage {
    let mut pixels = Vec::new();
    for _ in 0..(width * height) {
        pixels.extend_from_slice(&px);
    }
    RgbaImage { width, height, pixels }
}

fn png_bytes(width: u32, height: u32, px: [u8; 4]) -> Vec<u8> {
    let img = image::RgbaImage::from_pixel(width, height, image::Rgba(px));
    let mut out = std::io::Cursor::new(Vec::new());
    image::DynamicImage::ImageRgba8(img)
        .write_to(&mut out, image::ImageFormat::Png)
        .unwrap();
    out.into_inner()
}

#[test]
fn test_encode_and_patch_jfif() {
    let img = RgbImage::new(PANEL_WIDTH, PANEL_HEIGHT);
    let jpeg = encode_to_jpeg(&img, 85).expect("JPEG encoding should succeed");

    // Verify SOF0 has components 1, 2, 3
    let sof0_idx = jpeg.windows(2).position(|w| w == [0xFF, 0xC0]).expect("SOF0 should exist");
    assert_eq!(jpeg[sof0_idx + 10], 1, "Component 0 ID should be 1 (Y)");
    assert_eq!(jpeg[sof0_idx + 13], 2, "Component 1 ID should be 2 (Cb)");
    assert_eq!(jpeg[sof0_idx + 16], 3, "Component 2 ID should be 3 (Cr)");

    // Verify SOS has selectors 1, 2, 3
    let sos_idx = jpeg.windows(2).position(|w| w == [0xFF, 0xDA]).expect("SOS should exist");
    assert_eq!(jpeg[sos_idx + 5], 1, "Scan component 0 selector should be 1");
    assert_eq!(jpeg[sos_idx + 7], 2, "Scan component 1 selector should be 2");
    assert_eq!(jpeg[sos_idx + 9], 3, "Scan component 2 selector should be 3");
}

#[test]
fn encode_is_a_jpeg_with_4_2_0_sampling() {
    let img = RgbImage::new(16, 16);
    let jpeg = encode_to_jpeg(&img, 200).unwrap();
    assert_eq!(&jpeg[0..2], &[0xFF, 0xD8]);
    assert_eq!(&jpeg[jpeg.len() - 2..], &[0xFF, 0xD9]);
    let sof0 = jpeg.windows(2).position(|w| w == [0xFF, 0xC0]).unwrap();
    // luma sampling factor 2x2, chroma 1x1
    assert_eq!(jpeg[sof0 + 11], 0x22);
    assert_eq!(jpeg[sof0 + 14], 0x11);
}

#[test]
fn encode_refuses_short_data_and_zero_dimensions() {
    let short = RgbImage { width: 4, height: 4, pixels: vec![0; 10] };
    assert!(matches!(encode_to_jpeg(&short, 90), Err(PanelImageError::Encode(_))));
    let empty = RgbImage { width: 0, height: 4, pixels: vec![] };
    assert!(matches!(encode_to_jpeg(&empty, 90), Err(PanelImageError::Encode(_))));
}

#[test]
fn patch_renumbers_sof0_and_sos_components() {
    let mut jpeg = vec![
        0xFF, 0xD8, // SOI
        0xFF, 0xC0, 0x00, 0x11, 0x08, 0x00, 0x10, 0x00, 0x10, 0x03, // SOF0 header
        0x00, 0x22, 0x00, 0x01, 0x11, 0x01, 0x02, 0x11, 0x01, // components 0, 1, 2
        0xFF, 0xDA, 0x00, 0x0C, 0x03, 0x00, 0x00, 0x01, 0x11, 0x02, 0x11, // SOS
        0x00, 0x3F, 0x00, 0x12, 0x34,
    ];
    let before = jpeg.clone();
    patch_jfif_component_ids(&mut jpeg);
    assert_eq!(jpeg.len(), before.len());
    assert_eq!(jpeg[12], 1);
    assert_eq!(jpeg[15], 2);
    assert_eq!(jpeg[18], 3);
    assert_eq!(jpeg[26], 1);
    assert_eq!(jpeg[28], 2);
    assert_eq!(jpeg[30], 3);
    // nothing else moved
    for (k, (a, b)) in jpeg.iter().zip(before.iter()).enumerate() {
        if ![12, 15, 18, 26, 28, 30].contains(&k) {
            assert_eq!(a, b, "byte {k}");
        }
    }
}

#[test]
fn patch_keeps_standard_ids_and_garbage() {
    let mut standard = vec![
        0xFF, 0xD8, 0xFF, 0xC0, 0x00, 0x11, 0x08, 0x00, 0x10, 0x00, 0x10, 0x03, 0x01, 0x22, 0x00,
        0x02, 0x11, 0x01, 0x03, 0x11, 0x01,
    ];
    let copy = standard.clone();
    patch_jfif_component_ids(&mut standard);
    assert_eq!(standard, copy);

    let mut garbage = vec![0x12, 0x34, 0xFF];
    patch_jfif_component_ids(&mut garbage);
    assert_eq!(garbage, vec![0x12, 0x34, 0xFF]);
}

#[test]
fn process_image_modes_give_panel_sized_pictures() {
    let img = solid_rgba(20, 10, [200, 100, 50, 255]);
    for mode in [FitMode::Stretch, FitMode::Fit, FitMode::Cover] {
        let out = process_image(&img, mode);
        assert_eq!((out.width, out.height), (720, 1280), "{mode:?}");
        assert_eq!(out.pixels.len(), 720 * 1280 * 3);
    }
    // Fit letterboxes a wide picture: black bars above and below, the picture in the middle
    let fit = process_image(&img, FitMode::Fit);
    assert_eq!(&fit.pixels[0..3], &[0, 0, 0]);
    let mid = (640 * 720 + 360) * 3;
    assert_eq!(&fit.pixels[mid..mid + 3], &[200, 100, 50]);
    // Stretch and Cover fill the whole panel with the color
    let stretch = process_image(&img, FitMode::Stretch);
    assert_eq!(&stretch.pixels[0..3], &[200, 100, 50]);
    let cover = process_image(&img, FitMode::Cover);
    assert_eq!(&cover.pixels[0..3], &[200, 100, 50]);
}

#[test]
fn default_fit_mode_is_cover() {
    assert_eq!(FitMode::default(), FitMode::Cover);
}

#[test]
fn load_and_prepare_decodes_fits_and_encodes() {
    let png = png_bytes(30, 40, [10, 200, 30, 255]);
    for mode in [FitMode::Stretch, FitMode::Fit, FitMode::Cover] {
        let jpeg = load_and_prepare_jpeg(&png, mode, 90).unwrap();
        assert_eq!(&jpeg[0..2], &[0xFF, 0xD8]);
        let sof0 = jpeg.windows(2).position(|w| w == [0xFF, 0xC0]).unwrap();
        // 1280 high, 720 wide, components numbered 1, 2, 3
        assert_eq!(&jpeg[sof0 + 5..sof0 + 9], &[0x05, 0x00, 0x02, 0xD0]);
        assert_eq!((jpeg[sof0 + 10], jpeg[sof0 + 13], jpeg[sof0 + 16]), (1, 2, 3));
    }
}

#[test]
fn load_and_prepare_refuses_undecodable_bytes() {
    let result = load_and_prepare_jpeg(b"definitely not a picture", FitMode::Cover, 90);
    assert!(matches!(result, Err(PanelImageError::Load(_))));
}

#[test]
fn rgba_to_rgb_drops_alpha() {
    let img = RgbaImage { width: 2, height: 1, pixels: vec![1, 2, 3, 4, 5, 6, 7, 8] };
    let rgb = to_rgb(&img);
    assert_eq!((rgb.width, rgb.height), (2, 1));
    assert_eq!(rgb.pixels, vec![1, 2, 3, 5, 6, 7]);
}

#[test]
fn letterbox_centres_on_black() {
    let img = RgbImage { width: 2, height: 2, pixels: vec![9; 12] };
    let out = letterbox(&img);
    assert_eq!((out.width, out.height), (720, 1280));
    let at = |x: usize, y: usize| out.pixels[(y * 720 + x) * 3];
    assert_eq!(at(359, 639), 9);
    assert_eq!(at(360, 640), 9);
    assert_eq!(at(358, 639), 0);
    assert_eq!(at(361, 640), 0);
    assert_eq!(at(359, 641), 0);
}

#[test]
fn crop_clamps_to_the_picture() {
    let pixels: Vec<u8> = (0..(3 * 2 * 4)).map(|v| v as u8).collect();
    let img = RgbaImage { width: 3, height: 2, pixels };
    let part = crop(&img, 1, 1, 5, 5);
    assert_eq!((part.width, part.height), (2, 1));
    assert_eq!(part.pixels, vec![16, 17, 18, 19, 20, 21, 22, 23]);
    let none = crop(&img, 9, 9, 2, 2);
    assert_eq!((none.width, none.height), (0, 0));
}

#[test]
fn cover_scaling_bound() {
    assert!(cover_fits(1, 1));
    assert!(cover_fits(1, 2_000_000));
    assert!(!cover_fits(1, 3_000_000));
    assert!(cover_fits(1_600_000, 1));
    assert!(!cover_fits(1_700_000, 1));
    assert!(!cover_fits(0, 10));
    assert!(!cover_fits(10, 0));
}

#[test]
fn jfif_fix_is_idempotent_on_encoder_output() {
    let img = RgbImage::new(16, 16);
    let jpeg = encode_to_jpeg(&img, 90).unwrap();
    let mut twice = jpeg.clone();
    patch_jfif_component_ids(&mut twice);
    assert_eq!(twice, jpeg);
    let mut raw = vec![0xFF, 0xD8, 0xFF, 0xC0, 0x00, 0x11, 8, 0, 16, 0, 16, 3, 0, 0x22, 0, 1, 0x11, 1, 2, 0x11, 1];
    patch_jfif_component_ids(&mut raw);
    let once = raw.clone();
    patch_jfif_component_ids(&mut raw);
    assert_eq!(raw, once);
    assert_eq!((once[12], once[15], once[18]), (1, 2, 3));
}

#[test]
fn fit_box_keeps_the_aspect_ratio() {
    let img = solid_rgba(20, 10, [200, 100, 50, 255]);
    let fit = process_image(&img, FitMode::Fit);
    let at = |x: usize, y: usize| {
        let o = (y * 720 + x) * 3;
        [fit.pixels[o], fit.pixels[o + 1], fit.pixels[o + 2]]
    };
    // 20x10 fits as 720x360, centred: rows 460..820
    assert_eq!(at(360, 459), [0, 0, 0]);
    assert_ne!(at(360, 460), [0, 0, 0]);
    assert_ne!(at(0, 819), [0, 0, 0]);
    assert_eq!(at(360, 820), [0, 0, 0]);
}

#[test]
fn decode_gives_the_stored_size() {
    let img = decode_picture(&png_bytes(30, 40, [1, 2, 3, 255])).unwrap();
    assert_eq!((img.width, img.height), (30, 40));
    assert_eq!(img.pixels.len(), 30 * 40 * 4);
    assert!(matches!(decode_picture(b"nope"), Err(PanelImageError::Load(_))));
}

#[test]
fn panel_sized_pictures_pass_through_every_mode() {
    let pixels: Vec<u8> = (0..720u32 * 1280 * 4).map(|k| (k % 253) as u8).collect();
    let img = RgbaImage { width: 720, height: 1280, pixels };
    let rgb = to_rgb(&img);
    for mode in [FitMode::Stretch, FitMode::Fit, FitMode::Cover] {
        assert_eq!(process_image(&img, mode).pixels, rgb.pixels, "{mode:?}");
    }
    let jpeg = prepare_jpeg(&img, FitMode::Fit, 90).unwrap();
    assert_eq!(jpeg, encode_to_jpeg(&rgb, 90).unwrap());
    let empty = RgbaImage { width: 0, height: 4, pixels: vec![] };
    assert!(matches!(prepare_jpeg(&empty, FitMode::Cover, 90), Err(PanelImageError::NoPixels)));
    let thin = RgbaImage { width: 1, height: 3_000_000, pixels: vec![0; 12_000_000] };
    assert!(matches!(prepare_jpeg(&thin, FitMode::Cover, 90), Err(PanelImageError::TooElongated)));
}
