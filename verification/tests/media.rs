use x870e_lcd::hwmon::SensorMetric;
use x870e_lcd::media::{copy_image_to_bgra_buffer, rotate_picture, stretch_to_bgra, Rotation, ScaleMode};
use x870e_lcd::picture::RgbaImage;

#[test]
fn scale_mode_and_rotation_labels() {
    assert_eq!(ScaleMode::Fill.label(), "Fill (Crop to 9:16)");
    assert_eq!(ScaleMode::Fit.label(), "Fit (Letterbox)");
    assert_eq!(ScaleMode::Stretch.label(), "Stretch (Full Frame)");
    assert_eq!(ScaleMode::CustomCrop.label(), "Custom Pan & Zoom");
    assert_eq!(Rotation::Rot0.label(), "0° (Default)");
    assert_eq!(Rotation::Rot270.label(), "270° (90° CCW)");
}

#[test]
fn copy_swaps_to_bgra_and_clips() {
    let img = RgbaImage { width: 2, height: 2, pixels: vec![1, 2, 3, 4, 5, 6, 7, 8, 9, 10, 11, 12, 13, 14, 15, 16] };
    let mut buf = vec![0u8; 720 * 1280 * 4];
    copy_image_to_bgra_buffer(&img, &mut buf, 719, 1279);
    let o = (1279 * 720 + 719) * 4;
    assert_eq!(&buf[o..o + 4], &[3, 2, 1, 4]);
    assert_eq!(buf.iter().filter(|b| **b != 0).count(), 4);

    let mut small = vec![0u8; 6];
    copy_image_to_bgra_buffer(&img, &mut small, 0, 0);
    assert_eq!(small, vec![3, 2, 1, 4, 0, 0]);
}

#[test]
fn sensor_metrics_are_listed_with_names() {
    let all = SensorMetric::all();
    assert_eq!(all.len(), 8);
    assert_eq!(all[0], SensorMetric::CpuTemp);
    assert_eq!(all[7], SensorMetric::CpuModel);
    assert_eq!(SensorMetric::default(), SensorMetric::CpuTemp);
    assert_eq!(SensorMetric::CpuTemp.display_name(), "CPU Temperature (°C)");
    assert_eq!(SensorMetric::RamUsage.display_name(), "RAM Usage (%)");
    for (i, a) in all.iter().enumerate() {
        for b in &all[i + 1..] {
            assert_ne!(a, b);
        }
    }
}

fn numbered(width: u32, height: u32) -> RgbaImage {
    let pixels: Vec<u8> = (0..width * height * 4).map(|k| (k % 251) as u8).collect();
    RgbaImage { width, height, pixels }
}

#[test]
fn rotations_match_the_image_crate() {
    let img = numbered(3, 2);
    let src = image::RgbaImage::from_raw(3, 2, img.pixels.clone()).unwrap();
    let cases = [
        (Rotation::Rot0, src.clone()),
        (Rotation::Rot90, image::imageops::rotate90(&src)),
        (Rotation::Rot180, image::imageops::rotate180(&src)),
        (Rotation::Rot270, image::imageops::rotate270(&src)),
    ];
    for (rotation, expected) in cases {
        let got = rotate_picture(&img, rotation);
        assert_eq!((got.width, got.height), expected.dimensions(), "{rotation:?}");
        assert_eq!(got.pixels, expected.into_raw(), "{rotation:?}");
    }
    // pixel (0, 0) of the 90-degree turn is input pixel (0, h - 1)
    let turned = rotate_picture(&img, Rotation::Rot90);
    assert_eq!(&turned.pixels[0..4], &img.pixels[12..16]);
}

#[test]
fn stretch_frame_copies_a_panel_sized_picture_and_blacks_out_an_empty_one() {
    let img = numbered(720, 1280);
    let mut buf = vec![9u8; 720 * 1280 * 4];
    stretch_to_bgra(&img, Rotation::Rot0, &mut buf);
    assert_eq!(&buf[0..4], &[img.pixels[2], img.pixels[1], img.pixels[0], img.pixels[3]]);
    let last = 720 * 1280 * 4 - 4;
    assert_eq!(&buf[last..last + 4], &[img.pixels[last + 2], img.pixels[last + 1], img.pixels[last], img.pixels[last + 3]]);

    let empty = RgbaImage { width: 0, height: 5, pixels: vec![] };
    let mut black = vec![9u8; 720 * 1280 * 4];
    stretch_to_bgra(&empty, Rotation::Rot90, &mut black);
    assert!(black.chunks(4).all(|p| p == [0, 0, 0, 0xff]));
}
