use x870e_lcd::picture::RgbaImage;
use x870e_lcd::renderer::{
    clock_strings, clock_timestamp, draw_bar_bgra, draw_border_bgra, fill_rect_bgra, image_to_bgra,
    render_dashboard_frame, render_pattern, DashboardSection, ThemeColor, TimezoneConfig,
    BUFFER_SIZE, CLOCK_LIMIT_SECS, HEIGHT, WIDTH,
};

fn px(buf: &[u8], x: usize, y: usize) -> [u8; 4] {
    let o = (y * WIDTH + x) * 4;
    [buf[o], buf[o + 1], buf[o + 2], buf[o + 3]]
}

#[test]
fn test_timezone_config_strings() {
    let (utc_time, utc_date) = TimezoneConfig::Utc.now_strings(true);
    assert!(utc_time.contains("UTC"));
    assert!(!utc_date.is_empty());

    let (local_time, local_date) = TimezoneConfig::Local.now_strings(false);
    assert!(!local_time.is_empty());
    assert!(!local_date.is_empty());

    let (custom_time, custom_date) = TimezoneConfig::Custom(600).now_strings(true);
    assert!(custom_time.contains("UTC+10:00"));
    assert!(!custom_date.is_empty());
}

#[test]
fn timezone_offsets_are_labelled_or_fall_back_to_utc() {
    let (west, _) = TimezoneConfig::Custom(-210).now_strings(true);
    assert!(west.ends_with(" UTC-03:30"));
    let (twelve, _) = TimezoneConfig::Custom(0).now_strings(false);
    assert!(twelve.ends_with(" UTC+00:00"));
    assert!(twelve.contains("AM") || twelve.contains("PM"));
    let (far, _) = TimezoneConfig::Custom(1440).now_strings(false);
    assert!(far.ends_with(" UTC"));
    assert!(!far.contains('+'));
    assert_eq!(TimezoneConfig::default(), TimezoneConfig::Local);
}

#[test]
fn fill_rect_clips_to_canvas_and_buffer() {
    let mut buf = vec![1u8; BUFFER_SIZE];
    fill_rect_bgra(&mut buf, 700, 1270, 100, 100, [9, 8, 7, 6]);
    assert_eq!(px(&buf, 700, 1270), [9, 8, 7, 6]);
    assert_eq!(px(&buf, 719, 1279), [9, 8, 7, 6]);
    assert_eq!(px(&buf, 699, 1270), [1, 1, 1, 1]);
    assert_eq!(px(&buf, 700, 1269), [1, 1, 1, 1]);
    let mut small = vec![0u8; 10];
    fill_rect_bgra(&mut small, 0, 0, 10, 10, [5, 5, 5, 5]);
    assert_eq!(small, vec![5, 5, 5, 5, 5, 5, 5, 5, 0, 0]);
}

#[test]
fn border_keeps_the_inside() {
    let mut buf = vec![0u8; BUFFER_SIZE];
    draw_border_bgra(&mut buf, 10, 10, 20, 20, 2, [1, 2, 3, 4]);
    assert_eq!(px(&buf, 10, 10), [1, 2, 3, 4]);
    assert_eq!(px(&buf, 29, 29), [1, 2, 3, 4]);
    assert_eq!(px(&buf, 11, 20), [1, 2, 3, 4]);
    assert_eq!(px(&buf, 28, 20), [1, 2, 3, 4]);
    assert_eq!(px(&buf, 12, 12), [0, 0, 0, 0]);
    assert_eq!(px(&buf, 27, 27), [0, 0, 0, 0]);
    assert_eq!(px(&buf, 30, 30), [0, 0, 0, 0]);
}

#[test]
fn vertical_split_alternates_columns() {
    let mut buf = vec![0u8; BUFFER_SIZE];
    render_pattern("vertical-split", 0, &mut buf);
    assert_eq!(px(&buf, 0, 0), [0x00, 0x00, 0xff, 0xff]);
    assert_eq!(px(&buf, 300, 10), [0x00, 0xff, 0x00, 0xff]);
    assert_eq!(px(&buf, 719, 1279), [0xff, 0x00, 0x00, 0xff]);
    render_pattern("vertical-split", 1, &mut buf);
    assert_eq!(px(&buf, 0, 0), [0x00, 0xff, 0x00, 0xff]);
    assert_eq!(px(&buf, 300, 10), [0xff, 0x00, 0x00, 0xff]);
    assert_eq!(px(&buf, 719, 1279), [0x00, 0x00, 0xff, 0xff]);
}

#[test]
fn colorbars_and_bottom_band() {
    let mut buf = vec![7u8; BUFFER_SIZE];
    render_pattern("colorbars", 3, &mut buf);
    assert_eq!(px(&buf, 0, 0), [0xff, 0xff, 0xff, 0xff]);
    assert_eq!(px(&buf, 102, 500), [0x00, 0xff, 0xff, 0xff]);
    assert_eq!(px(&buf, 6 * 102, 1099), [0xff, 0x00, 0x00, 0xff]);
    assert_eq!(px(&buf, 714, 0), [7, 7, 7, 7]);
    assert_eq!(px(&buf, 10, 1100), [0x20, 0x20, 0x20, 0xff]);
}

#[test]
fn gradient_rows_shift_with_frames() {
    let mut buf = vec![0u8; BUFFER_SIZE];
    render_pattern("gradient", 0, &mut buf);
    assert_eq!(px(&buf, 5, 0), [255, 0, 0, 255]);
    assert_eq!(px(&buf, 5, 10), [245, 20, 10, 255]);
    render_pattern("gradient", 2, &mut buf);
    assert_eq!(px(&buf, 5, 300), [255 - 52, 96, 52, 255]);
}

#[test]
fn unknown_pattern_is_black() {
    let mut buf = vec![9u8; BUFFER_SIZE];
    render_pattern("something-else", 0, &mut buf);
    assert_eq!(px(&buf, 0, 0), [0, 0, 0, 0xff]);
    assert_eq!(px(&buf, 719, 1279), [0, 0, 0, 0xff]);
}

#[test]
fn image_to_bgra_letterboxes_and_swaps_channels() {
    let mut pixels = Vec::new();
    for _ in 0..(40 * 10) {
        pixels.extend_from_slice(&[10, 20, 30, 255]);
    }
    let img = RgbaImage { width: 40, height: 10, pixels };
    let mut buf = vec![5u8; BUFFER_SIZE];
    image_to_bgra(&img, &mut buf, None);
    assert_eq!(px(&buf, 0, 0), [0, 0, 0, 0xff]);
    assert_eq!(px(&buf, 360, 640), [30, 20, 10, 255]);

    let mut covered = vec![5u8; BUFFER_SIZE];
    image_to_bgra(&img, &mut covered, Some((5120, 1280)));
    assert_eq!(px(&covered, 0, 0), [30, 20, 10, 255]);
    assert_eq!(px(&covered, 719, 1279), [30, 20, 10, 255]);

    let empty = RgbaImage { width: 0, height: 0, pixels: vec![] };
    let mut untouched = vec![5u8; 16];
    image_to_bgra(&empty, &mut untouched, None);
    assert_eq!(untouched, vec![5u8; 16]);
    assert_eq!(HEIGHT, 1280);
}

#[test]
fn dashboard_section_labels() {
    assert_eq!(DashboardSection::default(), DashboardSection::Empty);
    assert_eq!(DashboardSection::Empty.label(), "(Empty / Disabled)");
    assert_eq!(DashboardSection::Clock.label(), "🕒 Clock & Date");
    assert_eq!(DashboardSection::Network.label(), "🌐 Network (Up/Down Bandwidth)");
}

#[test]
fn clock_strings_add_the_zone_suffix() {
    let clock = || ("12:34:56".to_string(), "Monday, Jan 01, 2024".to_string());
    assert_eq!(clock_strings(TimezoneConfig::Utc, clock()).0, "12:34:56 UTC");
    assert_eq!(clock_strings(TimezoneConfig::Local, clock()).0, "12:34:56");
    assert_eq!(clock_strings(TimezoneConfig::Custom(-90), clock()).0, "12:34:56 UTC-01:30");
    assert_eq!(clock_strings(TimezoneConfig::Custom(1440), clock()).0, "12:34:56 UTC");
    assert_eq!(clock_strings(TimezoneConfig::Utc, clock()).1, "Monday, Jan 01, 2024");
}

#[test]
fn bar_fills_its_left_part() {
    let mut buf = vec![0u8; BUFFER_SIZE];
    draw_bar_bgra(&mut buf, 10, 10, 100, 20, 30, [1, 2, 3, 4], [9, 9, 9, 9]);
    assert_eq!(px(&buf, 10, 10), [0x60, 0x60, 0x60, 0xff]);
    assert_eq!(px(&buf, 20, 20), [1, 2, 3, 4]);
    assert_eq!(px(&buf, 39, 20), [1, 2, 3, 4]);
    assert_eq!(px(&buf, 40, 20), [9, 9, 9, 9]);
    assert_eq!(px(&buf, 109, 20), [0x60, 0x60, 0x60, 0xff]);
    assert_eq!(px(&buf, 110, 20), [0, 0, 0, 0]);
}

#[test]
fn dashboard_cards_stack_down_the_canvas() {
    let mut buf = vec![7u8; BUFFER_SIZE];
    let slots = [
        DashboardSection::Clock,
        DashboardSection::Cpu,
        DashboardSection::Empty,
        DashboardSection::Ram,
        DashboardSection::Empty,
    ];
    render_dashboard_frame(slots, true, true, ThemeColor::RogRed, [0, 300, 0, 600, 0], &mut buf);
    let accent = [0x22, 0x22, 0xee, 0xff];
    let bg = [0x12, 0x10, 0x10, 0xff];
    let card = [0x24, 0x20, 0x20, 0xff];
    let edge = [0x40, 0x38, 0x38, 0xff];
    // header band and its accent line
    assert_eq!(px(&buf, 5, 5), card);
    assert_eq!(px(&buf, 5, 87), accent);
    assert_eq!(px(&buf, 5, 100), bg);
    // clock card at 110..255, border, no accent strip
    assert_eq!(px(&buf, 36, 110), edge);
    assert_eq!(px(&buf, 100, 112), card);
    assert_eq!(px(&buf, 100, 260), bg);
    // cpu card at 275: accent strip, gauge at 405 half filled
    assert_eq!(px(&buf, 100, 277), accent);
    assert_eq!(px(&buf, 100, 415), accent);
    assert_eq!(px(&buf, 400, 415), [0x18, 0x14, 0x14, 0xff]);
    // ram card at 500 (the empty slot adds nothing), gauge at 610 full
    assert_eq!(px(&buf, 100, 502), accent);
    assert_eq!(px(&buf, 600, 620), accent);
    // footer card at 700..780
    assert_eq!(px(&buf, 36, 700), edge);
    assert_eq!(px(&buf, 100, 740), card);
    assert_eq!(px(&buf, 100, 800), bg);
    // bottom accent bar
    assert_eq!(px(&buf, 0, 1279), accent);
    assert_eq!(px(&buf, 719, 1264), accent);
}

#[test]
fn clock_readings_become_timestamps() {
    assert_eq!(clock_timestamp(true, 10, 3), (10, 3));
    assert_eq!(clock_timestamp(false, 5, 0), (-5, 0));
    assert_eq!(clock_timestamp(false, 5, 250_000_000), (-6, 750_000_000));
    assert_eq!(clock_timestamp(true, u64::MAX, 7), (CLOCK_LIMIT_SECS, 7));
    assert_eq!(clock_timestamp(false, u64::MAX, 7), (-CLOCK_LIMIT_SECS, 0));
}

#[test]
fn image_to_bgra_uses_triangle_resampling() {
    let pixels: Vec<u8> = (0..(36u32 * 64 * 4)).map(|k| (k * 7 % 256) as u8).collect();
    let img = RgbaImage { width: 36, height: 64, pixels: pixels.clone() };
    let src = image::RgbaImage::from_raw(36, 64, pixels).unwrap();
    let expected = image::imageops::resize(&src, 720, 1280, image::imageops::FilterType::Triangle);
    let mut buf = vec![0u8; BUFFER_SIZE];
    image_to_bgra(&img, &mut buf, None);
    for (x, y) in [(0u32, 0u32), (123, 456), (719, 1279), (360, 640)] {
        let p = expected.get_pixel(x, y).0;
        assert_eq!(px(&buf, x as usize, y as usize), [p[2], p[1], p[0], p[3]], "({x}, {y})");
    }
}
