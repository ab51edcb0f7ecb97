use x870e_lcd::protocol::upload::{
    step0_delete_slot, step1_prep, step2_sync, step3_enable, step4_start, step5_size_header,
    step6_finalize, step7_exit,
};
use x870e_lcd::protocol::{
    new_packet, packet_announce_stream_frame, packet_hw_layout, packet_set_brightness,
    packet_set_mode, packet_sync, packet_telemetry, DisplayMode, HwLayout, FRAME_RAW_SIZE,
    LcdModel, PACKET_LEN, REPORT_ID, SUPPORTED_PRODUCT_IDS,
};

fn head(p: &[u8; PACKET_LEN], n: usize) -> Vec<u8> {
    p[..n].to_vec()
}

#[test]
fn blank_packet_has_report_id_only() {
    let p = new_packet();
    assert_eq!(p[0], REPORT_ID);
    assert!(p[1..].iter().all(|b| *b == 0));
}

#[test]
fn mode_packets() {
    assert_eq!(head(&packet_set_mode(DisplayMode::Off), 3), vec![0xec, 0x51, 0x00]);
    assert_eq!(head(&packet_set_mode(DisplayMode::DefaultWallpaper(3)), 5), vec![0xec, 0x51, 0x11, 0x00, 3]);
    assert_eq!(head(&packet_set_mode(DisplayMode::CustomSlot(2)), 5), vec![0xec, 0x51, 0x11, 0x01, 2]);
    assert_eq!(packet_set_mode(DisplayMode::StaticImage(2)), packet_set_mode(DisplayMode::CustomSlot(2)));
    assert_eq!(head(&packet_set_mode(DisplayMode::Animation(1)), 5), vec![0xec, 0x51, 0x14, 0x00, 1]);
    assert_eq!(head(&packet_set_mode(DisplayMode::HardwareMonitor), 3), vec![0xec, 0x51, 0x21]);
    assert_eq!(head(&packet_set_mode(DisplayMode::FrameStream), 3), vec![0xec, 0x51, 0x20]);
}

#[test]
fn brightness_is_clamped_to_100() {
    let p = packet_set_brightness(250, true);
    assert_eq!((p[1], p[2], p[5], p[9], p[10], p[15], p[16]), (0x5c, 0x01, 100, 100, 0x14, 100, 0x14));
    assert_eq!(packet_set_brightness(250, false), packet_set_brightness(100, false));
    let q = packet_set_brightness(42, false);
    assert_eq!((q[5], q[16]), (42, 0x00));
}

#[test]
fn layout_packets_and_slots() {
    assert_eq!(head(&packet_hw_layout(HwLayout::Multi, 3), 6), vec![0xec, 0x52, 0x00, 0x04, 0x00, 3]);
    assert_eq!(head(&packet_hw_layout(HwLayout::Single, 1), 6), vec![0xec, 0x52, 0x00, 0x00, 0x00, 1]);
    assert_eq!(HwLayout::Single.slot_count(), 1);
    assert_eq!(HwLayout::Dual.slot_count(), 2);
    assert_eq!(HwLayout::Triple.slot_count(), 3);
    assert_eq!(HwLayout::Multi.slot_count(), 5);
    assert_eq!(HwLayout::default(), HwLayout::Triple);
}

#[test]
fn telemetry_packet_caps_label_and_value() {
    let p = packet_telemetry(2, "CPU", "45.0\u{2103}");
    assert_eq!(head(&p, 6), vec![0xec, 0x53, 2, b'C', b'P', b'U']);
    assert_eq!(&p[21..28], "45.0\u{2103}".as_bytes());
    assert_eq!(p[28], 0);
    let long = packet_telemetry(0, "ABCDEFGHIJKLMNOPQRSTUVWXYZ", &"x".repeat(60));
    assert_eq!(&long[3..20], b"ABCDEFGHIJKLMNOPQ");
    assert_eq!(long[20], 0);
    assert!(long[21..64].iter().all(|b| *b == b'x'));
}

#[test]
fn stream_and_sync_packets() {
    let a = packet_announce_stream_frame(FRAME_RAW_SIZE as u32);
    assert_eq!(head(&a, 7), vec![0xec, 0x7f, 0x03, 0x00, 0x40, 0x38, 0x00]);
    assert_eq!(head(&packet_sync(), 2), vec![0xec, 0xdc]);
}

#[test]
fn upload_handshake_packets() {
    let (p1, p2) = step0_delete_slot(3);
    assert_eq!(head(&p1, 5), vec![0xec, 0x72, 0x01, 0x01, 3]);
    assert_eq!(head(&p2, 4), vec![0xec, 0x73, 0x03, 0x00]);
    assert_eq!(head(&step1_prep(), 4), vec![0xec, 0x71, 0x01, 0x01]);
    assert_eq!(head(&step2_sync(), 2), vec![0xec, 0xf1]);
    assert_eq!(step3_enable(3), p1);
    assert_eq!(head(&step4_start(), 3), vec![0xec, 0x73, 0x01]);
    assert_eq!(head(&step5_size_header(0x0001_2345), 7), vec![0xec, 0x7f, 0x02, 0x45, 0x23, 0x01, 0x00]);
    assert_eq!(head(&step6_finalize(), 3), vec![0xec, 0x73, 0xff]);
    assert_eq!(head(&step7_exit(), 4), vec![0xec, 0x72, 0x01, 0x00]);
}

#[test]
fn lcd_models_by_product_id() {
    assert_eq!(LcdModel::from_product_id(0x1c83), Some(LcdModel::Extreme));
    assert_eq!(LcdModel::from_product_id(0x1d93), Some(LcdModel::Glacial));
    assert_eq!(LcdModel::from_product_id(0x1c82), None);
    assert_eq!(LcdModel::Glacial.product_id(), 0x1d93);
    assert_eq!(LcdModel::Extreme.product_id(), 0x1c83);
    assert_eq!(LcdModel::Extreme.display_name(), "ROG Crosshair X870E Extreme");
    assert_eq!(SUPPORTED_PRODUCT_IDS, [0x1c83, 0x1d93]);
    for pid in SUPPORTED_PRODUCT_IDS {
        assert_eq!(LcdModel::from_product_id(pid).map(|m| m.product_id()), Some(pid));
    }
}
