use x870e_lcd::flash::{
    ack_chunk_size, ack_matches, check_firmware_image, classify_bulk_ack, flash_packet_count,
    rep_announce, rep_devrst, rep_enter_bootloader, rep_erase, rep_info, validate_flash_addr,
    BulkAck, ChecksumStatus, FlashEvent, FlashFailure, FlashImageError, FlashPlan, FlashSession,
    FlashStep, DEFAULT_FLASH_ADDR,
};
use x870e_lcd::patches::{calculate_sum32, EXPECTED_FW_SIZE};

#[test]
fn flash_address_rule_and_messages() {
    assert_eq!(validate_flash_addr("0x100000"), Ok(0x100000));
    assert_eq!(validate_flash_addr("0X200000"), Ok(0x200000));
    assert_eq!(validate_flash_addr("1048576"), Ok(1_048_576));
    assert_eq!(
        validate_flash_addr("0x1000"),
        Err("Address 0x00001000 is below minimum allowed address 0x00100000 (bootloader region is protected)".to_string())
    );
    assert_eq!(
        validate_flash_addr("0xzz"),
        Err("Invalid hex address: invalid digit found in string".to_string())
    );
    assert_eq!(
        validate_flash_addr(""),
        Err("Invalid address: cannot parse integer from empty string".to_string())
    );
    assert_eq!(
        validate_flash_addr("99999999999"),
        Err("Invalid address: number too large to fit in target type".to_string())
    );
    assert_eq!(DEFAULT_FLASH_ADDR, 0x0010_0000);
}

#[test]
fn bootloader_packets() {
    let p = rep_enter_bootloader();
    assert_eq!(&p[..8], &[0xec, 0x10, 0xaa, 0x41, 0x53, 0x55, 0x53, 0xaa]);
    assert!(p[8..].iter().all(|b| *b == 0));
    assert_eq!(&rep_info()[..3], &[0xec, 0x8c, 0x00]);
    let e = rep_erase(0x0010_0000, 0x0080_0000);
    assert_eq!(&e[..14], &[0xec, 0x20, 0x02, 0x01, 0x01, 0x00, 0x00, 0x10, 0x00, 0x00, 0x00, 0x00, 0x80, 0x00]);
    let a = rep_announce(0x1234_5678);
    assert_eq!(&a[..7], &[0xec, 0x7f, 0x01, 0x78, 0x56, 0x34, 0x12]);
    assert_eq!(&rep_devrst()[..8], &[0xec, 0x2f, b'D', b'e', b'v', b'R', b's', b't']);
}

#[test]
fn stock_sized_image_goes_in_2047_packets() {
    assert_eq!(flash_packet_count(EXPECTED_FW_SIZE), 2047);
    assert_eq!(flash_packet_count(4097), 2);
    assert_eq!(flash_packet_count(0), 0);
}

#[test]
fn firmware_image_checks_and_checksum_fix() {
    let mut short = vec![0u8; 6];
    assert_eq!(check_firmware_image(&mut short, false), Err(FlashImageError::NotWordAligned { len: 6 }));
    let mut odd = vec![0u8; 4096];
    assert_eq!(check_firmware_image(&mut odd, false), Err(FlashImageError::InvalidSize { len: 4096 }));

    let mut image = vec![0u8; EXPECTED_FW_SIZE];
    image[0] = 5;
    image[4] = 7;
    let mut kept = image.clone();
    assert_eq!(
        check_firmware_image(&mut kept, true),
        Ok(ChecksumStatus::Invalid { calculated: 12, stored: 0 })
    );
    assert_eq!(kept, image);
    assert_eq!(
        check_firmware_image(&mut image, false),
        Ok(ChecksumStatus::Fixed { stored: 0, calculated: 12 })
    );
    assert_eq!(&image[EXPECTED_FW_SIZE - 4..], &12u32.to_le_bytes());
    assert_eq!(calculate_sum32(&image).unwrap(), 12);
    assert_eq!(check_firmware_image(&mut image, false), Ok(ChecksumStatus::Valid { sum: 12 }));
}

#[test]
fn acknowledgement_helpers() {
    let mut buf = [0u8; 65];
    buf[0] = 0xec;
    buf[1] = 0x7f;
    buf[2] = 0x00;
    buf[3] = 0x00;
    buf[4] = 0x10;
    assert!(ack_matches(&buf, 3, &[0xec, 0x7f, 0x00]));
    assert!(!ack_matches(&buf, 2, &[0xec, 0x7f, 0x00]));
    assert!(!ack_matches(&buf, 8, &[0xec, 0x20, 0x00]));
    assert_eq!(ack_chunk_size(&buf), 4096);
    let mut ack = [0u8; 65];
    ack[0] = 0xee;
    ack[1] = 0x01;
    assert_eq!(classify_bulk_ack(&ack, 2), BulkAck::Acked);
    assert_eq!(classify_bulk_ack(&buf, 5), BulkAck::Unexpected);
    assert_eq!(classify_bulk_ack(&buf, 0), BulkAck::Nothing);
}

fn report(prefix: &[u8]) -> [u8; 65] {
    let mut r = [0u8; 65];
    r[..prefix.len()].copy_from_slice(prefix);
    r
}

#[test]
fn flash_session_runs_the_bootloader_protocol() {
    let plan = FlashPlan { addr: 0x0010_0000, len: 8192, dry_run: false, no_reboot: false };
    let (mut s, first) = FlashSession::start(plan);
    assert_eq!(first, FlashStep::EnterBootloader);
    let info = s.advance(FlashEvent::Completed);
    assert!(matches!(info, FlashStep::Command { packet, ack, timeout_secs: 5 } if packet == rep_info() && ack == [0xec, 0x0c, 0x00]));
    let erase = s.advance(FlashEvent::Acked(report(&[0xec, 0x0c, 0x00])));
    assert!(matches!(erase, FlashStep::Command { packet, timeout_secs: 10, .. } if packet == rep_erase(0x0010_0000, 8192)));
    let announce = s.advance(FlashEvent::Acked(report(&[0xec, 0x20, 0x00])));
    assert!(matches!(announce, FlashStep::Command { packet, .. } if packet == rep_announce(8192)));
    let w0 = s.advance(FlashEvent::Acked(report(&[0xec, 0x7f, 0x00, 0x00, 0x10, 0x00, 0x00])));
    assert_eq!(w0, FlashStep::WriteBlock { index: 0, offset: 0 });
    assert_eq!(s.advance(FlashEvent::Transferred(4096)), FlashStep::AwaitBlockAck { index: 0, report_progress: true });
    assert_eq!(s.advance(FlashEvent::Completed), FlashStep::WriteBlock { index: 1, offset: 4096 });
    assert_eq!(s.advance(FlashEvent::Transferred(4096)), FlashStep::AwaitBlockAck { index: 1, report_progress: true });
    let devrst = s.advance(FlashEvent::Completed);
    assert!(matches!(devrst, FlashStep::Command { packet, ack, .. } if packet == rep_devrst() && ack == [0xec, 0x2f, 0x00]));
    assert_eq!(s.advance(FlashEvent::Acked(report(&[0xec, 0x2f, 0x00]))), FlashStep::Done);
    assert_eq!(s.advance(FlashEvent::Completed), FlashStep::Done);
}

#[test]
fn flash_session_refusals() {
    let low = FlashPlan { addr: 0x1000, len: 8192, dry_run: false, no_reboot: true };
    let (_, first) = FlashSession::start(low);
    assert_eq!(first, FlashStep::Fail(FlashFailure::ProtectedAddress { addr: 0x1000 }));

    let dry = FlashPlan { addr: 0x0010_0000, len: EXPECTED_FW_SIZE, dry_run: true, no_reboot: false };
    let (_, first) = FlashSession::start(dry);
    assert_eq!(first, FlashStep::DryRunDone { packets: 2047 });

    let plan = FlashPlan { addr: 0x0010_0000, len: 8192, dry_run: false, no_reboot: true };
    let (mut s, _) = FlashSession::start(plan);
    s.advance(FlashEvent::Acked(report(&[0xec, 0x0c, 0x00])));
    s.advance(FlashEvent::Acked(report(&[0xec, 0x20, 0x00])));
    let stop = s.advance(FlashEvent::Acked(report(&[0xec, 0x7f, 0x00, 0x00, 0x02, 0x00, 0x00])));
    assert_eq!(stop, FlashStep::Fail(FlashFailure::UnexpectedChunkSize { chunk: 512 }));

    let (mut t, _) = FlashSession::start(plan);
    t.advance(FlashEvent::Acked(report(&[0xec, 0x0c, 0x00])));
    t.advance(FlashEvent::Acked(report(&[0xec, 0x20, 0x00])));
    t.advance(FlashEvent::Acked(report(&[0xec, 0x7f, 0x00, 0x00, 0x10, 0x00, 0x00])));
    let short = t.advance(FlashEvent::Transferred(10));
    assert_eq!(short, FlashStep::Fail(FlashFailure::ShortWrite { index: 0, transferred: 10, expected: 4096 }));
}

#[test]
fn progress_is_reported_every_64_packets_and_at_the_end() {
    let plan = FlashPlan { addr: 0x0010_0000, len: 70 * 4096, dry_run: false, no_reboot: true };
    let (mut s, _) = FlashSession::start(plan);
    s.advance(FlashEvent::Acked(report(&[0xec, 0x0c, 0x00])));
    s.advance(FlashEvent::Acked(report(&[0xec, 0x20, 0x00])));
    let mut step = s.advance(FlashEvent::Acked(report(&[0xec, 0x7f, 0x00, 0x00, 0x10, 0x00, 0x00])));
    let mut reported = Vec::new();
    loop {
        match step {
            FlashStep::WriteBlock { .. } => step = s.advance(FlashEvent::Transferred(4096)),
            FlashStep::AwaitBlockAck { index, report_progress } => {
                if report_progress {
                    reported.push(index);
                }
                step = s.advance(FlashEvent::Completed);
            }
            _ => break,
        }
    }
    assert_eq!(reported, vec![0, 64, 69]);
}
