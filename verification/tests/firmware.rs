use x870e_lcd::firmware::{
    group_diffs, inspect_firmware, needs_version_note, patch_stock_firmware, run_note,
    PatchOutcome, PatchRefusal, RunNote,
};
use x870e_lcd::patches::{
    calculate_sum32, diff_firmware, is_streaming_patched, streaming_patches, ByteDiff, PatchError,
    EXPECTED_FW_SIZE,
};

fn with_valid_checksum(mut data: Vec<u8>) -> Vec<u8> {
    let sum = calculate_sum32(&data).unwrap();
    let n = data.len();
    data[n - 4..].copy_from_slice(&sum.to_le_bytes());
    data
}

fn stock_like() -> Vec<u8> {
    let mut data = vec![0u8; EXPECTED_FW_SIZE];
    for p in streaming_patches() {
        data[p.offset..p.offset + p.expected.len()].copy_from_slice(p.expected);
    }
    with_valid_checksum(data)
}

#[test]
fn inspect_reports_checksum_and_patch_status() {
    let info = inspect_firmware(&[1, 0, 0, 0, 2, 0, 0, 0, 1, 0, 0, 0]);
    assert_eq!(info.calculated, 3);
    assert_eq!(info.stored, 1);
    assert!(matches!(info.checksum_error, Some(PatchError::ChecksumMismatch { calculated: 3, stored: 1 })));
    assert!(!info.is_stock);
    assert!(!info.streaming_patched);

    let good = inspect_firmware(&[1, 0, 0, 0, 2, 0, 0, 0, 3, 0, 0, 0]);
    assert!(good.checksum_error.is_none());
    assert_eq!((good.calculated, good.stored), (3, 3));

    let tiny = inspect_firmware(&[9, 9]);
    assert_eq!((tiny.calculated, tiny.stored), (0, 0));
    assert!(matches!(tiny.checksum_error, Some(PatchError::InvalidSize { expected: 8, actual: 2 })));
}

#[test]
fn patch_refuses_wrong_sizes_bad_checksums_and_unknown_images() {
    let mut small = vec![0u8; 100];
    assert!(matches!(patch_stock_firmware(&mut small), Err(PatchRefusal::TooSmall { len: 100 })));
    let mut big = vec![0u8; EXPECTED_FW_SIZE + 4];
    assert!(matches!(patch_stock_firmware(&mut big), Err(PatchRefusal::SizeMismatch { .. })));

    let mut bad_sum = vec![0u8; EXPECTED_FW_SIZE];
    bad_sum[0] = 1;
    assert!(matches!(
        patch_stock_firmware(&mut bad_sum),
        Err(PatchRefusal::Checksum(PatchError::ChecksumMismatch { calculated: 1, stored: 0 }))
    ));

    let mut unknown = stock_like();
    let before = unknown.clone();
    // the synthetic image is not the stock firmware: its Sum32 differs
    match patch_stock_firmware(&mut unknown) {
        Err(PatchRefusal::NotStock { checksum }) => assert_eq!(checksum, calculate_sum32(&before).unwrap()),
        other => panic!("unexpected {other:?}"),
    }
    assert_eq!(unknown, before);
}

#[test]
fn patch_leaves_already_patched_images_alone() {
    let mut data = vec![0u8; EXPECTED_FW_SIZE];
    for p in streaming_patches() {
        data[p.offset..p.offset + p.replacement.len()].copy_from_slice(p.replacement);
    }
    let mut data = with_valid_checksum(data);
    assert!(is_streaming_patched(&data));
    let before = data.clone();
    assert_eq!(patch_stock_firmware(&mut data).unwrap(), PatchOutcome::AlreadyPatched);
    assert_eq!(data, before);
}

#[test]
fn diff_runs_group_consecutive_offsets() {
    let d = |offset: usize, original: u8, patched: u8| ByteDiff { offset, original, patched };
    let diffs = vec![d(3, 1, 2), d(4, 5, 6), d(10, 7, 8), d(12, 9, 0), d(13, 1, 1)];
    let runs = group_diffs(&diffs);
    assert_eq!(runs.len(), 3);
    assert_eq!((runs[0].start, runs[0].original.clone(), runs[0].patched.clone()), (3, vec![1, 5], vec![2, 6]));
    assert_eq!((runs[1].start, runs[1].original.clone()), (10, vec![7]));
    assert_eq!((runs[2].start, runs[2].patched.clone()), (12, vec![0, 1]));
    assert!(group_diffs(&[]).is_empty());

    let a = vec![0u8; 16];
    let mut b = a.clone();
    b[0] = 1;
    b[1] = 1;
    b[12] = 9;
    let runs = group_diffs(&diff_firmware(&a, &b).unwrap());
    assert_eq!(runs.len(), 2);
    assert!(matches!(run_note(runs[1].start, 16), Some(RunNote::Checksum)));
}

#[test]
fn run_notes_name_patch_sites() {
    assert!(matches!(run_note(0x801a, EXPECTED_FW_SIZE), Some(RunNote::Patch(p)) if p.offset == 0x801a));
    assert!(matches!(run_note(0xcf46, EXPECTED_FW_SIZE), Some(RunNote::Patch(p)) if p.offset == 0xcf46));
    assert!(matches!(run_note(0xcfd8, EXPECTED_FW_SIZE), Some(RunNote::Patch(p)) if p.offset == 0xcfd8));
    assert!(matches!(run_note(0x801a, EXPECTED_FW_SIZE), Some(RunNote::Patch(p)) if p.name == "Vsync framebuffer reload"));
    assert!(matches!(run_note(0xcfd8, EXPECTED_FW_SIZE), Some(RunNote::Patch(p)) if p.id == "memcpy-nop"));
    assert!(matches!(run_note(EXPECTED_FW_SIZE - 4, EXPECTED_FW_SIZE), Some(RunNote::Checksum)));
    assert!(run_note(5, EXPECTED_FW_SIZE).is_none());
    assert!(run_note(0, 2).is_none());
}

#[test]
fn version_note_for_bin_names_without_0109() {
    assert!(needs_version_note("patched.bin"));
    assert!(!needs_version_note("ALDR4-S7R7-patched-0109.bin"));
    assert!(!needs_version_note("firmware.img"));
    assert!(!needs_version_note(".bi"));
}
