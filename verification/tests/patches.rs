use x870e_lcd::patches::{
    apply_patches, apply_streaming_patch, calculate_sum32, diff_firmware, is_streaming_patched,
    patch_memcpy_nop, patch_vsync_reload, patch_zero_heap_setup, streaming_patches,
    verify_checksum, PatchError, EXPECTED_FW_SIZE,
};

#[test]
fn test_calculate_sum32_simple() {
    let mut data = vec![0u8; 16];
    // words: [1, 2, 3, checksum]
    data[0..4].copy_from_slice(&1u32.to_le_bytes());
    data[4..8].copy_from_slice(&2u32.to_le_bytes());
    data[8..12].copy_from_slice(&3u32.to_le_bytes());
    let sum = calculate_sum32(&data).unwrap();
    assert_eq!(sum, 6);
}

#[test]
fn test_patch_safety_assertion_failure() {
    let mut data = vec![0u8; EXPECTED_FW_SIZE];
    // Offset has 0x00 instead of expected 0x01
    let result = apply_patches(&mut data, &[patch_vsync_reload()]);
    assert!(result.is_err());
    match result.unwrap_err() {
        PatchError::SafetyAssertionFailed { name, offset, .. } => {
            assert_eq!(name, patch_vsync_reload().name);
            assert_eq!(offset, patch_vsync_reload().offset);
        }
        other => panic!("Unexpected error: {:?}", other),
    }
}

#[test]
fn test_apply_streaming_patch() {
    let mut data = vec![0u8; EXPECTED_FW_SIZE];
    for patch in streaming_patches() {
        data[patch.offset..patch.offset + patch.expected.len()].copy_from_slice(patch.expected);
    }

    assert!(!is_streaming_patched(&data));

    let sum = apply_streaming_patch(&mut data).unwrap();
    for patch in streaming_patches() {
        assert_eq!(
            &data[patch.offset..patch.offset + patch.replacement.len()],
            patch.replacement
        );
    }
    let (calc, stored) = verify_checksum(&data).unwrap();
    assert_eq!(calc, sum);
    assert_eq!(stored, sum);
    assert!(is_streaming_patched(&data));
}

#[test]
fn test_diff_firmware() {
    let a = vec![1, 2, 3, 4];
    let b = vec![1, 99, 3, 4];
    let diffs = diff_firmware(&a, &b).unwrap();
    assert_eq!(diffs.len(), 1);
    assert_eq!(diffs[0].offset, 1);
    assert_eq!(diffs[0].original, 2);
    assert_eq!(diffs[0].patched, 99);

    // Identical
    let diffs_same = diff_firmware(&a, &a).unwrap();
    assert!(diffs_same.is_empty());

    // Length mismatch
    let c = vec![1, 2, 3];
    let err = diff_firmware(&a, &c);
    assert!(err.is_err());
    match err.unwrap_err() {
        PatchError::InvalidSize { expected, actual } => {
            assert_eq!(expected, 4);
            assert_eq!(actual, 3);
        }
        other => panic!("Unexpected error: {:?}", other),
    }
}

#[test]
fn sum32_rejects_short_and_unaligned_buffers() {
    match calculate_sum32(&[0u8; 4]) {
        Err(PatchError::InvalidSize { expected, actual }) => {
            assert_eq!(expected, 8);
            assert_eq!(actual, 4);
        }
        other => panic!("unexpected: {:?}", other),
    }
    assert!(calculate_sum32(&[0u8; 10]).is_err());
}

#[test]
fn sum32_wraps_and_ignores_trailer() {
    let mut data = vec![0xffu8; 12];
    // two words of 0xffffffff wrap to 0xfffffffe; the trailer is ignored
    assert_eq!(calculate_sum32(&data).unwrap(), 0xffff_fffe);
    data[8] = 0;
    assert_eq!(calculate_sum32(&data).unwrap(), 0xffff_fffe);
}

#[test]
fn verify_checksum_reports_mismatch() {
    let mut data = vec![0u8; 8];
    data[0] = 5;
    match verify_checksum(&data) {
        Err(PatchError::ChecksumMismatch { calculated, stored }) => {
            assert_eq!(calculated, 5);
            assert_eq!(stored, 0);
        }
        other => panic!("unexpected: {:?}", other),
    }
    data[4] = 5;
    assert_eq!(verify_checksum(&data).unwrap(), (5, 5));
}

#[test]
fn apply_patches_rejects_small_image_untouched() {
    let mut data = vec![7u8; 16];
    match apply_patches(&mut data, &[patch_vsync_reload()]) {
        Err(PatchError::InvalidSize { expected, actual }) => {
            assert_eq!(expected, EXPECTED_FW_SIZE);
            assert_eq!(actual, 16);
        }
        other => panic!("unexpected: {:?}", other),
    }
    assert_eq!(data, vec![7u8; 16]);
}

#[test]
fn refused_patch_leaves_firmware_unchanged() {
    let mut data = vec![0u8; EXPECTED_FW_SIZE];
    let p = patch_vsync_reload();
    data[p.offset..p.offset + 2].copy_from_slice(p.expected);
    let before = data.clone();
    // the second patch does not fit, so the first is not written either
    let result = apply_patches(&mut data, &[p, patch_memcpy_nop()]);
    match result {
        Err(PatchError::SafetyAssertionFailed { offset, expected, found, .. }) => {
            assert_eq!(offset, 0xcfd8);
            assert_eq!(expected, vec![0xf8, 0xf7, 0xa4, 0xfa]);
            assert_eq!(found, vec![0, 0, 0, 0]);
        }
        other => panic!("unexpected: {:?}", other),
    }
    assert!(data == before);
}

#[test]
fn out_of_bounds_patch_is_reported() {
    let mut data = vec![0u8; EXPECTED_FW_SIZE];
    let mut p = patch_zero_heap_setup();
    p.offset = EXPECTED_FW_SIZE - 10;
    match apply_patches(&mut data, &[p]) {
        Err(PatchError::OutOfBounds { offset, len, size }) => {
            assert_eq!(offset, EXPECTED_FW_SIZE - 10);
            assert_eq!(len, 62);
            assert_eq!(size, EXPECTED_FW_SIZE);
        }
        other => panic!("unexpected: {:?}", other),
    }
}

#[test]
fn mismatched_patch_lengths_are_reported() {
    let mut data = vec![0u8; EXPECTED_FW_SIZE];
    let mut p = patch_vsync_reload();
    p.replacement = &[1, 2, 3];
    match apply_patches(&mut data, &[p]) {
        Err(PatchError::InvalidSize { expected, actual }) => {
            assert_eq!(expected, 2);
            assert_eq!(actual, 3);
        }
        other => panic!("unexpected: {:?}", other),
    }
}

#[test]
fn unaligned_image_is_patched_but_refused_for_checksum() {
    let mut data = vec![0u8; EXPECTED_FW_SIZE + 1];
    let p = patch_vsync_reload();
    data[p.offset..p.offset + 2].copy_from_slice(p.expected);
    match apply_patches(&mut data, &[p]) {
        Err(PatchError::InvalidSize { expected, actual }) => {
            assert_eq!(expected, 8);
            assert_eq!(actual, EXPECTED_FW_SIZE + 1);
        }
        other => panic!("unexpected: {:?}", other),
    }
    assert_eq!(&data[p.offset..p.offset + 2], p.replacement);
}

#[test]
fn diff_lists_every_change_in_order() {
    let a = vec![0u8, 1, 2, 3, 4, 5];
    let b = vec![9u8, 1, 7, 3, 4, 8];
    let diffs = diff_firmware(&a, &b).unwrap();
    let offsets: Vec<usize> = diffs.iter().map(|d| d.offset).collect();
    assert_eq!(offsets, vec![0, 2, 5]);
    assert_eq!((diffs[2].original, diffs[2].patched), (5, 8));
}

#[test]
fn patched_firmware_is_not_patched_twice() {
    let mut data = vec![0u8; EXPECTED_FW_SIZE];
    for patch in streaming_patches() {
        data[patch.offset..patch.offset + patch.expected.len()].copy_from_slice(patch.expected);
    }
    apply_streaming_patch(&mut data).unwrap();
    let before = data.clone();
    match apply_streaming_patch(&mut data) {
        Err(PatchError::SafetyAssertionFailed { name, offset, expected, found }) => {
            assert_eq!(name, "Vsync framebuffer reload");
            assert_eq!(offset, 0x801a);
            assert_eq!(expected, vec![0x01, 0x22]);
            assert_eq!(found, vec![0x02, 0x22]);
        }
        other => panic!("Unexpected result: {:?}", other),
    }
    assert_eq!(data, before);
}

#[test]
fn streaming_patch_names_the_first_failing_site() {
    let mut data = vec![0u8; EXPECTED_FW_SIZE];
    let vsync = patch_vsync_reload();
    data[vsync.offset..vsync.offset + vsync.expected.len()].copy_from_slice(vsync.expected);
    match apply_streaming_patch(&mut data) {
        Err(PatchError::SafetyAssertionFailed { name, offset, .. }) => {
            assert_eq!(name, "Zero-Heap Dynamic Bitmap Setup");
            assert_eq!(offset, 0xcf46);
        }
        other => panic!("Unexpected result: {:?}", other),
    }
}
