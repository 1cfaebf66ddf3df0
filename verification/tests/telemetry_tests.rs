use quill::telemetry::{scan_plan, DCT_BLOCK_LEN, MIN_SCAN_LEN, STRIDE_LEN};

#[test]
fn short_files_are_not_scanned() {
    assert!(scan_plan(0).is_none());
    assert!(scan_plan(511).is_none());
    assert!(scan_plan(MIN_SCAN_LEN).is_some());
}

#[test]
fn offsets_of_a_kilobyte_file() {
    let plan = scan_plan(1024).unwrap();
    assert_eq!(plan.luma_offsets.len(), 128);
    assert_eq!(plan.luma_offsets[0], 0);
    assert_eq!(plan.luma_offsets[1], 8);
    assert_eq!(plan.luma_offsets[127], 1016);
    assert_eq!(plan.block_offsets.len(), 16);
    assert_eq!(plan.block_offsets[15], 960);
    assert_eq!(plan.stride_pairs, vec![(0, 124), (124, 248), (248, 372), (372, 496), (496, 620), (620, 744), (744, 868)]);
}

#[test]
fn reads_stay_inside_the_file() {
    for len in [512u64, 513, 1000, 4095, 1 << 40, u64::MAX] {
        let plan = scan_plan(len).unwrap();
        assert!(plan.luma_offsets.iter().all(|&o| o + 1 <= len));
        assert!(plan.block_offsets.iter().all(|&o| o + DCT_BLOCK_LEN <= len));
        assert!(plan.stride_pairs.iter().all(|&(a, b)| a + STRIDE_LEN <= len && b + STRIDE_LEN <= len));
    }
}
