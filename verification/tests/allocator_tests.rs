use quill::allocator::{plan_allocation, target_kbps, thread_cap};

#[test]
fn bitrate_is_held_between_bounds() {
    assert_eq!(target_kbps(100), 350);
    assert_eq!(target_kbps(1_500_000), 1500);
    assert_eq!(target_kbps(9_000_000), 4000);
}

#[test]
fn thread_cap_steps_with_memory() {
    assert_eq!(thread_cap(1999), 2);
    assert_eq!(thread_cap(2000), 4);
    assert_eq!(thread_cap(3999), 4);
    assert_eq!(thread_cap(4000), 6);
}

#[test]
fn plan_on_a_large_host() {
    let plan = plan_allocation(16000, Some(16), 2_345_678);
    assert_eq!(plan.preset, "10");
    assert_eq!(plan.threads, "6");
    assert_eq!(plan.pix_fmt, "yuv420p10le");
    assert_eq!(plan.target_bitrate_kbps, 2345);
    assert_eq!(plan.crf_or_bitrate, "-b:v 2345k");
    assert_eq!(plan.num_cpus, 16);
    assert_eq!(plan.system_ram_mb, 16000);
}

#[test]
fn higher_rate_never_lowers_target() {
    let rates = [0u32, 349_999, 350_000, 999_999, 1_000_000, 3_999_999, 4_000_000, 4_000_999, 4_001_000, u32::MAX];
    for pair in rates.windows(2) {
        assert!(target_kbps(pair[0]) <= target_kbps(pair[1]));
    }
}

#[test]
fn preset_ten_only_on_large_hosts() {
    assert_eq!(plan_allocation(6000, Some(12), 0).preset, "10");
    assert_eq!(plan_allocation(5999, Some(12), 0).preset, "12");
    assert_eq!(plan_allocation(6000, Some(11), 0).preset, "12");
    let fallback = plan_allocation(1500, None, 0);
    assert_eq!(fallback.num_cpus, 4);
    assert_eq!(fallback.preset, "12");
    assert_eq!(fallback.threads, "2");
    assert_eq!(fallback.crf_or_bitrate, "-b:v 350k");
}
