//! The encoder profile chosen from the host's memory and cores and from the bitrate
//! that the input's size and duration ask for.

use vstd::prelude::*;
use crate::text::{decimal, decimal_string, push_decimal};

verus! {

/// The lowest target bitrate, in kbit/s, that a plan assigns.
pub const MIN_TARGET_KBPS: u32 = 350;

/// The highest target bitrate, in kbit/s, that a plan assigns.
pub const MAX_TARGET_KBPS: u32 = 4000;

/// The core count assumed where the host does not report one.
pub const FALLBACK_CPU_COUNT: usize = 4;

/// The settings handed to the encoder, with the host figures they were chosen from.
pub struct AllocationPlan {
    /// SVT-AV1 preset: `"10"` on large hosts, `"12"` elsewhere.
    pub preset: String,
    /// The rate-control option, `-b:v <kbps>k`.
    pub crf_or_bitrate: String,
    /// SVT-AV1 logical-processor cap (`lp=`), in decimal.
    pub threads: String,
    /// The pixel format, 10-bit 4:2:0 (`yuv420p10le`).
    pub pix_fmt: String,
    /// The target bitrate in kbit/s.
    pub target_bitrate_kbps: u32,
    /// The logical cores counted for the host.
    pub num_cpus: usize,
    /// The host memory in MiB.
    pub system_ram_mb: u64,
}

/// The target bitrate in kbit/s for a requested rate in bit/s: whole kbit/s, held
/// between [`MIN_TARGET_KBPS`] and [`MAX_TARGET_KBPS`].
pub open spec fn target_kbps_spec(bitrate_bps: u32) -> u32 {
    let kbps = bitrate_bps / 1000;
    if kbps < MIN_TARGET_KBPS {
        MIN_TARGET_KBPS
    } else if kbps > MAX_TARGET_KBPS {
        MAX_TARGET_KBPS
    } else {
        kbps
    }
}

/// The logical-processor cap for a host with `ram_mb` MiB of memory.
pub open spec fn thread_cap_spec(ram_mb: u64) -> u64 {
    if ram_mb < 2000 {
        2
    } else if ram_mb < 4000 {
        4
    } else {
        6
    }
}

/// Whether a host counts as large: at least 12 cores and 6000 MiB of memory.
pub open spec fn is_large_host(num_cpus: usize, ram_mb: u64) -> bool {
    num_cpus >= 12 && ram_mb >= 6000
}

/// The preset for a host: the slower, better `"10"` on a large host, `"12"` elsewhere.
pub open spec fn preset_spec(num_cpus: usize, ram_mb: u64) -> Seq<char> {
    if is_large_host(num_cpus, ram_mb) {
        "10"@
    } else {
        "12"@
    }
}

/// The rate-control option for a target bitrate: `-b:v <kbps>k`.
pub open spec fn bitrate_option_spec(kbps: u32) -> Seq<char> {
    "-b:v "@ + decimal(kbps as nat) + seq!['k']
}

/// The core count of the host: the one it reported, or [`FALLBACK_CPU_COUNT`].
pub open spec fn cpu_count_spec(detected_cpus: Option<usize>) -> usize {
    match detected_cpus {
        Some(n) => n,
        None => FALLBACK_CPU_COUNT,
    }
}

/// The target bitrate in kbit/s for a requested rate in bit/s.
pub fn target_kbps(bitrate_bps: u32) -> (kbps: u32)
    ensures
        kbps == target_kbps_spec(bitrate_bps),
{
    let kbps = bitrate_bps / 1000;
    if kbps < MIN_TARGET_KBPS {
        MIN_TARGET_KBPS
    } else if kbps > MAX_TARGET_KBPS {
        MAX_TARGET_KBPS
    } else {
        kbps
    }
}

/// The logical-processor cap for a host with `ram_mb` MiB of memory.
pub fn thread_cap(ram_mb: u64) -> (cap: u64)
    ensures
        cap == thread_cap_spec(ram_mb),
{
    if ram_mb < 2000 {
        2
    } else if ram_mb < 4000 {
        4
    } else {
        6
    }
}

/// The profile for a host with `system_ram_mb` MiB of memory and `detected_cpus`
/// logical cores (`None` where the host reports none), encoding at the rate
/// `target_bitrate_bps` (bit/s) that the input asks for.
pub fn plan_allocation(system_ram_mb: u64, detected_cpus: Option<usize>, target_bitrate_bps: u32) -> (plan: AllocationPlan)
    ensures
        plan.num_cpus == cpu_count_spec(detected_cpus),
        plan.system_ram_mb == system_ram_mb,
        plan.target_bitrate_kbps == target_kbps_spec(target_bitrate_bps),
        plan.preset@ == preset_spec(plan.num_cpus, system_ram_mb),
        plan.threads@ == decimal(thread_cap_spec(system_ram_mb) as nat),
        plan.pix_fmt@ == "yuv420p10le"@,
        plan.crf_or_bitrate@ == bitrate_option_spec(plan.target_bitrate_kbps),
{
    let num_cpus = match detected_cpus {
        Some(n) => n,
        None => FALLBACK_CPU_COUNT,
    };
    let kbps = target_kbps(target_bitrate_bps);
    let preset = if num_cpus >= 12 && system_ram_mb >= 6000 {
        String::from_str("10")
    } else {
        String::from_str("12")
    };
    let threads = decimal_string(thread_cap(system_ram_mb));
    let mut crf_or_bitrate = String::from_str("-b:v ");
    push_decimal(&mut crf_or_bitrate, kbps as u64);
    crf_or_bitrate.push('k');
    AllocationPlan {
        preset,
        crf_or_bitrate,
        threads,
        pix_fmt: String::from_str("yuv420p10le"),
        target_bitrate_kbps: kbps,
        num_cpus,
        system_ram_mb,
    }
}

/// Every plan's target bitrate lies between [`MIN_TARGET_KBPS`] and [`MAX_TARGET_KBPS`].
pub proof fn lemma_target_kbps_bounded(bitrate_bps: u32)
    ensures
        MIN_TARGET_KBPS <= target_kbps_spec(bitrate_bps) <= MAX_TARGET_KBPS,
{
}

/// A higher requested rate never gives a lower target bitrate.
pub proof fn lemma_target_kbps_monotone(low_bps: u32, high_bps: u32)
    requires
        low_bps <= high_bps,
    ensures
        target_kbps_spec(low_bps) <= target_kbps_spec(high_bps),
{
}

/// Inside the bounds, the target bitrate is the requested rate in whole kbit/s.
pub proof fn lemma_target_kbps_exact_in_range(bitrate_bps: u32)
    requires
        MIN_TARGET_KBPS * 1000 <= bitrate_bps < (MAX_TARGET_KBPS + 1) * 1000,
    ensures
        target_kbps_spec(bitrate_bps) == bitrate_bps / 1000,
{
}

/// The preset is `"10"` exactly when the host has at least 12 cores and 6000 MiB of
/// memory, and `"12"` otherwise; a host with more cores and more memory never gets
/// the faster `"12"` where a smaller one got `"10"`.
pub proof fn lemma_preset_by_host_size(cpus: usize, ram_mb: u64, more_cpus: usize, more_ram_mb: u64)
    requires
        cpus <= more_cpus,
        ram_mb <= more_ram_mb,
    ensures
        preset_spec(cpus, ram_mb) == "10"@ <==> (cpus >= 12 && ram_mb >= 6000),
        preset_spec(cpus, ram_mb) == "12"@ <==> !(cpus >= 12 && ram_mb >= 6000),
        preset_spec(cpus, ram_mb) == "10"@ ==> preset_spec(more_cpus, more_ram_mb) == "10"@,
{
    reveal_strlit("10");
    reveal_strlit("12");
    assert("10"@[1] != "12"@[1]);
}

/// The thread cap is 2 below 2000 MiB, never more than 6, and never lower on a host
/// with more memory.
pub proof fn lemma_thread_cap_follows_memory(low_mb: u64, high_mb: u64)
    requires
        low_mb <= high_mb,
    ensures
        thread_cap_spec(low_mb) <= thread_cap_spec(high_mb),
        2 <= thread_cap_spec(low_mb) <= 6,
        low_mb < 2000 ==> thread_cap_spec(low_mb) == 2,
{
}

} // verus!
