//! Where the telemetry pre-scan reads a file: a fixed number of small reads spread
//! evenly over it, so that the scan's memory stays under a kilobyte.

use vstd::prelude::*;

verus! {

/// Files shorter than this are not scanned; the scan then reports fixed features.
pub const MIN_SCAN_LEN: u64 = 512;

/// Number of one-byte brightness samples.
pub const LUMA_SAMPLES: u64 = 128;

/// Number of blocks read for the spatial (DCT) measure.
pub const DCT_BLOCKS: u64 = 16;

/// Length of one DCT block, in bytes.
pub const DCT_BLOCK_LEN: u64 = 8;

/// Number of evenly spaced windows compared for the temporal measure.
pub const STRIDES: u64 = 8;

/// Length of one temporal window, in bytes.
pub const STRIDE_LEN: u64 = 32;

/// The offsets of every read of a scan.
pub struct ScanPlan {
    /// Offset of each one-byte brightness sample.
    pub luma_offsets: Vec<u64>,
    /// Offset of each DCT block.
    pub block_offsets: Vec<u64>,
    /// Offsets of each pair of neighbouring windows compared for the temporal measure.
    pub stride_pairs: Vec<(u64, u64)>,
}

/// Offset of brightness sample `i` in a file of `file_len` bytes.
pub open spec fn luma_offset(file_len: u64, i: int) -> int {
    i * (file_len / LUMA_SAMPLES) as int
}

/// Offset of DCT block `b` in a file of `file_len` bytes.
pub open spec fn block_offset(file_len: u64, b: int) -> int {
    b * (file_len / DCT_BLOCKS) as int
}

/// Distance between neighbouring temporal windows in a file of `file_len` bytes.
pub open spec fn window_step(file_len: u64) -> int {
    ((file_len - STRIDE_LEN) / STRIDES as int)
}

/// Offset of temporal window `s` in a file of `file_len` bytes.
pub open spec fn window_offset(file_len: u64, s: int) -> int {
    s * window_step(file_len)
}

/// Whether `plan` is the scan plan of a file of `file_len` bytes: 128 brightness
/// samples at multiples of `file_len / 128`, 16 blocks at multiples of
/// `file_len / 16`, and the 7 pairs of neighbouring windows among 8 windows at
/// multiples of `(file_len - 32) / 8`.
pub open spec fn is_scan_plan(plan: ScanPlan, file_len: u64) -> bool {
    &&& plan.luma_offsets@.len() == LUMA_SAMPLES
    &&& forall|i: int|
        0 <= i < LUMA_SAMPLES ==> #[trigger] plan.luma_offsets@[i] == luma_offset(file_len, i)
    &&& plan.block_offsets@.len() == DCT_BLOCKS
    &&& forall|b: int|
        0 <= b < DCT_BLOCKS ==> #[trigger] plan.block_offsets@[b] == block_offset(file_len, b)
    &&& plan.stride_pairs@.len() == STRIDES - 1
    &&& forall|s: int|
        0 <= s < STRIDES - 1 ==> #[trigger] plan.stride_pairs@[s] == (
            window_offset(file_len, s) as u64,
            window_offset(file_len, s + 1) as u64,
        )
}

/// Every read of the scan of a file of at least [`MIN_SCAN_LEN`] bytes lies inside
/// the file: no sample, block or window runs past its end.
pub proof fn lemma_scan_reads_inside_file(file_len: u64)
    requires
        file_len >= MIN_SCAN_LEN,
    ensures
        forall|i: int| 0 <= i < LUMA_SAMPLES ==> 0 <= #[trigger] luma_offset(file_len, i) && luma_offset(file_len, i) + 1 <= file_len,
        forall|b: int| 0 <= b < DCT_BLOCKS ==> 0 <= #[trigger] block_offset(file_len, b) && block_offset(file_len, b) + DCT_BLOCK_LEN <= file_len,
        forall|s: int| 0 <= s < STRIDES ==> 0 <= #[trigger] window_offset(file_len, s) && window_offset(file_len, s) + STRIDE_LEN <= file_len,
{
    let n = file_len as int;
    assert forall|i: int| 0 <= i < LUMA_SAMPLES implies 0 <= #[trigger] luma_offset(file_len, i) && luma_offset(file_len, i) + 1 <= file_len by {
        let q = n / 128;
        assert(q * 128 <= n);
        assert(q >= 4);
        assert(0 <= i * q <= 127 * q) by (nonlinear_arith)
            requires
                0 <= i < 128,
                q >= 0,
        ;
    }
    assert forall|b: int| 0 <= b < DCT_BLOCKS implies 0 <= #[trigger] block_offset(file_len, b) && block_offset(file_len, b) + DCT_BLOCK_LEN <= file_len by {
        let q = n / 16;
        assert(q * 16 <= n);
        assert(q >= 32);
        assert(0 <= b * q <= 15 * q) by (nonlinear_arith)
            requires
                0 <= b < 16,
                q >= 0,
        ;
    }
    assert forall|s: int| 0 <= s < STRIDES implies 0 <= #[trigger] window_offset(file_len, s) && window_offset(file_len, s) + STRIDE_LEN <= file_len by {
        let q = (n - 32) / 8;
        assert(q * 8 <= n - 32);
        assert(q >= 0);
        assert(0 <= s * q <= 7 * q) by (nonlinear_arith)
            requires
                0 <= s < 8,
                q >= 0,
        ;
    }
}

/// The reads of a scan are spread evenly over the whole file: the brightness samples
/// start at 0 and are `file_len / 128` bytes apart, so that the last lies in the
/// final 128th of the file; the blocks start at 0, `file_len / 16` bytes apart; the
/// windows start at 0, `(file_len - 32) / 8` bytes apart, the last ending less than
/// one such step and 8 bytes before the end of the file.
pub proof fn lemma_scan_spread_over_file(file_len: u64)
    requires
        file_len >= MIN_SCAN_LEN,
    ensures
        luma_offset(file_len, 0) == 0,
        forall|i: int|
            0 <= i < LUMA_SAMPLES - 1 ==> luma_offset(file_len, i + 1) - #[trigger] luma_offset(
                file_len,
                i,
            ) == file_len / 128,
        luma_offset(file_len, LUMA_SAMPLES - 1) + 2 * (file_len / 128) > file_len - 128,
        block_offset(file_len, 0) == 0,
        forall|b: int|
            0 <= b < DCT_BLOCKS - 1 ==> block_offset(file_len, b + 1) - #[trigger] block_offset(
                file_len,
                b,
            ) == file_len / 16,
        window_offset(file_len, 0) == 0,
        forall|s: int|
            0 <= s < STRIDES - 1 ==> window_offset(file_len, s + 1) - #[trigger] window_offset(
                file_len,
                s,
            ) == (file_len - 32) / 8,
        window_offset(file_len, STRIDES - 1) + STRIDE_LEN + (file_len - 32) / 8 + 8 > file_len,
{
    let n = file_len as int;
    let q = n / 128;
    assert(q * 128 <= n < q * 128 + 128);
    assert forall|i: int| 0 <= i < LUMA_SAMPLES - 1 implies luma_offset(file_len, i + 1)
        - #[trigger] luma_offset(file_len, i) == file_len / 128 by {
        assert((i + 1) * q - i * q == q) by (nonlinear_arith);
    }
    assert forall|b: int| 0 <= b < DCT_BLOCKS - 1 implies block_offset(file_len, b + 1)
        - #[trigger] block_offset(file_len, b) == file_len / 16 by {
        let r = n / 16;
        assert((b + 1) * r - b * r == r) by (nonlinear_arith);
    }
    assert forall|s: int| 0 <= s < STRIDES - 1 implies window_offset(file_len, s + 1)
        - #[trigger] window_offset(file_len, s) == (file_len - 32) / 8 by {
        let r = (n - 32) / 8;
        assert((s + 1) * r - s * r == r) by (nonlinear_arith);
    }
    let r = (n - 32) / 8;
    assert(r * 8 <= n - 32 < r * 8 + 8);
}

/// The scan plan of a file of `file_len` bytes, or `None` where the file is shorter
/// than [`MIN_SCAN_LEN`] bytes.
pub fn scan_plan(file_len: u64) -> (plan: Option<ScanPlan>)
    ensures
        plan is None <==> file_len < MIN_SCAN_LEN,
        plan matches Some(p) ==> is_scan_plan(p, file_len),
{
    if file_len < MIN_SCAN_LEN {
        return None;
    }
    proof {
        lemma_scan_reads_inside_file(file_len);
    }
    let step = file_len / LUMA_SAMPLES;
    let mut luma_offsets: Vec<u64> = Vec::new();
    let mut i: u64 = 0;
    while i < LUMA_SAMPLES
        invariant
            file_len >= MIN_SCAN_LEN,
            step == file_len / LUMA_SAMPLES,
            i <= LUMA_SAMPLES,
            luma_offsets@.len() == i,
            forall|j: int| 0 <= j < i ==> #[trigger] luma_offsets@[j] == luma_offset(file_len, j),
            forall|j: int| 0 <= j < LUMA_SAMPLES ==> 0 <= #[trigger] luma_offset(file_len, j) && luma_offset(file_len, j) + 1 <= file_len,
        decreases LUMA_SAMPLES - i,
    {
        assert(0 <= luma_offset(file_len, i as int) < file_len);
        luma_offsets.push(i * step);
        i = i + 1;
    }
    let block_stride = file_len / DCT_BLOCKS;
    let mut block_offsets: Vec<u64> = Vec::new();
    let mut b: u64 = 0;
    while b < DCT_BLOCKS
        invariant
            file_len >= MIN_SCAN_LEN,
            block_stride == file_len / DCT_BLOCKS,
            b <= DCT_BLOCKS,
            block_offsets@.len() == b,
            forall|j: int| 0 <= j < b ==> #[trigger] block_offsets@[j] == block_offset(file_len, j),
            forall|j: int| 0 <= j < DCT_BLOCKS ==> 0 <= #[trigger] block_offset(file_len, j) && block_offset(file_len, j) + DCT_BLOCK_LEN <= file_len,
        decreases DCT_BLOCKS - b,
    {
        assert(0 <= block_offset(file_len, b as int) < file_len);
        block_offsets.push(b * block_stride);
        b = b + 1;
    }
    let diff_stride = (file_len - STRIDE_LEN) / STRIDES;
    let mut stride_pairs: Vec<(u64, u64)> = Vec::new();
    let mut s: u64 = 0;
    while s < STRIDES - 1
        invariant
            file_len >= MIN_SCAN_LEN,
            diff_stride == window_step(file_len),
            s <= STRIDES - 1,
            stride_pairs@.len() == s,
            forall|j: int| 0 <= j < s ==> #[trigger] stride_pairs@[j] == (
                window_offset(file_len, j) as u64,
                window_offset(file_len, j + 1) as u64,
            ),
            forall|j: int| 0 <= j < STRIDES ==> 0 <= #[trigger] window_offset(file_len, j) && window_offset(file_len, j) + STRIDE_LEN <= file_len,
        decreases STRIDES - 1 - s,
    {
        assert(0 <= window_offset(file_len, s as int) < file_len);
        assert(0 <= window_offset(file_len, s + 1) < file_len);
        stride_pairs.push((s * diff_stride, (s + 1) * diff_stride));
        s = s + 1;
    }
    Some(ScanPlan { luma_offsets, block_offsets, stride_pairs })
}

} // verus!
