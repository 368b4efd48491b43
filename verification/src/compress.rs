//! Choice of compression for a chunk by the CPU share available.

use vstd::prelude::*;

verus! {

/// What compressing a chunk gives. The saving is held in whole percent.
pub struct CompressionMetrics {
    pub original_size: usize,
    pub compressed_size: usize,
    pub ratio_pct: u8,
    pub algorithm: String,
}

/// Engine that compresses chunks dynamically.
pub struct CompressEngine;

impl CompressEngine {
    /// With no CPU share (`cpu_limit_pct == 0`, the user is busy) the
    /// chunk goes raw, at its full size; otherwise it is compressed with
    /// Zstd level 3, which saves about 35 percent, and its size is
    /// `zstd_size`, the Zstd estimate for `data_size` (65 percent of it,
    /// as the caller computes it in single precision).
    pub fn compress_chunk(data_size: usize, cpu_limit_pct: u8, zstd_size: usize) -> (m: CompressionMetrics)
        ensures
            m.original_size == data_size,
            cpu_limit_pct == 0 ==> m.compressed_size == data_size && m.ratio_pct == 0
                && m.algorithm@ == "RAW (Passthrough)"@,
            cpu_limit_pct != 0 ==> m.compressed_size == zstd_size && m.ratio_pct == 35
                && m.algorithm@ == "Zstd (Level 3)"@,
    {
        if cpu_limit_pct == 0 {
            CompressionMetrics {
                original_size: data_size,
                compressed_size: data_size,
                ratio_pct: 0,
                algorithm: "RAW (Passthrough)".to_owned(),
            }
        } else {
            CompressionMetrics {
                original_size: data_size,
                compressed_size: zstd_size,
                ratio_pct: 35,
                algorithm: "Zstd (Level 3)".to_owned(),
            }
        }
    }
}

} // verus!
