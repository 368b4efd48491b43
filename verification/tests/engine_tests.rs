use apus_core::compress::CompressEngine;
use apus_core::hardware::{disk_is_ssd, evaluate_readings, DiskReading};
use apus_core::manifest::UpdateManifest;
use apus_core::nat_traversal::NatEngine;
use apus_core::network::P2PNode;
use apus_core::triggers::{current_limit, decide_work_mode, share_limit_pct, CpuLoad, WorkMode};

#[test]
fn work_mode_decisions() {
    assert_eq!(decide_work_mode(CpuLoad::Heavy, true, true), WorkMode::ActiveStop);
    assert_eq!(decide_work_mode(CpuLoad::Moderate, true, false), WorkMode::Inactive);
    assert_eq!(decide_work_mode(CpuLoad::Light, false, true), WorkMode::PassiveStream);
    assert_eq!(decide_work_mode(CpuLoad::Moderate, false, true), WorkMode::ActiveStop);
    assert_eq!(decide_work_mode(CpuLoad::Light, false, false), WorkMode::ActiveStop);
    assert_eq!(share_limit_pct(WorkMode::Inactive), 50);
    assert_eq!(share_limit_pct(WorkMode::PassiveStream), 30);
    assert_eq!(share_limit_pct(WorkMode::ActiveStop), 0);
    // the three scenarios of the demo, on a quiet machine
    assert_eq!(current_limit(CpuLoad::Light, true, false), 50);
    assert_eq!(current_limit(CpuLoad::Light, false, true), 30);
    assert_eq!(current_limit(CpuLoad::Light, false, false), 0);
    assert_eq!(current_limit(CpuLoad::Heavy, true, false), 0);
}

#[test]
fn more_load_never_shares_more() {
    let loads = [CpuLoad::Light, CpuLoad::Moderate, CpuLoad::Heavy];
    for idle in [false, true] {
        for media in [false, true] {
            for i in 0..3 {
                for j in i..3 {
                    assert!(current_limit(loads[j], idle, media) <= current_limit(loads[i], idle, media));
                    if decide_work_mode(loads[i], idle, media) == WorkMode::ActiveStop {
                        assert_eq!(decide_work_mode(loads[j], idle, media), WorkMode::ActiveStop);
                    }
                }
            }
        }
    }
}

fn zstd_estimate(n: usize) -> usize {
    (n as f32 * 0.65) as usize
}

#[test]
fn compression_choice() {
    let raw = CompressEngine::compress_chunk(1000, 0, zstd_estimate(1000));
    assert_eq!(raw.original_size, 1000);
    assert_eq!(raw.compressed_size, 1000);
    assert_eq!(raw.ratio_pct, 0);
    assert_eq!(raw.algorithm, "RAW (Passthrough)");
    let z = CompressEngine::compress_chunk(4 * 1024 * 1024, 50, zstd_estimate(4 * 1024 * 1024));
    assert_eq!(z.original_size, 4194304);
    assert_eq!(z.compressed_size, 2726297);
    assert_eq!(z.ratio_pct, 35);
    assert_eq!(z.algorithm, "Zstd (Level 3)");
    // single-precision sizes, as the engine announces them
    assert_eq!(CompressEngine::compress_chunk(180, 1, zstd_estimate(180)).compressed_size, 116);
    assert_eq!(
        CompressEngine::compress_chunk((1 << 30) + 7, 1, zstd_estimate((1 << 30) + 7)).compressed_size,
        697_932_160
    );
    assert_eq!(CompressEngine::compress_chunk(0, 1, zstd_estimate(0)).compressed_size, 0);
    // with no CPU share the estimate is ignored
    assert_eq!(CompressEngine::compress_chunk(180, 0, 116).compressed_size, 180);
}

#[test]
fn manifest_chunks() {
    let mut m = UpdateManifest::new("patch-v1.4.2", "tanks_patch.bin", 2_254_857_830, 4_194_304);
    assert_eq!(m.update_id, "patch-v1.4.2");
    assert_eq!(m.file_name, "tanks_patch.bin");
    assert_eq!(m.total_size_bytes, 2_254_857_830);
    assert_eq!(m.chunk_size_bytes, 4_194_304);
    assert_eq!(m.total_chunks(), 0);
    m.add_chunk(0, "abc");
    m.add_chunk(1, "def");
    assert_eq!(m.total_chunks(), 2);
    assert_eq!(m.chunks[0].id, 0);
    assert_eq!(m.chunks[1].hash, "def");
}

#[test]
fn nat_status() {
    let s = NatEngine::resolve_nat();
    assert_eq!(s.external_ip, "185.12.44.89\n");
    assert!(s.is_behind_cgnat);
    assert!(s.hole_punching_active);
    assert_eq!(s.mapped_port, 8080);
}

#[test]
fn chunk_length_header() {
    assert_eq!(P2PNode::encode_chunk_len(29), 29u32.to_be_bytes());
    assert_eq!(P2PNode::encode_chunk_len(0x01020304), [1, 2, 3, 4]);
    assert_eq!(P2PNode::decode_chunk_len([1, 2, 3, 4]), 0x01020304);
    for n in [0usize, 1, 255, 256, 65535, 4_194_304, u32::MAX as usize] {
        assert_eq!(P2PNode::decode_chunk_len(P2PNode::encode_chunk_len(n)), n);
        assert_eq!(P2PNode::encode_chunk_len(n), (n as u32).to_be_bytes());
    }
    let frame = P2PNode::frame_chunk(b"xyz");
    assert_eq!(frame, vec![0, 0, 0, 3, b'x', b'y', b'z']);
    assert_eq!(P2PNode::fallback_https_download("https://cdn.aeros.org/updates/patch.bin"), b"AerOS_APUS_Update_Block_#1337".to_vec());
}

#[test]
fn hardware_thresholds() {
    let ssd = DiskReading { kind: "SSD".to_string(), file_system: "btrfs".to_string() };
    let hdd = DiskReading { kind: "HDD".to_string(), file_system: "ntfs".to_string() };
    let ext4 = DiskReading { kind: "Unknown(-1)".to_string(), file_system: "ext4".to_string() };
    assert!(disk_is_ssd(&ssd));
    assert!(!disk_is_ssd(&hdd));
    assert!(disk_is_ssd(&ext4));
    let gib = 1024u64 * 1024 * 1024;
    let s = evaluate_readings(16 * gib, 8, &vec![hdd, ssd]);
    assert_eq!(s.total_ram_gb, 16);
    assert_eq!(s.logical_cores, 8);
    assert!(s.is_ssd);
    assert!(s.can_participate);
    let s = evaluate_readings(8 * gib - 1, 8, &vec![ext4]);
    assert_eq!(s.total_ram_gb, 7);
    assert!(!s.can_participate);
    let s = evaluate_readings(8 * gib, 5, &vec![]);
    assert!(!s.is_ssd);
    assert!(!s.can_participate);
}
