//! Whether a machine is fit to take part in the network.

use vstd::prelude::*;

use crate::text::{contains_seq, str_contains};

verus! {

/// The audit of a machine.
#[derive(Debug)]
pub struct HardwareScore {
    pub total_ram_gb: u64,
    pub logical_cores: usize,
    pub is_ssd: bool,
    pub can_participate: bool,
}

/// What the system reports of one disk: its kind and its file system.
pub struct DiskReading {
    pub kind: String,
    pub file_system: String,
}

/// A disk counts as a solid-state drive when its kind mentions "SSD" or
/// "NVMe", or its file system mentions "ext4".
pub open spec fn disk_is_ssd_spec(kind: Seq<char>, file_system: Seq<char>) -> bool {
    contains_seq(kind, "SSD"@) || contains_seq(kind, "NVMe"@) || contains_seq(file_system, "ext4"@)
}

/// Some disk of the list counts as a solid-state drive.
pub open spec fn any_ssd(disks: Seq<DiskReading>) -> bool {
    exists|i: int|
        0 <= i < disks.len() && disk_is_ssd_spec(
            (#[trigger] disks[i]).kind@,
            disks[i].file_system@,
        )
}

/// A disk whose kind contains "SSD" or "NVMe", or whose file system
/// contains "ext4", counts as a solid-state drive, whatever surrounds it.
pub proof fn law_solid_state_markers(before: Seq<char>, after: Seq<char>, other: Seq<char>)
    ensures
        disk_is_ssd_spec(before + "SSD"@ + after, other),
        disk_is_ssd_spec(before + "NVMe"@ + after, other),
        disk_is_ssd_spec(other, before + "ext4"@ + after),
{
    let k = before.len() as int;
    reveal_strlit("SSD");
    reveal_strlit("NVMe");
    reveal_strlit("ext4");
    assert((before + "SSD"@ + after).subrange(k, k + 3) =~= "SSD"@);
    assert((before + "NVMe"@ + after).subrange(k, k + 4) =~= "NVMe"@);
    assert((before + "ext4"@ + after).subrange(k, k + 4) =~= "ext4"@);
}

/// A disk whose kind contains neither "SSD" nor "NVMe", and whose file
/// system does not contain "ext4", does not count as a solid-state drive.
pub proof fn law_unmarked_disk_not_ssd(kind: Seq<char>, file_system: Seq<char>)
    requires
        forall|i: int| 0 <= i <= kind.len() - 3 ==> #[trigger] kind.subrange(i, i + 3) != "SSD"@,
        forall|i: int| 0 <= i <= kind.len() - 4 ==> #[trigger] kind.subrange(i, i + 4) != "NVMe"@,
        forall|i: int|
            0 <= i <= file_system.len() - 4 ==> #[trigger] file_system.subrange(i, i + 4) != "ext4"@,
    ensures
        !disk_is_ssd_spec(kind, file_system),
{
    reveal_strlit("SSD");
    reveal_strlit("NVMe");
    reveal_strlit("ext4");
}

/// A machine with at least 8 GiB of memory, at least 6 logical cores and
/// a disk whose kind contains "NVMe" has a solid-state drive and may take
/// part.
pub proof fn law_nvme_machine_qualifies(
    total_memory_bytes: u64,
    logical_cores: usize,
    disks: Seq<DiskReading>,
    i: int,
    before: Seq<char>,
    after: Seq<char>,
)
    requires
        total_memory_bytes >= 8 * 1073741824,
        logical_cores >= 6,
        0 <= i < disks.len(),
        disks[i].kind@ == before + "NVMe"@ + after,
    ensures
        any_ssd(disks),
        total_memory_bytes / 1073741824 >= 8 && logical_cores >= 6 && any_ssd(disks),
{
    law_solid_state_markers(before, after, disks[i].file_system@);
    assert(disk_is_ssd_spec(disks[i].kind@, disks[i].file_system@));
}

/// Whether one disk counts as a solid-state drive.
pub fn disk_is_ssd(disk: &DiskReading) -> (b: bool)
    ensures
        b == disk_is_ssd_spec(disk.kind@, disk.file_system@),
{
    str_contains(disk.kind.as_str(), "SSD") || str_contains(disk.kind.as_str(), "NVMe")
        || str_contains(disk.file_system.as_str(), "ext4")
}

/// Audits a machine from its readings: the memory in whole GiB, the
/// number of logical cores, whether some disk is a solid-state drive, and
/// whether the machine meets the thresholds (at least 8 GiB of memory, at
/// least 6 logical cores, a solid-state drive).
pub fn evaluate_readings(total_memory_bytes: u64, logical_cores: usize, disks: &Vec<DiskReading>) -> (score: HardwareScore)
    ensures
        score.total_ram_gb == total_memory_bytes / 1073741824,
        score.logical_cores == logical_cores,
        score.is_ssd == any_ssd(disks@),
        score.can_participate == (score.total_ram_gb >= 8 && logical_cores >= 6 && score.is_ssd),
{
    let total_ram_gb = total_memory_bytes / 1024 / 1024 / 1024;
    let n = disks.len();
    let mut is_ssd = false;
    let mut i: usize = 0;
    while i < n
        invariant
            n == disks@.len(),
            i <= n,
            is_ssd == exists|j: int|
                0 <= j < i && disk_is_ssd_spec(
                    (#[trigger] disks@[j]).kind@,
                    disks@[j].file_system@,
                ),
        decreases n - i,
    {
        if !is_ssd && disk_is_ssd(&disks[i]) {
            is_ssd = true;
        }
        i = i + 1;
    }
    let can_participate = total_ram_gb >= 8 && logical_cores >= 6 && is_ssd;
    HardwareScore { total_ram_gb, logical_cores, is_ssd, can_participate }
}

} // verus!
