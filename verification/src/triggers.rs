//! When this node shares bandwidth: the work mode decided from the CPU
//! load and the user's activity, and the share limit of each mode.

use vstd::prelude::*;

verus! {

/// How much of its upload capacity the node may share.
#[derive(Debug, Clone, Copy, PartialEq, Eq, Structural)]
pub enum WorkMode {
    /// The user has been idle for 10 minutes: share at half capacity.
    Inactive,
    /// Full-screen media on a quiet CPU: share at 30 percent.
    PassiveStream,
    /// Heavy load or active use: do not share.
    ActiveStop,
}

/// The global CPU usage, classified by the two thresholds that the
/// decision uses.
#[derive(Debug, Clone, Copy, PartialEq, Eq, Structural)]
pub enum CpuLoad {
    /// Usage above 50 percent (a game or heavy software is running).
    Heavy,
    /// Usage from 15 to 50 percent.
    Moderate,
    /// Usage below 15 percent.
    Light,
}

/// The work mode for a CPU load and the user's activity.
pub open spec fn work_mode_spec(cpu: CpuLoad, is_user_idle_10min: bool, is_fullscreen_media: bool) -> WorkMode {
    if cpu == CpuLoad::Heavy {
        WorkMode::ActiveStop
    } else if is_user_idle_10min {
        WorkMode::Inactive
    } else if is_fullscreen_media && cpu == CpuLoad::Light {
        WorkMode::PassiveStream
    } else {
        WorkMode::ActiveStop
    }
}

/// Decides the work mode: heavy CPU load stops sharing at once; otherwise
/// an idle user gives `Inactive`; full-screen media on a light CPU gives
/// `PassiveStream`; anything else is `ActiveStop`.
pub fn decide_work_mode(cpu: CpuLoad, is_user_idle_10min: bool, is_fullscreen_media: bool) -> (mode: WorkMode)
    ensures
        mode == work_mode_spec(cpu, is_user_idle_10min, is_fullscreen_media),
{
    if cpu == CpuLoad::Heavy {
        return WorkMode::ActiveStop;
    }
    if is_user_idle_10min {
        return WorkMode::Inactive;
    }
    if is_fullscreen_media && cpu == CpuLoad::Light {
        return WorkMode::PassiveStream;
    }
    WorkMode::ActiveStop
}

/// The share limit of a work mode, in percent: 50, 30 or 0.
pub open spec fn share_limit_spec(mode: WorkMode) -> u8 {
    match mode {
        WorkMode::Inactive => 50,
        WorkMode::PassiveStream => 30,
        WorkMode::ActiveStop => 0,
    }
}

/// The share limit of a work mode, in percent.
pub fn share_limit_pct(mode: WorkMode) -> (pct: u8)
    ensures
        pct == share_limit_spec(mode),
{
    match mode {
        WorkMode::Inactive => 50,
        WorkMode::PassiveStream => 30,
        WorkMode::ActiveStop => 0,
    }
}

/// The share limit for a CPU load and the user's activity.
pub fn current_limit(cpu: CpuLoad, is_user_idle_10min: bool, is_fullscreen_media: bool) -> (pct: u8)
    ensures
        pct == share_limit_spec(work_mode_spec(cpu, is_user_idle_10min, is_fullscreen_media)),
{
    share_limit_pct(decide_work_mode(cpu, is_user_idle_10min, is_fullscreen_media))
}

/// Under heavy CPU load nothing is shared, whatever the user does.
pub proof fn law_heavy_load_stops_sharing(is_user_idle_10min: bool, is_fullscreen_media: bool)
    ensures
        share_limit_spec(work_mode_spec(CpuLoad::Heavy, is_user_idle_10min, is_fullscreen_media))
            == 0,
{
}

/// The share limit never exceeds half of the capacity.
pub proof fn law_limit_at_most_half(cpu: CpuLoad, is_user_idle_10min: bool, is_fullscreen_media: bool)
    ensures
        share_limit_spec(work_mode_spec(cpu, is_user_idle_10min, is_fullscreen_media)) <= 50,
{
}

/// When the CPU load is not heavy, a user idle for 10 minutes gives the
/// `Inactive` mode and a share of half the capacity, whether or not
/// full-screen media is playing.
pub proof fn law_idle_user_shares_half(cpu: CpuLoad, is_fullscreen_media: bool)
    requires
        cpu != CpuLoad::Heavy,
    ensures
        work_mode_spec(cpu, true, is_fullscreen_media) == WorkMode::Inactive,
        share_limit_spec(work_mode_spec(cpu, true, is_fullscreen_media)) == 50,
{
}

/// A user who is active (not idle for 10 minutes) under a load that is
/// not heavy streams at 30 percent exactly when full-screen media is
/// playing on a light CPU; otherwise nothing is shared.
pub proof fn law_active_user_streams_only_on_light_media(cpu: CpuLoad, is_fullscreen_media: bool)
    requires
        cpu != CpuLoad::Heavy,
    ensures
        (work_mode_spec(cpu, false, is_fullscreen_media) == WorkMode::PassiveStream) <==> (
        is_fullscreen_media && cpu == CpuLoad::Light),
        !(is_fullscreen_media && cpu == CpuLoad::Light) ==> work_mode_spec(
            cpu,
            false,
            is_fullscreen_media,
        ) == WorkMode::ActiveStop,
        is_fullscreen_media && cpu == CpuLoad::Light ==> share_limit_spec(
            work_mode_spec(cpu, false, is_fullscreen_media),
        ) == 30,
{
}

/// The order of the load classes: light, then moderate, then heavy.
pub open spec fn load_rank(cpu: CpuLoad) -> nat {
    match cpu {
        CpuLoad::Light => 0,
        CpuLoad::Moderate => 1,
        CpuLoad::Heavy => 2,
    }
}

/// More CPU load never turns sharing on: with the user's activity fixed,
/// if a load stops sharing then every higher load does too, if a higher
/// load streams then so does the lower one, and the share limit never
/// grows with the load.
pub proof fn law_more_load_never_shares_more(
    lower: CpuLoad,
    higher: CpuLoad,
    is_user_idle_10min: bool,
    is_fullscreen_media: bool,
)
    requires
        load_rank(lower) <= load_rank(higher),
    ensures
        work_mode_spec(lower, is_user_idle_10min, is_fullscreen_media) == WorkMode::ActiveStop
            ==> work_mode_spec(higher, is_user_idle_10min, is_fullscreen_media)
            == WorkMode::ActiveStop,
        work_mode_spec(higher, is_user_idle_10min, is_fullscreen_media) == WorkMode::PassiveStream
            ==> work_mode_spec(lower, is_user_idle_10min, is_fullscreen_media)
            == WorkMode::PassiveStream,
        share_limit_spec(work_mode_spec(higher, is_user_idle_10min, is_fullscreen_media))
            <= share_limit_spec(work_mode_spec(lower, is_user_idle_10min, is_fullscreen_media)),
{
}

} // verus!
