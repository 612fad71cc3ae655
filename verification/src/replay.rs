//! The replay data the analyses consume: per-player streams of entity
//! lifecycle events, camera samples, periodic stats snapshots, upgrades,
//! inject commands and the capacity/birth series derived from them.
//! Every stream is ordered by `game_loop`, as the replay parser emits it.

use vstd::prelude::*;

verus! {

/// Coarse category of an entity.
#[derive(Clone, Copy, Debug, PartialEq, Eq, Structural)]
pub enum EntityCategory {
    Worker,
    Unit,
    Structure,
}

/// Lifecycle event kind of an entity.
#[derive(Clone, Copy, Debug, PartialEq, Eq, Structural)]
pub enum EntityEventKind {
    ProductionStarted,
    ProductionFinished,
    ProductionCancelled,
    Died,
}

/// One lifecycle event of an entity (unit, worker or structure).
#[derive(Debug)]
pub struct EntityEvent {
    pub game_loop: u32,
    pub kind: EntityEventKind,
    pub entity_type: String,
    pub category: EntityCategory,
    /// Unique tag of the entity inside the replay.
    pub tag: i64,
    /// Tile position at the event.
    pub pos_x: u8,
    pub pos_y: u8,
    /// Player that killed the entity (only for `Died`).
    pub killer_player_id: Option<u8>,
}

/// A sample of the player's camera centre, in tiles.
#[derive(Clone, Copy, Debug)]
pub struct CameraPosition {
    pub game_loop: u32,
    pub x: u8,
    pub y: u8,
}

/// Periodic player stats snapshot.
#[derive(Clone, Copy, Debug)]
pub struct StatsSnapshot {
    pub game_loop: u32,
    pub workers: i32,
    pub supply_used: i32,
}

/// A finished research/upgrade.
#[derive(Debug)]
pub struct UpgradeEntry {
    pub game_loop: u32,
    pub name: String,
}

/// A queen's inject-larva command.
#[derive(Clone, Copy, Debug)]
pub struct InjectCmd {
    pub game_loop: u32,
}

/// Everything the analyses read about one player.
#[derive(Debug)]
pub struct PlayerTimeline {
    pub name: String,
    pub race: String,
    pub player_id: u8,
    pub stats: Vec<StatsSnapshot>,
    pub upgrades: Vec<UpgradeEntry>,
    pub entity_events: Vec<EntityEvent>,
    pub inject_cmds: Vec<InjectCmd>,
    pub camera_positions: Vec<CameraPosition>,
    /// Cumulative count of living entities per type: `(type, [(loop, count)])`.
    pub alive_count: Vec<(String, Vec<(u32, i32)>)>,
    /// `(loop, +1/-1)` changes of worker production capacity.
    pub worker_capacity: Vec<(u32, i32)>,
    /// Loops at which workers were born.
    pub worker_births: Vec<u32>,
    /// `(loop, +1/-1)` changes of army production capacity.
    pub army_capacity: Vec<(u32, i32)>,
}

/// A whole replay, as far as the analyses read it.
#[derive(Debug)]
pub struct ReplayTimeline {
    pub game_loops: u32,
    pub base_build: u32,
    pub max_time_seconds: u32,
    pub players: Vec<PlayerTimeline>,
}

/// Army value of one player at one stats tick.
#[derive(Clone, Copy, Debug)]
pub struct ArmySnapshot {
    pub game_loop: u32,
    pub army_total: i32,
}

/// The slice is ordered by non-decreasing loop.
pub open spec fn cameras_sorted(cams: Seq<CameraPosition>) -> bool {
    forall|i: int, j: int| 0 <= i <= j < cams.len() ==> cams[i].game_loop <= cams[j].game_loop
}

impl PlayerTimeline {
    /// An empty player with the given id: no events, no samples.
    pub fn empty(player_id: u8) -> (p: PlayerTimeline)
        ensures
            p.player_id == player_id,
            p.name@.len() == 0,
            p.race@.len() == 0,
            p.stats@.len() == 0,
            p.upgrades@.len() == 0,
            p.entity_events@.len() == 0,
            p.inject_cmds@.len() == 0,
            p.camera_positions@.len() == 0,
            p.alive_count@.len() == 0,
            p.worker_capacity@.len() == 0,
            p.worker_births@.len() == 0,
            p.army_capacity@.len() == 0,
    {
        PlayerTimeline {
            name: String::new(),
            race: String::new(),
            player_id,
            stats: Vec::new(),
            upgrades: Vec::new(),
            entity_events: Vec::new(),
            inject_cmds: Vec::new(),
            camera_positions: Vec::new(),
            alive_count: Vec::new(),
            worker_capacity: Vec::new(),
            worker_births: Vec::new(),
            army_capacity: Vec::new(),
        }
    }
}

} // verus!
