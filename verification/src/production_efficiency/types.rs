//! Constants, public types, name classifiers and the event kinds of the
//! production-efficiency sweep.

use vstd::prelude::*;

use vstd::string::*;

use crate::text::str_eq;

verus! {

/// Production time of a worker, in game loops (~12 s on Faster).
pub const WORKER_BUILD_TIME: u32 = 272;

/// Above this `supply_used`, army production efficiency is forced to 100%:
/// near the supply cap idle production is expected.
pub const ARMY_SUPPLY_MAXED_THRESHOLD: i32 = 185;

/// Warp-in plus cooldown of a WarpGate, in game loops (~25 s on Faster).
pub const WARP_GATE_CYCLE_LOOPS: u32 = 560;

/// How long an inject adds larva capacity, in game loops (~29 s).
pub const INJECT_WINDOW_LOOPS: u32 = 650;

/// Extra production slots while an inject is active.
pub const INJECT_EXTRA_SLOTS: i32 = 4;

/// Drone morph time, in game loops.
pub const DRONE_BUILD_LOOPS: u32 = 272;

/// Which production the series measures.
#[derive(Clone, Copy, Debug, PartialEq, Eq, Structural)]
pub enum EfficiencyTarget {
    Workers,
    Army,
}

/// One bucket of the series. `game_loop` is the bucket's end; `capacity`
/// and `active` are the state at that end, `active` clamped to
/// `[0, capacity]` whatever the supply; the integrals are the sums of
/// capacity and of busy capacity over the bucket's loops. The efficiency
/// percentage is `100 * active_integral / capacity_integral` (100 when the
/// capacity integral is 0).
#[derive(Clone, Copy, Debug, PartialEq, Eq, Structural)]
pub struct EfficiencySample {
    pub game_loop: u32,
    pub capacity: u32,
    pub active: u32,
    pub capacity_integral: u64,
    pub active_integral: u64,
}

/// Kinds of events merged by the sweep.
#[derive(Clone, Copy, Debug, PartialEq, Eq, Structural)]
pub enum EvKind {
    CapacityUp,
    /// Inject active: capacity +4 (Zerg only).
    InjectOn,
    ProdStart,
    ProdEnd,
    CapacityDown,
    /// Inject window over: capacity -4 (Zerg only).
    InjectOff,
    /// `supply_used` rose above the supply-maxed threshold.
    SupplyMaxedOn,
    /// `supply_used` fell back to the threshold or below.
    SupplyMaxedOff,
}

/// Tie-break order of events at the same loop: capacity rises before
/// production, capacity falls after it.
pub open spec fn order_spec(k: EvKind) -> nat {
    match k {
        EvKind::CapacityUp => 0,
        EvKind::InjectOn => 1,
        EvKind::ProdStart => 2,
        EvKind::ProdEnd => 3,
        EvKind::CapacityDown => 4,
        EvKind::InjectOff => 5,
        EvKind::SupplyMaxedOff => 6,
        EvKind::SupplyMaxedOn => 7,
    }
}

impl EvKind {
    /// Tie-break order of events at the same loop.
    pub fn order(self) -> (r: u8)
        ensures
            r == order_spec(self),
    {
        match self {
            EvKind::CapacityUp => 0,
            EvKind::InjectOn => 1,
            EvKind::ProdStart => 2,
            EvKind::ProdEnd => 3,
            EvKind::CapacityDown => 4,
            EvKind::InjectOff => 5,
            EvKind::SupplyMaxedOff => 6,
            EvKind::SupplyMaxedOn => 7,
        }
    }
}

/// The race string names Zerg (starts with `Z` or `z`).
pub open spec fn is_zerg_race_spec(race: Seq<char>) -> bool {
    race.len() > 0 && (race[0] == 'Z' || race[0] == 'z')
}

/// The race string names Zerg (starts with `Z` or `z`).
pub fn is_zerg_race(race: &str) -> (r: bool)
    ensures
        r == is_zerg_race_spec(race@),
{
    if race.unicode_len() == 0 {
        return false;
    }
    let c = race.get_char(0);
    c == 'Z' || c == 'z'
}

/// Units a WarpGate can warp in.
pub open spec fn is_warp_gate_unit_spec(name: Seq<char>) -> bool {
    name == "Zealot"@ || name == "Stalker"@ || name == "Sentry"@ || name == "Adept"@ || name
        == "HighTemplar"@ || name == "DarkTemplar"@
}

/// Units a WarpGate can warp in.
pub fn is_warp_gate_unit(name: &str) -> (r: bool)
    ensures
        r == is_warp_gate_unit_spec(name@),
{
    str_eq(name, "Zealot") || str_eq(name, "Stalker") || str_eq(name, "Sentry") || str_eq(
        name,
        "Adept",
    ) || str_eq(name, "HighTemplar") || str_eq(name, "DarkTemplar")
}

/// The only larva-born worker: the Drone.
pub fn is_drone(name: &str) -> (r: bool)
    ensures
        r == (name@ == "Drone"@),
{
    str_eq(name, "Drone")
}

} // verus!
