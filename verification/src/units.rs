//! Names of unit and structure types: canonical forms (state variants
//! folded into the base type), three-letter abbreviations, the sprite
//! file of each type, and small name classifiers.

use vstd::prelude::*;

use crate::text::{has_suffix, str_ends_with, str_eq, str_eq_ignore_ascii_case, eq_ignore_ascii_case_spec};

verus! {

/// Canonical name of a unit type: state variants (sieged, burrowed,
/// cocoon, phased, transport...) fold into the unit; unknown types map
/// to the empty name.
pub open spec fn unit_canonical_spec(name: Seq<char>) -> Seq<char> {
    if name == "SCV"@ {
        "SCV"@
    } else if name == "MULE"@ {
        "MULE"@
    } else if name == "Marine"@ {
        "Marine"@
    } else if name == "Marauder"@ {
        "Marauder"@
    } else if name == "Reaper"@ {
        "Reaper"@
    } else if (name == "Ghost"@ || name == "GhostAlternate"@) {
        "Ghost"@
    } else if name == "Hellion"@ {
        "Hellion"@
    } else if name == "HellionTank"@ {
        "HellionTank"@
    } else if (name == "SiegeTank"@ || name == "SiegeTankSieged"@) {
        "SiegeTank"@
    } else if name == "Cyclone"@ {
        "Cyclone"@
    } else if (name == "WidowMine"@ || name == "WidowMineBurrowed"@) {
        "WidowMine"@
    } else if (name == "Thor"@ || name == "ThorAP"@) {
        "Thor"@
    } else if (name == "VikingFighter"@ || name == "VikingAssault"@) {
        "VikingFighter"@
    } else if name == "Medivac"@ {
        "Medivac"@
    } else if (name == "Liberator"@ || name == "LiberatorAG"@) {
        "Liberator"@
    } else if name == "Raven"@ {
        "Raven"@
    } else if name == "Banshee"@ {
        "Banshee"@
    } else if name == "Battlecruiser"@ {
        "Battlecruiser"@
    } else if name == "Probe"@ {
        "Probe"@
    } else if name == "Zealot"@ {
        "Zealot"@
    } else if name == "Stalker"@ {
        "Stalker"@
    } else if name == "Sentry"@ {
        "Sentry"@
    } else if (name == "Adept"@ || name == "AdeptPhaseShift"@) {
        "Adept"@
    } else if name == "HighTemplar"@ {
        "HighTemplar"@
    } else if name == "DarkTemplar"@ {
        "DarkTemplar"@
    } else if name == "Archon"@ {
        "Archon"@
    } else if name == "Immortal"@ {
        "Immortal"@
    } else if name == "Colossus"@ {
        "Colossus"@
    } else if (name == "Disruptor"@ || name == "DisruptorPhased"@) {
        "Disruptor"@
    } else if (name == "Observer"@ || name == "ObserverSiegeMode"@) {
        "Observer"@
    } else if (name == "WarpPrism"@ || name == "WarpPrismPhasing"@) {
        "WarpPrism"@
    } else if name == "Phoenix"@ {
        "Phoenix"@
    } else if name == "VoidRay"@ {
        "VoidRay"@
    } else if name == "Oracle"@ {
        "Oracle"@
    } else if name == "Tempest"@ {
        "Tempest"@
    } else if name == "Carrier"@ {
        "Carrier"@
    } else if name == "Mothership"@ {
        "Mothership"@
    } else if name == "Drone"@ {
        "Drone"@
    } else if name == "Queen"@ {
        "Queen"@
    } else if name == "Zergling"@ {
        "Zergling"@
    } else if (name == "Baneling"@ || name == "BanelingCocoon"@) {
        "Baneling"@
    } else if (name == "Roach"@ || name == "RoachBurrowed"@) {
        "Roach"@
    } else if (name == "Ravager"@ || name == "RavagerCocoon"@) {
        "Ravager"@
    } else if (name == "Hydralisk"@ || name == "HydraliskBurrowed"@) {
        "Hydralisk"@
    } else if (name == "LurkerMP"@ || name == "LurkerMPBurrowed"@ || name == "LurkerMPEgg"@) {
        "LurkerMP"@
    } else if name == "Mutalisk"@ {
        "Mutalisk"@
    } else if name == "Corruptor"@ {
        "Corruptor"@
    } else if (name == "BroodLord"@ || name == "BroodLordCocoon"@) {
        "BroodLord"@
    } else if (name == "Infestor"@ || name == "InfestorBurrowed"@) {
        "Infestor"@
    } else if (name == "SwarmHostMP"@ || name == "SwarmHostBurrowedMP"@) {
        "SwarmHostMP"@
    } else if name == "Viper"@ {
        "Viper"@
    } else if (name == "Ultralisk"@ || name == "UltraliskBurrowed"@) {
        "Ultralisk"@
    } else if (name == "Overlord"@ || name == "OverlordTransport"@) {
        "Overlord"@
    } else if (name == "Overseer"@ || name == "OverseerSiegeMode"@) {
        "Overseer"@
    } else if name == "Larva"@ {
        "Larva"@
    } else if name == "Interceptor"@ {
        "Interceptor"@
    } else if name == "AutoTurret"@ {
        "AutoTurret"@
    } else if (name == "Locust"@ || name == "LocustMP"@ || name == "LocustMPFlying"@) {
        "LocustMP"@
    } else if name == "Broodling"@ {
        "Broodling"@
    } else if (name == "Changeling"@ || name == "ChangelingMarine"@ || name == "ChangelingMarineShield"@ || name == "ChangelingZealot"@ || name == "ChangelingZergling"@ || name == "ChangelingZerglingWings"@) {
        "Changeling"@
    } else {
        ""@
    }
}

/// Canonical name of a unit type, empty for unknown types (the caller
/// keeps the raw name then).
pub fn unit_canonical(name: &str) -> (r: &'static str)
    ensures
        r@ == unit_canonical_spec(name@),
{
    if str_eq(name, "SCV") {
        "SCV"
    } else if str_eq(name, "MULE") {
        "MULE"
    } else if str_eq(name, "Marine") {
        "Marine"
    } else if str_eq(name, "Marauder") {
        "Marauder"
    } else if str_eq(name, "Reaper") {
        "Reaper"
    } else if str_eq(name, "Ghost") || str_eq(name, "GhostAlternate") {
        "Ghost"
    } else if str_eq(name, "Hellion") {
        "Hellion"
    } else if str_eq(name, "HellionTank") {
        "HellionTank"
    } else if str_eq(name, "SiegeTank") || str_eq(name, "SiegeTankSieged") {
        "SiegeTank"
    } else if str_eq(name, "Cyclone") {
        "Cyclone"
    } else if str_eq(name, "WidowMine") || str_eq(name, "WidowMineBurrowed") {
        "WidowMine"
    } else if str_eq(name, "Thor") || str_eq(name, "ThorAP") {
        "Thor"
    } else if str_eq(name, "VikingFighter") || str_eq(name, "VikingAssault") {
        "VikingFighter"
    } else if str_eq(name, "Medivac") {
        "Medivac"
    } else if str_eq(name, "Liberator") || str_eq(name, "LiberatorAG") {
        "Liberator"
    } else if str_eq(name, "Raven") {
        "Raven"
    } else if str_eq(name, "Banshee") {
        "Banshee"
    } else if str_eq(name, "Battlecruiser") {
        "Battlecruiser"
    } else if str_eq(name, "Probe") {
        "Probe"
    } else if str_eq(name, "Zealot") {
        "Zealot"
    } else if str_eq(name, "Stalker") {
        "Stalker"
    } else if str_eq(name, "Sentry") {
        "Sentry"
    } else if str_eq(name, "Adept") || str_eq(name, "AdeptPhaseShift") {
        "Adept"
    } else if str_eq(name, "HighTemplar") {
        "HighTemplar"
    } else if str_eq(name, "DarkTemplar") {
        "DarkTemplar"
    } else if str_eq(name, "Archon") {
        "Archon"
    } else if str_eq(name, "Immortal") {
        "Immortal"
    } else if str_eq(name, "Colossus") {
        "Colossus"
    } else if str_eq(name, "Disruptor") || str_eq(name, "DisruptorPhased") {
        "Disruptor"
    } else if str_eq(name, "Observer") || str_eq(name, "ObserverSiegeMode") {
        "Observer"
    } else if str_eq(name, "WarpPrism") || str_eq(name, "WarpPrismPhasing") {
        "WarpPrism"
    } else if str_eq(name, "Phoenix") {
        "Phoenix"
    } else if str_eq(name, "VoidRay") {
        "VoidRay"
    } else if str_eq(name, "Oracle") {
        "Oracle"
    } else if str_eq(name, "Tempest") {
        "Tempest"
    } else if str_eq(name, "Carrier") {
        "Carrier"
    } else if str_eq(name, "Mothership") {
        "Mothership"
    } else if str_eq(name, "Drone") {
        "Drone"
    } else if str_eq(name, "Queen") {
        "Queen"
    } else if str_eq(name, "Zergling") {
        "Zergling"
    } else if str_eq(name, "Baneling") || str_eq(name, "BanelingCocoon") {
        "Baneling"
    } else if str_eq(name, "Roach") || str_eq(name, "RoachBurrowed") {
        "Roach"
    } else if str_eq(name, "Ravager") || str_eq(name, "RavagerCocoon") {
        "Ravager"
    } else if str_eq(name, "Hydralisk") || str_eq(name, "HydraliskBurrowed") {
        "Hydralisk"
    } else if str_eq(name, "LurkerMP") || str_eq(name, "LurkerMPBurrowed") || str_eq(name, "LurkerMPEgg") {
        "LurkerMP"
    } else if str_eq(name, "Mutalisk") {
        "Mutalisk"
    } else if str_eq(name, "Corruptor") {
        "Corruptor"
    } else if str_eq(name, "BroodLord") || str_eq(name, "BroodLordCocoon") {
        "BroodLord"
    } else if str_eq(name, "Infestor") || str_eq(name, "InfestorBurrowed") {
        "Infestor"
    } else if str_eq(name, "SwarmHostMP") || str_eq(name, "SwarmHostBurrowedMP") {
        "SwarmHostMP"
    } else if str_eq(name, "Viper") {
        "Viper"
    } else if str_eq(name, "Ultralisk") || str_eq(name, "UltraliskBurrowed") {
        "Ultralisk"
    } else if str_eq(name, "Overlord") || str_eq(name, "OverlordTransport") {
        "Overlord"
    } else if str_eq(name, "Overseer") || str_eq(name, "OverseerSiegeMode") {
        "Overseer"
    } else if str_eq(name, "Larva") {
        "Larva"
    } else if str_eq(name, "Interceptor") {
        "Interceptor"
    } else if str_eq(name, "AutoTurret") {
        "AutoTurret"
    } else if str_eq(name, "Locust") || str_eq(name, "LocustMP") || str_eq(name, "LocustMPFlying") {
        "LocustMP"
    } else if str_eq(name, "Broodling") {
        "Broodling"
    } else if str_eq(name, "Changeling") || str_eq(name, "ChangelingMarine") || str_eq(name, "ChangelingMarineShield") || str_eq(name, "ChangelingZealot") || str_eq(name, "ChangelingZergling") || str_eq(name, "ChangelingZerglingWings") {
        "Changeling"
    } else {
        ""
    }
}

/// Fixed abbreviation of a known unit type.
pub open spec fn known_unit_abbrev_spec(name: Seq<char>) -> Option<Seq<char>> {
    if name == "SCV"@ {
        Some("SCV"@)
    } else if name == "MULE"@ {
        Some("MUL"@)
    } else if name == "Marine"@ {
        Some("MAR"@)
    } else if name == "Marauder"@ {
        Some("MAU"@)
    } else if name == "Reaper"@ {
        Some("REA"@)
    } else if (name == "Ghost"@ || name == "GhostAlternate"@) {
        Some("GHO"@)
    } else if name == "Hellion"@ {
        Some("HEL"@)
    } else if name == "HellionTank"@ {
        Some("HBT"@)
    } else if (name == "SiegeTank"@ || name == "SiegeTankSieged"@) {
        Some("TNK"@)
    } else if name == "Cyclone"@ {
        Some("CYC"@)
    } else if (name == "WidowMine"@ || name == "WidowMineBurrowed"@) {
        Some("WMN"@)
    } else if (name == "Thor"@ || name == "ThorAP"@) {
        Some("THR"@)
    } else if (name == "VikingFighter"@ || name == "VikingAssault"@) {
        Some("VIK"@)
    } else if name == "Medivac"@ {
        Some("MDV"@)
    } else if (name == "Liberator"@ || name == "LiberatorAG"@) {
        Some("LIB"@)
    } else if name == "Raven"@ {
        Some("RVN"@)
    } else if name == "Banshee"@ {
        Some("BSH"@)
    } else if name == "Battlecruiser"@ {
        Some("BCR"@)
    } else if name == "Probe"@ {
        Some("PRB"@)
    } else if name == "Zealot"@ {
        Some("ZEA"@)
    } else if name == "Stalker"@ {
        Some("STK"@)
    } else if name == "Sentry"@ {
        Some("SEN"@)
    } else if (name == "Adept"@ || name == "AdeptPhaseShift"@) {
        Some("ADP"@)
    } else if name == "HighTemplar"@ {
        Some("HTP"@)
    } else if name == "DarkTemplar"@ {
        Some("DTP"@)
    } else if name == "Immortal"@ {
        Some("IMM"@)
    } else if name == "Colossus"@ {
        Some("COL"@)
    } else if (name == "Disruptor"@ || name == "DisruptorPhased"@) {
        Some("DIS"@)
    } else if name == "Archon"@ {
        Some("ARC"@)
    } else if (name == "Observer"@ || name == "ObserverSiegeMode"@) {
        Some("OBS"@)
    } else if (name == "WarpPrism"@ || name == "WarpPrismPhasing"@) {
        Some("PRI"@)
    } else if name == "Phoenix"@ {
        Some("PHX"@)
    } else if name == "VoidRay"@ {
        Some("VRY"@)
    } else if name == "Oracle"@ {
        Some("ORA"@)
    } else if name == "Tempest"@ {
        Some("TMP"@)
    } else if name == "Carrier"@ {
        Some("CAR"@)
    } else if name == "Mothership"@ {
        Some("MSH"@)
    } else if name == "Drone"@ {
        Some("DRO"@)
    } else if name == "Queen"@ {
        Some("QUE"@)
    } else if name == "Zergling"@ {
        Some("ZGL"@)
    } else if (name == "Baneling"@ || name == "BanelingCocoon"@) {
        Some("BLN"@)
    } else if (name == "Roach"@ || name == "RoachBurrowed"@) {
        Some("ROA"@)
    } else if (name == "Ravager"@ || name == "RavagerCocoon"@) {
        Some("RAV"@)
    } else if (name == "Hydralisk"@ || name == "HydraliskBurrowed"@) {
        Some("HYD"@)
    } else if (name == "LurkerMP"@ || name == "LurkerMPBurrowed"@ || name == "LurkerMPEgg"@) {
        Some("LUR"@)
    } else if name == "Mutalisk"@ {
        Some("MUT"@)
    } else if name == "Corruptor"@ {
        Some("COR"@)
    } else if (name == "BroodLord"@ || name == "BroodLordCocoon"@) {
        Some("BLD"@)
    } else if (name == "Infestor"@ || name == "InfestorBurrowed"@) {
        Some("INF"@)
    } else if (name == "SwarmHostMP"@ || name == "SwarmHostBurrowedMP"@) {
        Some("SWH"@)
    } else if name == "Viper"@ {
        Some("VIP"@)
    } else if (name == "Ultralisk"@ || name == "UltraliskBurrowed"@) {
        Some("ULT"@)
    } else if (name == "Overlord"@ || name == "OverlordTransport"@) {
        Some("OVL"@)
    } else if (name == "Overseer"@ || name == "OverseerSiegeMode"@) {
        Some("OVS"@)
    } else if name == "Larva"@ {
        Some("LAR"@)
    } else if name == "Interceptor"@ {
        Some("INT"@)
    } else if name == "AutoTurret"@ {
        Some("TUR"@)
    } else if (name == "Locust"@ || name == "LocustMP"@ || name == "LocustMPFlying"@) {
        Some("LOC"@)
    } else if name == "Broodling"@ {
        Some("BRO"@)
    } else if (name == "Changeling"@ || name == "ChangelingMarine"@ || name == "ChangelingMarineShield"@ || name == "ChangelingZealot"@ || name == "ChangelingZergling"@ || name == "ChangelingZerglingWings"@) {
        Some("CHG"@)
    } else {
        None
    }
}

/// Every fixed unit abbreviation has three characters.
proof fn lemma_known_abbrev_len(name: Seq<char>)
    ensures
        known_unit_abbrev_spec(name) matches Some(a) ==> a.len() == 3,
{
    reveal_strlit("ADP");
    reveal_strlit("ARC");
    reveal_strlit("BCR");
    reveal_strlit("BLD");
    reveal_strlit("BLN");
    reveal_strlit("BRO");
    reveal_strlit("BSH");
    reveal_strlit("CAR");
    reveal_strlit("CHG");
    reveal_strlit("COL");
    reveal_strlit("COR");
    reveal_strlit("CYC");
    reveal_strlit("DIS");
    reveal_strlit("DRO");
    reveal_strlit("DTP");
    reveal_strlit("GHO");
    reveal_strlit("HBT");
    reveal_strlit("HEL");
    reveal_strlit("HTP");
    reveal_strlit("HYD");
    reveal_strlit("IMM");
    reveal_strlit("INF");
    reveal_strlit("INT");
    reveal_strlit("LAR");
    reveal_strlit("LIB");
    reveal_strlit("LOC");
    reveal_strlit("LUR");
    reveal_strlit("MAR");
    reveal_strlit("MAU");
    reveal_strlit("MDV");
    reveal_strlit("MSH");
    reveal_strlit("MUL");
    reveal_strlit("MUT");
    reveal_strlit("OBS");
    reveal_strlit("ORA");
    reveal_strlit("OVL");
    reveal_strlit("OVS");
    reveal_strlit("PHX");
    reveal_strlit("PRB");
    reveal_strlit("PRI");
    reveal_strlit("QUE");
    reveal_strlit("RAV");
    reveal_strlit("REA");
    reveal_strlit("ROA");
    reveal_strlit("RVN");
    reveal_strlit("SCV");
    reveal_strlit("SEN");
    reveal_strlit("STK");
    reveal_strlit("SWH");
    reveal_strlit("THR");
    reveal_strlit("TMP");
    reveal_strlit("TNK");
    reveal_strlit("TUR");
    reveal_strlit("ULT");
    reveal_strlit("VIK");
    reveal_strlit("VIP");
    reveal_strlit("VRY");
    reveal_strlit("WMN");
    reveal_strlit("ZEA");
    reveal_strlit("ZGL");
}

/// A unit's abbreviation does not change when its name is made canonical
/// first: for every type with a canonical form, the form has the same
/// (fixed) abbreviation; a type without one has no fixed abbreviation and
/// is abbreviated by its first three ASCII letters, upper-cased.
pub proof fn lemma_abbrev_canonical(name: Seq<char>)
    ensures
        unit_canonical_spec(name).len() > 0 ==> known_unit_abbrev_spec(name) is Some,
        unit_canonical_spec(name).len() > 0 ==> unit_abbrev_spec(unit_canonical_spec(name))
            == unit_abbrev_spec(name),
        unit_canonical_spec(name).len() == 0 ==> known_unit_abbrev_spec(name) is None
            && unit_abbrev_spec(name) == first_three(alpha_upper(name)),
{
    reveal_strlit("");
    reveal_strlit("Adept");
    reveal_strlit("AdeptPhaseShift");
    reveal_strlit("Archon");
    reveal_strlit("AutoTurret");
    reveal_strlit("Baneling");
    reveal_strlit("BanelingCocoon");
    reveal_strlit("Banshee");
    reveal_strlit("Battlecruiser");
    reveal_strlit("BroodLord");
    reveal_strlit("BroodLordCocoon");
    reveal_strlit("Broodling");
    reveal_strlit("Carrier");
    reveal_strlit("Changeling");
    reveal_strlit("ChangelingMarine");
    reveal_strlit("ChangelingMarineShield");
    reveal_strlit("ChangelingZealot");
    reveal_strlit("ChangelingZergling");
    reveal_strlit("ChangelingZerglingWings");
    reveal_strlit("Colossus");
    reveal_strlit("Corruptor");
    reveal_strlit("Cyclone");
    reveal_strlit("DarkTemplar");
    reveal_strlit("Disruptor");
    reveal_strlit("DisruptorPhased");
    reveal_strlit("Drone");
    reveal_strlit("Ghost");
    reveal_strlit("GhostAlternate");
    reveal_strlit("Hellion");
    reveal_strlit("HellionTank");
    reveal_strlit("HighTemplar");
    reveal_strlit("Hydralisk");
    reveal_strlit("HydraliskBurrowed");
    reveal_strlit("Immortal");
    reveal_strlit("Infestor");
    reveal_strlit("InfestorBurrowed");
    reveal_strlit("Interceptor");
    reveal_strlit("Larva");
    reveal_strlit("Liberator");
    reveal_strlit("LiberatorAG");
    reveal_strlit("Locust");
    reveal_strlit("LocustMP");
    reveal_strlit("LocustMPFlying");
    reveal_strlit("LurkerMP");
    reveal_strlit("LurkerMPBurrowed");
    reveal_strlit("LurkerMPEgg");
    reveal_strlit("MULE");
    reveal_strlit("Marauder");
    reveal_strlit("Marine");
    reveal_strlit("Medivac");
    reveal_strlit("Mothership");
    reveal_strlit("Mutalisk");
    reveal_strlit("Observer");
    reveal_strlit("ObserverSiegeMode");
    reveal_strlit("Oracle");
    reveal_strlit("Overlord");
    reveal_strlit("OverlordTransport");
    reveal_strlit("Overseer");
    reveal_strlit("OverseerSiegeMode");
    reveal_strlit("Phoenix");
    reveal_strlit("Probe");
    reveal_strlit("Queen");
    reveal_strlit("Ravager");
    reveal_strlit("RavagerCocoon");
    reveal_strlit("Raven");
    reveal_strlit("Reaper");
    reveal_strlit("Roach");
    reveal_strlit("RoachBurrowed");
    reveal_strlit("SCV");
    reveal_strlit("Sentry");
    reveal_strlit("SiegeTank");
    reveal_strlit("SiegeTankSieged");
    reveal_strlit("Stalker");
    reveal_strlit("SwarmHostBurrowedMP");
    reveal_strlit("SwarmHostMP");
    reveal_strlit("Tempest");
    reveal_strlit("Thor");
    reveal_strlit("ThorAP");
    reveal_strlit("Ultralisk");
    reveal_strlit("UltraliskBurrowed");
    reveal_strlit("VikingAssault");
    reveal_strlit("VikingFighter");
    reveal_strlit("Viper");
    reveal_strlit("VoidRay");
    reveal_strlit("WarpPrism");
    reveal_strlit("WarpPrismPhasing");
    reveal_strlit("WidowMine");
    reveal_strlit("WidowMineBurrowed");
    reveal_strlit("Zealot");
    reveal_strlit("Zergling");
    // Same-length names differ at some character: the solver needs that
    // character to tell the names apart.
    {
        assert("Reaper"@[0] != "Marine"@[0]);
        assert("Cyclone"@[0] != "Hellion"@[0]);
        assert("WidowMine"@[0] != "SiegeTank"@[0]);
        assert("Thor"@[0] != "MULE"@[0]);
        assert("ThorAP"@[0] != "Marine"@[0]);
        assert("ThorAP"@[0] != "Reaper"@[0]);
        assert("VikingAssault"@[6] != "VikingFighter"@[6]);
        assert("Medivac"@[0] != "Hellion"@[0]);
        assert("Medivac"@[0] != "Cyclone"@[0]);
        assert("Liberator"@[0] != "SiegeTank"@[0]);
        assert("Liberator"@[0] != "WidowMine"@[0]);
        assert("LiberatorAG"@[0] != "HellionTank"@[0]);
        assert("Raven"@[0] != "Ghost"@[0]);
        assert("Banshee"@[0] != "Hellion"@[0]);
        assert("Banshee"@[0] != "Cyclone"@[0]);
        assert("Banshee"@[0] != "Medivac"@[0]);
        assert("Battlecruiser"@[0] != "VikingFighter"@[0]);
        assert("Battlecruiser"@[0] != "VikingAssault"@[0]);
        assert("Probe"@[0] != "Ghost"@[0]);
        assert("Probe"@[0] != "Raven"@[0]);
        assert("Zealot"@[0] != "Marine"@[0]);
        assert("Zealot"@[0] != "Reaper"@[0]);
        assert("Zealot"@[0] != "ThorAP"@[0]);
        assert("Stalker"@[0] != "Hellion"@[0]);
        assert("Stalker"@[0] != "Cyclone"@[0]);
        assert("Stalker"@[0] != "Medivac"@[0]);
        assert("Stalker"@[0] != "Banshee"@[0]);
        assert("Sentry"@[0] != "Marine"@[0]);
        assert("Sentry"@[0] != "Reaper"@[0]);
        assert("Sentry"@[0] != "ThorAP"@[0]);
        assert("Sentry"@[0] != "Zealot"@[0]);
        assert("Adept"@[0] != "Ghost"@[0]);
        assert("Adept"@[0] != "Raven"@[0]);
        assert("Adept"@[0] != "Probe"@[0]);
        assert("AdeptPhaseShift"@[0] != "SiegeTankSieged"@[0]);
        assert("HighTemplar"@[1] != "HellionTank"@[1]);
        assert("HighTemplar"@[0] != "LiberatorAG"@[0]);
        assert("DarkTemplar"@[0] != "HellionTank"@[0]);
        assert("DarkTemplar"@[0] != "LiberatorAG"@[0]);
        assert("DarkTemplar"@[0] != "HighTemplar"@[0]);
        assert("Archon"@[0] != "Marine"@[0]);
        assert("Archon"@[0] != "Reaper"@[0]);
        assert("Archon"@[0] != "ThorAP"@[0]);
        assert("Archon"@[0] != "Zealot"@[0]);
        assert("Archon"@[0] != "Sentry"@[0]);
        assert("Immortal"@[0] != "Marauder"@[0]);
        assert("Colossus"@[0] != "Marauder"@[0]);
        assert("Colossus"@[0] != "Immortal"@[0]);
        assert("Disruptor"@[0] != "SiegeTank"@[0]);
        assert("Disruptor"@[0] != "WidowMine"@[0]);
        assert("Disruptor"@[0] != "Liberator"@[0]);
        assert("DisruptorPhased"@[0] != "SiegeTankSieged"@[0]);
        assert("DisruptorPhased"@[0] != "AdeptPhaseShift"@[0]);
        assert("Observer"@[0] != "Marauder"@[0]);
        assert("Observer"@[0] != "Immortal"@[0]);
        assert("Observer"@[0] != "Colossus"@[0]);
        assert("ObserverSiegeMode"@[0] != "WidowMineBurrowed"@[0]);
        assert("WarpPrism"@[0] != "SiegeTank"@[0]);
        assert("WarpPrism"@[1] != "WidowMine"@[1]);
        assert("WarpPrism"@[0] != "Liberator"@[0]);
        assert("WarpPrism"@[0] != "Disruptor"@[0]);
        assert("Phoenix"@[0] != "Hellion"@[0]);
        assert("Phoenix"@[0] != "Cyclone"@[0]);
        assert("Phoenix"@[0] != "Medivac"@[0]);
        assert("Phoenix"@[0] != "Banshee"@[0]);
        assert("Phoenix"@[0] != "Stalker"@[0]);
        assert("VoidRay"@[0] != "Hellion"@[0]);
        assert("VoidRay"@[0] != "Cyclone"@[0]);
        assert("VoidRay"@[0] != "Medivac"@[0]);
        assert("VoidRay"@[0] != "Banshee"@[0]);
        assert("VoidRay"@[0] != "Stalker"@[0]);
        assert("VoidRay"@[0] != "Phoenix"@[0]);
        assert("Oracle"@[0] != "Marine"@[0]);
        assert("Oracle"@[0] != "Reaper"@[0]);
        assert("Oracle"@[0] != "ThorAP"@[0]);
        assert("Oracle"@[0] != "Zealot"@[0]);
        assert("Oracle"@[0] != "Sentry"@[0]);
        assert("Oracle"@[0] != "Archon"@[0]);
        assert("Tempest"@[0] != "Hellion"@[0]);
        assert("Tempest"@[0] != "Cyclone"@[0]);
        assert("Tempest"@[0] != "Medivac"@[0]);
        assert("Tempest"@[0] != "Banshee"@[0]);
        assert("Tempest"@[0] != "Stalker"@[0]);
        assert("Tempest"@[0] != "Phoenix"@[0]);
        assert("Tempest"@[0] != "VoidRay"@[0]);
        assert("Carrier"@[0] != "Hellion"@[0]);
        assert("Carrier"@[1] != "Cyclone"@[1]);
        assert("Carrier"@[0] != "Medivac"@[0]);
        assert("Carrier"@[0] != "Banshee"@[0]);
        assert("Carrier"@[0] != "Stalker"@[0]);
        assert("Carrier"@[0] != "Phoenix"@[0]);
        assert("Carrier"@[0] != "VoidRay"@[0]);
        assert("Carrier"@[0] != "Tempest"@[0]);
        assert("Drone"@[0] != "Ghost"@[0]);
        assert("Drone"@[0] != "Raven"@[0]);
        assert("Drone"@[0] != "Probe"@[0]);
        assert("Drone"@[0] != "Adept"@[0]);
        assert("Queen"@[0] != "Ghost"@[0]);
        assert("Queen"@[0] != "Raven"@[0]);
        assert("Queen"@[0] != "Probe"@[0]);
        assert("Queen"@[0] != "Adept"@[0]);
        assert("Queen"@[0] != "Drone"@[0]);
        assert("Zergling"@[0] != "Marauder"@[0]);
        assert("Zergling"@[0] != "Immortal"@[0]);
        assert("Zergling"@[0] != "Colossus"@[0]);
        assert("Zergling"@[0] != "Observer"@[0]);
        assert("Baneling"@[0] != "Marauder"@[0]);
        assert("Baneling"@[0] != "Immortal"@[0]);
        assert("Baneling"@[0] != "Colossus"@[0]);
        assert("Baneling"@[0] != "Observer"@[0]);
        assert("Baneling"@[0] != "Zergling"@[0]);
        assert("BanelingCocoon"@[0] != "GhostAlternate"@[0]);
        assert("Roach"@[0] != "Ghost"@[0]);
        assert("Roach"@[1] != "Raven"@[1]);
        assert("Roach"@[0] != "Probe"@[0]);
        assert("Roach"@[0] != "Adept"@[0]);
        assert("Roach"@[0] != "Drone"@[0]);
        assert("Roach"@[0] != "Queen"@[0]);
        assert("RoachBurrowed"@[0] != "VikingFighter"@[0]);
        assert("RoachBurrowed"@[0] != "VikingAssault"@[0]);
        assert("RoachBurrowed"@[0] != "Battlecruiser"@[0]);
        assert("Ravager"@[0] != "Hellion"@[0]);
        assert("Ravager"@[0] != "Cyclone"@[0]);
        assert("Ravager"@[0] != "Medivac"@[0]);
        assert("Ravager"@[0] != "Banshee"@[0]);
        assert("Ravager"@[0] != "Stalker"@[0]);
        assert("Ravager"@[0] != "Phoenix"@[0]);
        assert("Ravager"@[0] != "VoidRay"@[0]);
        assert("Ravager"@[0] != "Tempest"@[0]);
        assert("Ravager"@[0] != "Carrier"@[0]);
        assert("RavagerCocoon"@[0] != "VikingFighter"@[0]);
        assert("RavagerCocoon"@[0] != "VikingAssault"@[0]);
        assert("RavagerCocoon"@[0] != "Battlecruiser"@[0]);
        assert("RavagerCocoon"@[1] != "RoachBurrowed"@[1]);
        assert("Hydralisk"@[0] != "SiegeTank"@[0]);
        assert("Hydralisk"@[0] != "WidowMine"@[0]);
        assert("Hydralisk"@[0] != "Liberator"@[0]);
        assert("Hydralisk"@[0] != "Disruptor"@[0]);
        assert("Hydralisk"@[0] != "WarpPrism"@[0]);
        assert("HydraliskBurrowed"@[0] != "WidowMineBurrowed"@[0]);
        assert("HydraliskBurrowed"@[0] != "ObserverSiegeMode"@[0]);
        assert("LurkerMP"@[0] != "Marauder"@[0]);
        assert("LurkerMP"@[0] != "Immortal"@[0]);
        assert("LurkerMP"@[0] != "Colossus"@[0]);
        assert("LurkerMP"@[0] != "Observer"@[0]);
        assert("LurkerMP"@[0] != "Zergling"@[0]);
        assert("LurkerMP"@[0] != "Baneling"@[0]);
        assert("LurkerMPBurrowed"@[0] != "WarpPrismPhasing"@[0]);
        assert("LurkerMPEgg"@[0] != "HellionTank"@[0]);
        assert("LurkerMPEgg"@[1] != "LiberatorAG"@[1]);
        assert("LurkerMPEgg"@[0] != "HighTemplar"@[0]);
        assert("LurkerMPEgg"@[0] != "DarkTemplar"@[0]);
        assert("Mutalisk"@[1] != "Marauder"@[1]);
        assert("Mutalisk"@[0] != "Immortal"@[0]);
        assert("Mutalisk"@[0] != "Colossus"@[0]);
        assert("Mutalisk"@[0] != "Observer"@[0]);
        assert("Mutalisk"@[0] != "Zergling"@[0]);
        assert("Mutalisk"@[0] != "Baneling"@[0]);
        assert("Mutalisk"@[0] != "LurkerMP"@[0]);
        assert("Corruptor"@[0] != "SiegeTank"@[0]);
        assert("Corruptor"@[0] != "WidowMine"@[0]);
        assert("Corruptor"@[0] != "Liberator"@[0]);
        assert("Corruptor"@[0] != "Disruptor"@[0]);
        assert("Corruptor"@[0] != "WarpPrism"@[0]);
        assert("Corruptor"@[0] != "Hydralisk"@[0]);
        assert("BroodLord"@[0] != "SiegeTank"@[0]);
        assert("BroodLord"@[0] != "WidowMine"@[0]);
        assert("BroodLord"@[0] != "Liberator"@[0]);
        assert("BroodLord"@[0] != "Disruptor"@[0]);
        assert("BroodLord"@[0] != "WarpPrism"@[0]);
        assert("BroodLord"@[0] != "Hydralisk"@[0]);
        assert("BroodLord"@[0] != "Corruptor"@[0]);
        assert("BroodLordCocoon"@[0] != "SiegeTankSieged"@[0]);
        assert("BroodLordCocoon"@[0] != "AdeptPhaseShift"@[0]);
        assert("BroodLordCocoon"@[0] != "DisruptorPhased"@[0]);
        assert("Infestor"@[0] != "Marauder"@[0]);
        assert("Infestor"@[1] != "Immortal"@[1]);
        assert("Infestor"@[0] != "Colossus"@[0]);
        assert("Infestor"@[0] != "Observer"@[0]);
        assert("Infestor"@[0] != "Zergling"@[0]);
        assert("Infestor"@[0] != "Baneling"@[0]);
        assert("Infestor"@[0] != "LurkerMP"@[0]);
        assert("Infestor"@[0] != "Mutalisk"@[0]);
        assert("InfestorBurrowed"@[0] != "WarpPrismPhasing"@[0]);
        assert("InfestorBurrowed"@[0] != "LurkerMPBurrowed"@[0]);
        assert("SwarmHostMP"@[0] != "HellionTank"@[0]);
        assert("SwarmHostMP"@[0] != "LiberatorAG"@[0]);
        assert("SwarmHostMP"@[0] != "HighTemplar"@[0]);
        assert("SwarmHostMP"@[0] != "DarkTemplar"@[0]);
        assert("SwarmHostMP"@[0] != "LurkerMPEgg"@[0]);
        assert("Viper"@[0] != "Ghost"@[0]);
        assert("Viper"@[0] != "Raven"@[0]);
        assert("Viper"@[0] != "Probe"@[0]);
        assert("Viper"@[0] != "Adept"@[0]);
        assert("Viper"@[0] != "Drone"@[0]);
        assert("Viper"@[0] != "Queen"@[0]);
        assert("Viper"@[0] != "Roach"@[0]);
        assert("Ultralisk"@[0] != "SiegeTank"@[0]);
        assert("Ultralisk"@[0] != "WidowMine"@[0]);
        assert("Ultralisk"@[0] != "Liberator"@[0]);
        assert("Ultralisk"@[0] != "Disruptor"@[0]);
        assert("Ultralisk"@[0] != "WarpPrism"@[0]);
        assert("Ultralisk"@[0] != "Hydralisk"@[0]);
        assert("Ultralisk"@[0] != "Corruptor"@[0]);
        assert("Ultralisk"@[0] != "BroodLord"@[0]);
        assert("UltraliskBurrowed"@[0] != "WidowMineBurrowed"@[0]);
        assert("UltraliskBurrowed"@[0] != "ObserverSiegeMode"@[0]);
        assert("UltraliskBurrowed"@[0] != "HydraliskBurrowed"@[0]);
        assert("Overlord"@[0] != "Marauder"@[0]);
        assert("Overlord"@[0] != "Immortal"@[0]);
        assert("Overlord"@[0] != "Colossus"@[0]);
        assert("Overlord"@[1] != "Observer"@[1]);
        assert("Overlord"@[0] != "Zergling"@[0]);
        assert("Overlord"@[0] != "Baneling"@[0]);
        assert("Overlord"@[0] != "LurkerMP"@[0]);
        assert("Overlord"@[0] != "Mutalisk"@[0]);
        assert("Overlord"@[0] != "Infestor"@[0]);
        assert("OverlordTransport"@[0] != "WidowMineBurrowed"@[0]);
        assert("OverlordTransport"@[1] != "ObserverSiegeMode"@[1]);
        assert("OverlordTransport"@[0] != "HydraliskBurrowed"@[0]);
        assert("OverlordTransport"@[0] != "UltraliskBurrowed"@[0]);
        assert("Overseer"@[0] != "Marauder"@[0]);
        assert("Overseer"@[0] != "Immortal"@[0]);
        assert("Overseer"@[0] != "Colossus"@[0]);
        assert("Overseer"@[1] != "Observer"@[1]);
        assert("Overseer"@[0] != "Zergling"@[0]);
        assert("Overseer"@[0] != "Baneling"@[0]);
        assert("Overseer"@[0] != "LurkerMP"@[0]);
        assert("Overseer"@[0] != "Mutalisk"@[0]);
        assert("Overseer"@[0] != "Infestor"@[0]);
        assert("Overseer"@[4] != "Overlord"@[4]);
        assert("OverseerSiegeMode"@[0] != "WidowMineBurrowed"@[0]);
        assert("OverseerSiegeMode"@[1] != "ObserverSiegeMode"@[1]);
        assert("OverseerSiegeMode"@[0] != "HydraliskBurrowed"@[0]);
        assert("OverseerSiegeMode"@[0] != "UltraliskBurrowed"@[0]);
        assert("OverseerSiegeMode"@[4] != "OverlordTransport"@[4]);
        assert("Larva"@[0] != "Ghost"@[0]);
        assert("Larva"@[0] != "Raven"@[0]);
        assert("Larva"@[0] != "Probe"@[0]);
        assert("Larva"@[0] != "Adept"@[0]);
        assert("Larva"@[0] != "Drone"@[0]);
        assert("Larva"@[0] != "Queen"@[0]);
        assert("Larva"@[0] != "Roach"@[0]);
        assert("Larva"@[0] != "Viper"@[0]);
        assert("Interceptor"@[0] != "HellionTank"@[0]);
        assert("Interceptor"@[0] != "LiberatorAG"@[0]);
        assert("Interceptor"@[0] != "HighTemplar"@[0]);
        assert("Interceptor"@[0] != "DarkTemplar"@[0]);
        assert("Interceptor"@[0] != "LurkerMPEgg"@[0]);
        assert("Interceptor"@[0] != "SwarmHostMP"@[0]);
        assert("AutoTurret"@[0] != "Mothership"@[0]);
        assert("Locust"@[0] != "Marine"@[0]);
        assert("Locust"@[0] != "Reaper"@[0]);
        assert("Locust"@[0] != "ThorAP"@[0]);
        assert("Locust"@[0] != "Zealot"@[0]);
        assert("Locust"@[0] != "Sentry"@[0]);
        assert("Locust"@[0] != "Archon"@[0]);
        assert("Locust"@[0] != "Oracle"@[0]);
        assert("LocustMP"@[0] != "Marauder"@[0]);
        assert("LocustMP"@[0] != "Immortal"@[0]);
        assert("LocustMP"@[0] != "Colossus"@[0]);
        assert("LocustMP"@[0] != "Observer"@[0]);
        assert("LocustMP"@[0] != "Zergling"@[0]);
        assert("LocustMP"@[0] != "Baneling"@[0]);
        assert("LocustMP"@[1] != "LurkerMP"@[1]);
        assert("LocustMP"@[0] != "Mutalisk"@[0]);
        assert("LocustMP"@[0] != "Infestor"@[0]);
        assert("LocustMP"@[0] != "Overlord"@[0]);
        assert("LocustMP"@[0] != "Overseer"@[0]);
        assert("LocustMPFlying"@[0] != "GhostAlternate"@[0]);
        assert("LocustMPFlying"@[0] != "BanelingCocoon"@[0]);
        assert("Broodling"@[0] != "SiegeTank"@[0]);
        assert("Broodling"@[0] != "WidowMine"@[0]);
        assert("Broodling"@[0] != "Liberator"@[0]);
        assert("Broodling"@[0] != "Disruptor"@[0]);
        assert("Broodling"@[0] != "WarpPrism"@[0]);
        assert("Broodling"@[0] != "Hydralisk"@[0]);
        assert("Broodling"@[0] != "Corruptor"@[0]);
        assert("Broodling"@[5] != "BroodLord"@[5]);
        assert("Broodling"@[0] != "Ultralisk"@[0]);
        assert("Changeling"@[0] != "Mothership"@[0]);
        assert("Changeling"@[0] != "AutoTurret"@[0]);
        assert("ChangelingMarine"@[0] != "WarpPrismPhasing"@[0]);
        assert("ChangelingMarine"@[0] != "LurkerMPBurrowed"@[0]);
        assert("ChangelingMarine"@[0] != "InfestorBurrowed"@[0]);
        assert("ChangelingZealot"@[0] != "WarpPrismPhasing"@[0]);
        assert("ChangelingZealot"@[0] != "LurkerMPBurrowed"@[0]);
        assert("ChangelingZealot"@[0] != "InfestorBurrowed"@[0]);
        assert("ChangelingZealot"@[10] != "ChangelingMarine"@[10]);
    }
}

/// Fixed abbreviation of a known unit type, if it has one.
pub fn known_unit_abbrev(name: &str) -> (r: Option<&'static str>)
    ensures
        match r {
            Some(a) => known_unit_abbrev_spec(name@) == Some(a@),
            None => known_unit_abbrev_spec(name@) is None,
        },
        r matches Some(a) ==> a@.len() == 3,
{
    proof {
        lemma_known_abbrev_len(name@);
    }
    if str_eq(name, "SCV") {
        Some("SCV")
    } else if str_eq(name, "MULE") {
        Some("MUL")
    } else if str_eq(name, "Marine") {
        Some("MAR")
    } else if str_eq(name, "Marauder") {
        Some("MAU")
    } else if str_eq(name, "Reaper") {
        Some("REA")
    } else if str_eq(name, "Ghost") || str_eq(name, "GhostAlternate") {
        Some("GHO")
    } else if str_eq(name, "Hellion") {
        Some("HEL")
    } else if str_eq(name, "HellionTank") {
        Some("HBT")
    } else if str_eq(name, "SiegeTank") || str_eq(name, "SiegeTankSieged") {
        Some("TNK")
    } else if str_eq(name, "Cyclone") {
        Some("CYC")
    } else if str_eq(name, "WidowMine") || str_eq(name, "WidowMineBurrowed") {
        Some("WMN")
    } else if str_eq(name, "Thor") || str_eq(name, "ThorAP") {
        Some("THR")
    } else if str_eq(name, "VikingFighter") || str_eq(name, "VikingAssault") {
        Some("VIK")
    } else if str_eq(name, "Medivac") {
        Some("MDV")
    } else if str_eq(name, "Liberator") || str_eq(name, "LiberatorAG") {
        Some("LIB")
    } else if str_eq(name, "Raven") {
        Some("RVN")
    } else if str_eq(name, "Banshee") {
        Some("BSH")
    } else if str_eq(name, "Battlecruiser") {
        Some("BCR")
    } else if str_eq(name, "Probe") {
        Some("PRB")
    } else if str_eq(name, "Zealot") {
        Some("ZEA")
    } else if str_eq(name, "Stalker") {
        Some("STK")
    } else if str_eq(name, "Sentry") {
        Some("SEN")
    } else if str_eq(name, "Adept") || str_eq(name, "AdeptPhaseShift") {
        Some("ADP")
    } else if str_eq(name, "HighTemplar") {
        Some("HTP")
    } else if str_eq(name, "DarkTemplar") {
        Some("DTP")
    } else if str_eq(name, "Immortal") {
        Some("IMM")
    } else if str_eq(name, "Colossus") {
        Some("COL")
    } else if str_eq(name, "Disruptor") || str_eq(name, "DisruptorPhased") {
        Some("DIS")
    } else if str_eq(name, "Archon") {
        Some("ARC")
    } else if str_eq(name, "Observer") || str_eq(name, "ObserverSiegeMode") {
        Some("OBS")
    } else if str_eq(name, "WarpPrism") || str_eq(name, "WarpPrismPhasing") {
        Some("PRI")
    } else if str_eq(name, "Phoenix") {
        Some("PHX")
    } else if str_eq(name, "VoidRay") {
        Some("VRY")
    } else if str_eq(name, "Oracle") {
        Some("ORA")
    } else if str_eq(name, "Tempest") {
        Some("TMP")
    } else if str_eq(name, "Carrier") {
        Some("CAR")
    } else if str_eq(name, "Mothership") {
        Some("MSH")
    } else if str_eq(name, "Drone") {
        Some("DRO")
    } else if str_eq(name, "Queen") {
        Some("QUE")
    } else if str_eq(name, "Zergling") {
        Some("ZGL")
    } else if str_eq(name, "Baneling") || str_eq(name, "BanelingCocoon") {
        Some("BLN")
    } else if str_eq(name, "Roach") || str_eq(name, "RoachBurrowed") {
        Some("ROA")
    } else if str_eq(name, "Ravager") || str_eq(name, "RavagerCocoon") {
        Some("RAV")
    } else if str_eq(name, "Hydralisk") || str_eq(name, "HydraliskBurrowed") {
        Some("HYD")
    } else if str_eq(name, "LurkerMP") || str_eq(name, "LurkerMPBurrowed") || str_eq(name, "LurkerMPEgg") {
        Some("LUR")
    } else if str_eq(name, "Mutalisk") {
        Some("MUT")
    } else if str_eq(name, "Corruptor") {
        Some("COR")
    } else if str_eq(name, "BroodLord") || str_eq(name, "BroodLordCocoon") {
        Some("BLD")
    } else if str_eq(name, "Infestor") || str_eq(name, "InfestorBurrowed") {
        Some("INF")
    } else if str_eq(name, "SwarmHostMP") || str_eq(name, "SwarmHostBurrowedMP") {
        Some("SWH")
    } else if str_eq(name, "Viper") {
        Some("VIP")
    } else if str_eq(name, "Ultralisk") || str_eq(name, "UltraliskBurrowed") {
        Some("ULT")
    } else if str_eq(name, "Overlord") || str_eq(name, "OverlordTransport") {
        Some("OVL")
    } else if str_eq(name, "Overseer") || str_eq(name, "OverseerSiegeMode") {
        Some("OVS")
    } else if str_eq(name, "Larva") {
        Some("LAR")
    } else if str_eq(name, "Interceptor") {
        Some("INT")
    } else if str_eq(name, "AutoTurret") {
        Some("TUR")
    } else if str_eq(name, "Locust") || str_eq(name, "LocustMP") || str_eq(name, "LocustMPFlying") {
        Some("LOC")
    } else if str_eq(name, "Broodling") {
        Some("BRO")
    } else if str_eq(name, "Changeling") || str_eq(name, "ChangelingMarine") || str_eq(name, "ChangelingMarineShield") || str_eq(name, "ChangelingZealot") || str_eq(name, "ChangelingZergling") || str_eq(name, "ChangelingZerglingWings") {
        Some("CHG")
    } else {
        None
    }
}

/// Canonical name of a structure type: flying and lowered variants fold
/// into the base structure; unknown types map to the empty name.
pub open spec fn structure_canonical_spec(name: Seq<char>) -> Seq<char> {
    if (name == "CommandCenter"@ || name == "CommandCenterFlying"@) {
        "CommandCenter"@
    } else if (name == "OrbitalCommand"@ || name == "OrbitalCommandFlying"@) {
        "OrbitalCommand"@
    } else if (name == "Barracks"@ || name == "BarracksFlying"@) {
        "Barracks"@
    } else if (name == "Factory"@ || name == "FactoryFlying"@) {
        "Factory"@
    } else if (name == "Starport"@ || name == "StarportFlying"@) {
        "Starport"@
    } else if (name == "SupplyDepot"@ || name == "SupplyDepotLowered"@) {
        "SupplyDepot"@
    } else if name == "PlanetaryFortress"@ {
        "PlanetaryFortress"@
    } else if name == "Refinery"@ {
        "Refinery"@
    } else if name == "EngineeringBay"@ {
        "EngineeringBay"@
    } else if name == "Armory"@ {
        "Armory"@
    } else if name == "FusionCore"@ {
        "FusionCore"@
    } else if name == "GhostAcademy"@ {
        "GhostAcademy"@
    } else if name == "Bunker"@ {
        "Bunker"@
    } else if name == "MissileTurret"@ {
        "MissileTurret"@
    } else if name == "SensorTower"@ {
        "SensorTower"@
    } else if name == "BarracksTechLab"@ {
        "BarracksTechLab"@
    } else if name == "FactoryTechLab"@ {
        "FactoryTechLab"@
    } else if name == "StarportTechLab"@ {
        "StarportTechLab"@
    } else if name == "BarracksReactor"@ {
        "BarracksReactor"@
    } else if name == "FactoryReactor"@ {
        "FactoryReactor"@
    } else if name == "StarportReactor"@ {
        "StarportReactor"@
    } else if name == "Hatchery"@ {
        "Hatchery"@
    } else if name == "Lair"@ {
        "Lair"@
    } else if name == "Hive"@ {
        "Hive"@
    } else if name == "Extractor"@ {
        "Extractor"@
    } else if name == "SpawningPool"@ {
        "SpawningPool"@
    } else if name == "RoachWarren"@ {
        "RoachWarren"@
    } else if name == "HydraliskDen"@ {
        "HydraliskDen"@
    } else if name == "BanelingNest"@ {
        "BanelingNest"@
    } else if name == "EvolutionChamber"@ {
        "EvolutionChamber"@
    } else if name == "Spire"@ {
        "Spire"@
    } else if name == "GreaterSpire"@ {
        "GreaterSpire"@
    } else if name == "InfestationPit"@ {
        "InfestationPit"@
    } else if name == "UltraliskCavern"@ {
        "UltraliskCavern"@
    } else if name == "NydusNetwork"@ {
        "NydusNetwork"@
    } else if name == "NydusCanal"@ {
        "NydusCanal"@
    } else if name == "LurkerDen"@ {
        "LurkerDen"@
    } else if name == "SpineCrawler"@ {
        "SpineCrawler"@
    } else if name == "SporeCrawler"@ {
        "SporeCrawler"@
    } else if name == "Nexus"@ {
        "Nexus"@
    } else if name == "Pylon"@ {
        "Pylon"@
    } else if name == "Assimilator"@ {
        "Assimilator"@
    } else if name == "Gateway"@ {
        "Gateway"@
    } else if name == "WarpGate"@ {
        "WarpGate"@
    } else if name == "Forge"@ {
        "Forge"@
    } else if name == "CyberneticsCore"@ {
        "CyberneticsCore"@
    } else if name == "TwilightCouncil"@ {
        "TwilightCouncil"@
    } else if name == "Stargate"@ {
        "Stargate"@
    } else if name == "RoboticsFacility"@ {
        "RoboticsFacility"@
    } else if name == "TemplarArchive"@ {
        "TemplarArchive"@
    } else if name == "DarkShrine"@ {
        "DarkShrine"@
    } else if name == "RoboticsBay"@ {
        "RoboticsBay"@
    } else if name == "FleetBeacon"@ {
        "FleetBeacon"@
    } else if name == "PhotonCannon"@ {
        "PhotonCannon"@
    } else if name == "ShieldBattery"@ {
        "ShieldBattery"@
    } else {
        ""@
    }
}

/// Canonical name of a structure type, empty for unknown types (the
/// caller filters those out).
pub fn structure_canonical(name: &str) -> (r: &'static str)
    ensures
        r@ == structure_canonical_spec(name@),
{
    if str_eq(name, "CommandCenter") || str_eq(name, "CommandCenterFlying") {
        "CommandCenter"
    } else if str_eq(name, "OrbitalCommand") || str_eq(name, "OrbitalCommandFlying") {
        "OrbitalCommand"
    } else if str_eq(name, "Barracks") || str_eq(name, "BarracksFlying") {
        "Barracks"
    } else if str_eq(name, "Factory") || str_eq(name, "FactoryFlying") {
        "Factory"
    } else if str_eq(name, "Starport") || str_eq(name, "StarportFlying") {
        "Starport"
    } else if str_eq(name, "SupplyDepot") || str_eq(name, "SupplyDepotLowered") {
        "SupplyDepot"
    } else if str_eq(name, "PlanetaryFortress") {
        "PlanetaryFortress"
    } else if str_eq(name, "Refinery") {
        "Refinery"
    } else if str_eq(name, "EngineeringBay") {
        "EngineeringBay"
    } else if str_eq(name, "Armory") {
        "Armory"
    } else if str_eq(name, "FusionCore") {
        "FusionCore"
    } else if str_eq(name, "GhostAcademy") {
        "GhostAcademy"
    } else if str_eq(name, "Bunker") {
        "Bunker"
    } else if str_eq(name, "MissileTurret") {
        "MissileTurret"
    } else if str_eq(name, "SensorTower") {
        "SensorTower"
    } else if str_eq(name, "BarracksTechLab") {
        "BarracksTechLab"
    } else if str_eq(name, "FactoryTechLab") {
        "FactoryTechLab"
    } else if str_eq(name, "StarportTechLab") {
        "StarportTechLab"
    } else if str_eq(name, "BarracksReactor") {
        "BarracksReactor"
    } else if str_eq(name, "FactoryReactor") {
        "FactoryReactor"
    } else if str_eq(name, "StarportReactor") {
        "StarportReactor"
    } else if str_eq(name, "Hatchery") {
        "Hatchery"
    } else if str_eq(name, "Lair") {
        "Lair"
    } else if str_eq(name, "Hive") {
        "Hive"
    } else if str_eq(name, "Extractor") {
        "Extractor"
    } else if str_eq(name, "SpawningPool") {
        "SpawningPool"
    } else if str_eq(name, "RoachWarren") {
        "RoachWarren"
    } else if str_eq(name, "HydraliskDen") {
        "HydraliskDen"
    } else if str_eq(name, "BanelingNest") {
        "BanelingNest"
    } else if str_eq(name, "EvolutionChamber") {
        "EvolutionChamber"
    } else if str_eq(name, "Spire") {
        "Spire"
    } else if str_eq(name, "GreaterSpire") {
        "GreaterSpire"
    } else if str_eq(name, "InfestationPit") {
        "InfestationPit"
    } else if str_eq(name, "UltraliskCavern") {
        "UltraliskCavern"
    } else if str_eq(name, "NydusNetwork") {
        "NydusNetwork"
    } else if str_eq(name, "NydusCanal") {
        "NydusCanal"
    } else if str_eq(name, "LurkerDen") {
        "LurkerDen"
    } else if str_eq(name, "SpineCrawler") {
        "SpineCrawler"
    } else if str_eq(name, "SporeCrawler") {
        "SporeCrawler"
    } else if str_eq(name, "Nexus") {
        "Nexus"
    } else if str_eq(name, "Pylon") {
        "Pylon"
    } else if str_eq(name, "Assimilator") {
        "Assimilator"
    } else if str_eq(name, "Gateway") {
        "Gateway"
    } else if str_eq(name, "WarpGate") {
        "WarpGate"
    } else if str_eq(name, "Forge") {
        "Forge"
    } else if str_eq(name, "CyberneticsCore") {
        "CyberneticsCore"
    } else if str_eq(name, "TwilightCouncil") {
        "TwilightCouncil"
    } else if str_eq(name, "Stargate") {
        "Stargate"
    } else if str_eq(name, "RoboticsFacility") {
        "RoboticsFacility"
    } else if str_eq(name, "TemplarArchive") {
        "TemplarArchive"
    } else if str_eq(name, "DarkShrine") {
        "DarkShrine"
    } else if str_eq(name, "RoboticsBay") {
        "RoboticsBay"
    } else if str_eq(name, "FleetBeacon") {
        "FleetBeacon"
    } else if str_eq(name, "PhotonCannon") {
        "PhotonCannon"
    } else if str_eq(name, "ShieldBattery") {
        "ShieldBattery"
    } else {
        ""
    }
}

/// Fixed abbreviation of a canonical structure name, `STR` for others.
pub open spec fn structure_abbrev_spec(name: Seq<char>) -> Seq<char> {
    if name == "CommandCenter"@ {
        "CC"@
    } else if name == "OrbitalCommand"@ {
        "ORB"@
    } else if name == "PlanetaryFortress"@ {
        "PF"@
    } else if name == "SupplyDepot"@ {
        "SD"@
    } else if name == "Refinery"@ {
        "REF"@
    } else if name == "Barracks"@ {
        "BAR"@
    } else if name == "Factory"@ {
        "FAC"@
    } else if name == "Starport"@ {
        "STP"@
    } else if name == "EngineeringBay"@ {
        "EB"@
    } else if name == "Armory"@ {
        "ARM"@
    } else if name == "FusionCore"@ {
        "FC"@
    } else if name == "GhostAcademy"@ {
        "GA"@
    } else if name == "Bunker"@ {
        "BNK"@
    } else if name == "MissileTurret"@ {
        "MTR"@
    } else if name == "SensorTower"@ {
        "SNT"@
    } else if name == "BarracksTechLab"@ {
        "BTL"@
    } else if name == "FactoryTechLab"@ {
        "FTL"@
    } else if name == "StarportTechLab"@ {
        "STL"@
    } else if name == "BarracksReactor"@ {
        "BRC"@
    } else if name == "FactoryReactor"@ {
        "FRC"@
    } else if name == "StarportReactor"@ {
        "SRC"@
    } else if name == "Hatchery"@ {
        "HAT"@
    } else if name == "Lair"@ {
        "LAI"@
    } else if name == "Hive"@ {
        "HIV"@
    } else if name == "Extractor"@ {
        "EXT"@
    } else if name == "SpawningPool"@ {
        "SPL"@
    } else if name == "RoachWarren"@ {
        "RW"@
    } else if name == "HydraliskDen"@ {
        "HD"@
    } else if name == "BanelingNest"@ {
        "BN"@
    } else if name == "EvolutionChamber"@ {
        "EVO"@
    } else if name == "Spire"@ {
        "SPI"@
    } else if name == "GreaterSpire"@ {
        "GSP"@
    } else if name == "InfestationPit"@ {
        "IP"@
    } else if name == "UltraliskCavern"@ {
        "UC"@
    } else if name == "NydusNetwork"@ {
        "NN"@
    } else if name == "NydusCanal"@ {
        "NYD"@
    } else if name == "LurkerDen"@ {
        "LD"@
    } else if name == "SpineCrawler"@ {
        "SPC"@
    } else if name == "SporeCrawler"@ {
        "SPO"@
    } else if name == "Nexus"@ {
        "NEX"@
    } else if name == "Pylon"@ {
        "PYL"@
    } else if name == "Assimilator"@ {
        "ASM"@
    } else if name == "Gateway"@ {
        "GW"@
    } else if name == "WarpGate"@ {
        "WG"@
    } else if name == "Forge"@ {
        "FRG"@
    } else if name == "CyberneticsCore"@ {
        "CYB"@
    } else if name == "TwilightCouncil"@ {
        "TC"@
    } else if name == "Stargate"@ {
        "SG"@
    } else if name == "RoboticsFacility"@ {
        "RF"@
    } else if name == "TemplarArchive"@ {
        "TA"@
    } else if name == "DarkShrine"@ {
        "DS"@
    } else if name == "RoboticsBay"@ {
        "RB"@
    } else if name == "FleetBeacon"@ {
        "FB"@
    } else if name == "PhotonCannon"@ {
        "PC"@
    } else if name == "ShieldBattery"@ {
        "SB"@
    } else {
        "STR"@
    }
}

/// Fixed abbreviation of a canonical structure name (`STR` when unknown).
pub fn structure_abbrev(name: &str) -> (r: &'static str)
    ensures
        r@ == structure_abbrev_spec(name@),
{
    if str_eq(name, "CommandCenter") {
        "CC"
    } else if str_eq(name, "OrbitalCommand") {
        "ORB"
    } else if str_eq(name, "PlanetaryFortress") {
        "PF"
    } else if str_eq(name, "SupplyDepot") {
        "SD"
    } else if str_eq(name, "Refinery") {
        "REF"
    } else if str_eq(name, "Barracks") {
        "BAR"
    } else if str_eq(name, "Factory") {
        "FAC"
    } else if str_eq(name, "Starport") {
        "STP"
    } else if str_eq(name, "EngineeringBay") {
        "EB"
    } else if str_eq(name, "Armory") {
        "ARM"
    } else if str_eq(name, "FusionCore") {
        "FC"
    } else if str_eq(name, "GhostAcademy") {
        "GA"
    } else if str_eq(name, "Bunker") {
        "BNK"
    } else if str_eq(name, "MissileTurret") {
        "MTR"
    } else if str_eq(name, "SensorTower") {
        "SNT"
    } else if str_eq(name, "BarracksTechLab") {
        "BTL"
    } else if str_eq(name, "FactoryTechLab") {
        "FTL"
    } else if str_eq(name, "StarportTechLab") {
        "STL"
    } else if str_eq(name, "BarracksReactor") {
        "BRC"
    } else if str_eq(name, "FactoryReactor") {
        "FRC"
    } else if str_eq(name, "StarportReactor") {
        "SRC"
    } else if str_eq(name, "Hatchery") {
        "HAT"
    } else if str_eq(name, "Lair") {
        "LAI"
    } else if str_eq(name, "Hive") {
        "HIV"
    } else if str_eq(name, "Extractor") {
        "EXT"
    } else if str_eq(name, "SpawningPool") {
        "SPL"
    } else if str_eq(name, "RoachWarren") {
        "RW"
    } else if str_eq(name, "HydraliskDen") {
        "HD"
    } else if str_eq(name, "BanelingNest") {
        "BN"
    } else if str_eq(name, "EvolutionChamber") {
        "EVO"
    } else if str_eq(name, "Spire") {
        "SPI"
    } else if str_eq(name, "GreaterSpire") {
        "GSP"
    } else if str_eq(name, "InfestationPit") {
        "IP"
    } else if str_eq(name, "UltraliskCavern") {
        "UC"
    } else if str_eq(name, "NydusNetwork") {
        "NN"
    } else if str_eq(name, "NydusCanal") {
        "NYD"
    } else if str_eq(name, "LurkerDen") {
        "LD"
    } else if str_eq(name, "SpineCrawler") {
        "SPC"
    } else if str_eq(name, "SporeCrawler") {
        "SPO"
    } else if str_eq(name, "Nexus") {
        "NEX"
    } else if str_eq(name, "Pylon") {
        "PYL"
    } else if str_eq(name, "Assimilator") {
        "ASM"
    } else if str_eq(name, "Gateway") {
        "GW"
    } else if str_eq(name, "WarpGate") {
        "WG"
    } else if str_eq(name, "Forge") {
        "FRG"
    } else if str_eq(name, "CyberneticsCore") {
        "CYB"
    } else if str_eq(name, "TwilightCouncil") {
        "TC"
    } else if str_eq(name, "Stargate") {
        "SG"
    } else if str_eq(name, "RoboticsFacility") {
        "RF"
    } else if str_eq(name, "TemplarArchive") {
        "TA"
    } else if str_eq(name, "DarkShrine") {
        "DS"
    } else if str_eq(name, "RoboticsBay") {
        "RB"
    } else if str_eq(name, "FleetBeacon") {
        "FB"
    } else if str_eq(name, "PhotonCannon") {
        "PC"
    } else if str_eq(name, "ShieldBattery") {
        "SB"
    } else {
        "STR"
    }
}

/// Sprite of a unit type, relative to the asset directory; state variants
/// share the sprite of their base form.
pub open spec fn unit_icon_file_spec(name: Seq<char>) -> Option<Seq<char>> {
    if name == "SCV"@ {
        Some("units/terran/SCV.png"@)
    } else if name == "MULE"@ {
        Some("units/terran/MULE.png"@)
    } else if name == "Marine"@ {
        Some("units/terran/Marine.png"@)
    } else if name == "Marauder"@ {
        Some("units/terran/Marauder.png"@)
    } else if name == "Reaper"@ {
        Some("units/terran/Reaper.png"@)
    } else if (name == "Ghost"@ || name == "GhostAlternate"@) {
        Some("units/terran/Ghost.png"@)
    } else if name == "Hellion"@ {
        Some("units/terran/Hellion.png"@)
    } else if name == "HellionTank"@ {
        Some("units/terran/HellionTank.png"@)
    } else if (name == "SiegeTank"@ || name == "SiegeTankSieged"@) {
        Some("units/terran/SiegeTank.png"@)
    } else if name == "Cyclone"@ {
        Some("units/terran/Cyclone.png"@)
    } else if (name == "WidowMine"@ || name == "WidowMineBurrowed"@) {
        Some("units/terran/WidowMine.png"@)
    } else if (name == "Thor"@ || name == "ThorAP"@) {
        Some("units/terran/Thor.png"@)
    } else if (name == "VikingFighter"@ || name == "VikingAssault"@) {
        Some("units/terran/VikingFighter.png"@)
    } else if name == "Medivac"@ {
        Some("units/terran/Medivac.png"@)
    } else if (name == "Liberator"@ || name == "LiberatorAG"@) {
        Some("units/terran/Liberator.png"@)
    } else if name == "Raven"@ {
        Some("units/terran/Raven.png"@)
    } else if name == "Banshee"@ {
        Some("units/terran/Banshee.png"@)
    } else if name == "Battlecruiser"@ {
        Some("units/terran/Battlecruiser.png"@)
    } else if name == "Probe"@ {
        Some("units/protoss/Probe.png"@)
    } else if name == "Zealot"@ {
        Some("units/protoss/Zealot.png"@)
    } else if name == "Stalker"@ {
        Some("units/protoss/Stalker.png"@)
    } else if name == "Sentry"@ {
        Some("units/protoss/Sentry.png"@)
    } else if name == "HighTemplar"@ {
        Some("units/protoss/HighTemplar.png"@)
    } else if (name == "Adept"@ || name == "AdeptPhaseShift"@) {
        Some("units/protoss/Adept.png"@)
    } else if name == "DarkTemplar"@ {
        Some("units/protoss/DarkTemplar.png"@)
    } else if name == "Archon"@ {
        Some("units/protoss/Archon.png"@)
    } else if name == "Immortal"@ {
        Some("units/protoss/Immortal.png"@)
    } else if (name == "Disruptor"@ || name == "DisruptorPhased"@) {
        Some("units/protoss/Disruptor.png"@)
    } else if name == "Colossus"@ {
        Some("units/protoss/Colossus.png"@)
    } else if (name == "Observer"@ || name == "ObserverSiegeMode"@) {
        Some("units/protoss/Observer.png"@)
    } else if (name == "WarpPrism"@ || name == "WarpPrismPhasing"@) {
        Some("units/protoss/WarpPrism.png"@)
    } else if name == "Mothership"@ {
        Some("units/protoss/Mothership.png"@)
    } else if name == "Phoenix"@ {
        Some("units/protoss/Phoenix.png"@)
    } else if name == "VoidRay"@ {
        Some("units/protoss/VoidRay.png"@)
    } else if name == "Oracle"@ {
        Some("units/protoss/Oracle.png"@)
    } else if name == "Tempest"@ {
        Some("units/protoss/Tempest.png"@)
    } else if name == "Carrier"@ {
        Some("units/protoss/Carrier.png"@)
    } else if name == "Drone"@ {
        Some("units/zerg/Drone.png"@)
    } else if name == "Queen"@ {
        Some("units/zerg/Queen.png"@)
    } else if name == "Zergling"@ {
        Some("units/zerg/Zergling.png"@)
    } else if (name == "Baneling"@ || name == "BanelingCocoon"@) {
        Some("units/zerg/Baneling.png"@)
    } else if (name == "Roach"@ || name == "RoachBurrowed"@) {
        Some("units/zerg/Roach.png"@)
    } else if (name == "Ravager"@ || name == "RavagerCocoon"@) {
        Some("units/zerg/Ravager.png"@)
    } else if (name == "Hydralisk"@ || name == "HydraliskBurrowed"@) {
        Some("units/zerg/Hydralisk.png"@)
    } else if (name == "LurkerMP"@ || name == "LurkerMPBurrowed"@ || name == "LurkerMPEgg"@) {
        Some("units/zerg/LurkerMP.png"@)
    } else if name == "Mutalisk"@ {
        Some("units/zerg/Mutalisk.png"@)
    } else if name == "Corruptor"@ {
        Some("units/zerg/Corruptor.png"@)
    } else if (name == "BroodLord"@ || name == "BroodLordCocoon"@) {
        Some("units/zerg/BroodLord.png"@)
    } else if (name == "Infestor"@ || name == "InfestorBurrowed"@) {
        Some("units/zerg/Infestor.png"@)
    } else if (name == "SwarmHostMP"@ || name == "SwarmHostBurrowedMP"@) {
        Some("units/zerg/SwarmHostMP.png"@)
    } else if name == "Viper"@ {
        Some("units/zerg/Viper.png"@)
    } else if (name == "Ultralisk"@ || name == "UltraliskBurrowed"@) {
        Some("units/zerg/Ultralisk.png"@)
    } else if (name == "Overlord"@ || name == "OverlordTransport"@) {
        Some("units/zerg/Overlord.png"@)
    } else if (name == "Overseer"@ || name == "OverseerSiegeMode"@) {
        Some("units/zerg/Overseer.png"@)
    } else if name == "Egg"@ {
        Some("units/zerg/Cocoon.png"@)
    } else {
        None
    }
}

/// Sprite file of a unit type (relative to the asset directory), if it
/// has one; rare types without art fall back to the abbreviation.
pub fn unit_icon_file(name: &str) -> (r: Option<&'static str>)
    ensures
        match r {
            Some(f) => unit_icon_file_spec(name@) == Some(f@),
            None => unit_icon_file_spec(name@) is None,
        },
{
    if str_eq(name, "SCV") {
        Some("units/terran/SCV.png")
    } else if str_eq(name, "MULE") {
        Some("units/terran/MULE.png")
    } else if str_eq(name, "Marine") {
        Some("units/terran/Marine.png")
    } else if str_eq(name, "Marauder") {
        Some("units/terran/Marauder.png")
    } else if str_eq(name, "Reaper") {
        Some("units/terran/Reaper.png")
    } else if str_eq(name, "Ghost") || str_eq(name, "GhostAlternate") {
        Some("units/terran/Ghost.png")
    } else if str_eq(name, "Hellion") {
        Some("units/terran/Hellion.png")
    } else if str_eq(name, "HellionTank") {
        Some("units/terran/HellionTank.png")
    } else if str_eq(name, "SiegeTank") || str_eq(name, "SiegeTankSieged") {
        Some("units/terran/SiegeTank.png")
    } else if str_eq(name, "Cyclone") {
        Some("units/terran/Cyclone.png")
    } else if str_eq(name, "WidowMine") || str_eq(name, "WidowMineBurrowed") {
        Some("units/terran/WidowMine.png")
    } else if str_eq(name, "Thor") || str_eq(name, "ThorAP") {
        Some("units/terran/Thor.png")
    } else if str_eq(name, "VikingFighter") || str_eq(name, "VikingAssault") {
        Some("units/terran/VikingFighter.png")
    } else if str_eq(name, "Medivac") {
        Some("units/terran/Medivac.png")
    } else if str_eq(name, "Liberator") || str_eq(name, "LiberatorAG") {
        Some("units/terran/Liberator.png")
    } else if str_eq(name, "Raven") {
        Some("units/terran/Raven.png")
    } else if str_eq(name, "Banshee") {
        Some("units/terran/Banshee.png")
    } else if str_eq(name, "Battlecruiser") {
        Some("units/terran/Battlecruiser.png")
    } else if str_eq(name, "Probe") {
        Some("units/protoss/Probe.png")
    } else if str_eq(name, "Zealot") {
        Some("units/protoss/Zealot.png")
    } else if str_eq(name, "Stalker") {
        Some("units/protoss/Stalker.png")
    } else if str_eq(name, "Sentry") {
        Some("units/protoss/Sentry.png")
    } else if str_eq(name, "HighTemplar") {
        Some("units/protoss/HighTemplar.png")
    } else if str_eq(name, "Adept") || str_eq(name, "AdeptPhaseShift") {
        Some("units/protoss/Adept.png")
    } else if str_eq(name, "DarkTemplar") {
        Some("units/protoss/DarkTemplar.png")
    } else if str_eq(name, "Archon") {
        Some("units/protoss/Archon.png")
    } else if str_eq(name, "Immortal") {
        Some("units/protoss/Immortal.png")
    } else if str_eq(name, "Disruptor") || str_eq(name, "DisruptorPhased") {
        Some("units/protoss/Disruptor.png")
    } else if str_eq(name, "Colossus") {
        Some("units/protoss/Colossus.png")
    } else if str_eq(name, "Observer") || str_eq(name, "ObserverSiegeMode") {
        Some("units/protoss/Observer.png")
    } else if str_eq(name, "WarpPrism") || str_eq(name, "WarpPrismPhasing") {
        Some("units/protoss/WarpPrism.png")
    } else if str_eq(name, "Mothership") {
        Some("units/protoss/Mothership.png")
    } else if str_eq(name, "Phoenix") {
        Some("units/protoss/Phoenix.png")
    } else if str_eq(name, "VoidRay") {
        Some("units/protoss/VoidRay.png")
    } else if str_eq(name, "Oracle") {
        Some("units/protoss/Oracle.png")
    } else if str_eq(name, "Tempest") {
        Some("units/protoss/Tempest.png")
    } else if str_eq(name, "Carrier") {
        Some("units/protoss/Carrier.png")
    } else if str_eq(name, "Drone") {
        Some("units/zerg/Drone.png")
    } else if str_eq(name, "Queen") {
        Some("units/zerg/Queen.png")
    } else if str_eq(name, "Zergling") {
        Some("units/zerg/Zergling.png")
    } else if str_eq(name, "Baneling") || str_eq(name, "BanelingCocoon") {
        Some("units/zerg/Baneling.png")
    } else if str_eq(name, "Roach") || str_eq(name, "RoachBurrowed") {
        Some("units/zerg/Roach.png")
    } else if str_eq(name, "Ravager") || str_eq(name, "RavagerCocoon") {
        Some("units/zerg/Ravager.png")
    } else if str_eq(name, "Hydralisk") || str_eq(name, "HydraliskBurrowed") {
        Some("units/zerg/Hydralisk.png")
    } else if str_eq(name, "LurkerMP") || str_eq(name, "LurkerMPBurrowed") || str_eq(name, "LurkerMPEgg") {
        Some("units/zerg/LurkerMP.png")
    } else if str_eq(name, "Mutalisk") {
        Some("units/zerg/Mutalisk.png")
    } else if str_eq(name, "Corruptor") {
        Some("units/zerg/Corruptor.png")
    } else if str_eq(name, "BroodLord") || str_eq(name, "BroodLordCocoon") {
        Some("units/zerg/BroodLord.png")
    } else if str_eq(name, "Infestor") || str_eq(name, "InfestorBurrowed") {
        Some("units/zerg/Infestor.png")
    } else if str_eq(name, "SwarmHostMP") || str_eq(name, "SwarmHostBurrowedMP") {
        Some("units/zerg/SwarmHostMP.png")
    } else if str_eq(name, "Viper") {
        Some("units/zerg/Viper.png")
    } else if str_eq(name, "Ultralisk") || str_eq(name, "UltraliskBurrowed") {
        Some("units/zerg/Ultralisk.png")
    } else if str_eq(name, "Overlord") || str_eq(name, "OverlordTransport") {
        Some("units/zerg/Overlord.png")
    } else if str_eq(name, "Overseer") || str_eq(name, "OverseerSiegeMode") {
        Some("units/zerg/Overseer.png")
    } else if str_eq(name, "Egg") {
        Some("units/zerg/Cocoon.png")
    } else {
        None
    }
}

/// Sprite of a canonical structure name, relative to the asset directory;
/// Terran add-ons share one sprite per kind, Gateway and WarpGate share one.
pub open spec fn structure_icon_file_spec(name: Seq<char>) -> Option<Seq<char>> {
    if name == "CommandCenter"@ {
        Some("buildings/terran/CommandCenter.png"@)
    } else if name == "OrbitalCommand"@ {
        Some("buildings/terran/OrbitalCommand.png"@)
    } else if name == "PlanetaryFortress"@ {
        Some("buildings/terran/PlanetaryFortress.png"@)
    } else if name == "SupplyDepot"@ {
        Some("buildings/terran/SupplyDepot.png"@)
    } else if name == "Refinery"@ {
        Some("buildings/terran/Refinery.png"@)
    } else if name == "Barracks"@ {
        Some("buildings/terran/Barracks.png"@)
    } else if name == "Factory"@ {
        Some("buildings/terran/Factory.png"@)
    } else if name == "Starport"@ {
        Some("buildings/terran/Starport.png"@)
    } else if name == "EngineeringBay"@ {
        Some("buildings/terran/EngineeringBay.png"@)
    } else if name == "Armory"@ {
        Some("buildings/terran/Armory.png"@)
    } else if name == "FusionCore"@ {
        Some("buildings/terran/FusionCore.png"@)
    } else if name == "GhostAcademy"@ {
        Some("buildings/terran/GhostAcademy.png"@)
    } else if name == "Bunker"@ {
        Some("buildings/terran/Bunker.png"@)
    } else if name == "MissileTurret"@ {
        Some("buildings/terran/MissileTurret.png"@)
    } else if name == "SensorTower"@ {
        Some("buildings/terran/SensorTower.png"@)
    } else if (name == "BarracksTechLab"@ || name == "FactoryTechLab"@ || name == "StarportTechLab"@) {
        Some("buildings/terran/TechLab.png"@)
    } else if (name == "BarracksReactor"@ || name == "FactoryReactor"@ || name == "StarportReactor"@) {
        Some("buildings/terran/Reactor.png"@)
    } else if name == "Nexus"@ {
        Some("buildings/protoss/Nexus.png"@)
    } else if name == "Pylon"@ {
        Some("buildings/protoss/Pylon.png"@)
    } else if name == "Assimilator"@ {
        Some("buildings/protoss/Assimilator.png"@)
    } else if (name == "Gateway"@ || name == "WarpGate"@) {
        Some("buildings/protoss/Gateway.png"@)
    } else if name == "Forge"@ {
        Some("buildings/protoss/Forge.png"@)
    } else if name == "CyberneticsCore"@ {
        Some("buildings/protoss/CyberneticsCore.png"@)
    } else if name == "TwilightCouncil"@ {
        Some("buildings/protoss/TwilightCouncil.png"@)
    } else if name == "Stargate"@ {
        Some("buildings/protoss/Stargate.png"@)
    } else if name == "RoboticsFacility"@ {
        Some("buildings/protoss/RoboticsFacility.png"@)
    } else if name == "TemplarArchive"@ {
        Some("buildings/protoss/TemplarArchive.png"@)
    } else if name == "DarkShrine"@ {
        Some("buildings/protoss/DarkShrine.png"@)
    } else if name == "RoboticsBay"@ {
        Some("buildings/protoss/RoboticsBay.png"@)
    } else if name == "FleetBeacon"@ {
        Some("buildings/protoss/FleetBeacon.png"@)
    } else if name == "PhotonCannon"@ {
        Some("buildings/protoss/PhotonCannon.png"@)
    } else if name == "ShieldBattery"@ {
        Some("buildings/protoss/ShieldBattery.png"@)
    } else if name == "Hatchery"@ {
        Some("buildings/zerg/Hatchery.png"@)
    } else if name == "Lair"@ {
        Some("buildings/zerg/Lair.png"@)
    } else if name == "Hive"@ {
        Some("buildings/zerg/Hive.png"@)
    } else if name == "Extractor"@ {
        Some("buildings/zerg/Extractor.png"@)
    } else if name == "SpawningPool"@ {
        Some("buildings/zerg/SpawningPool.png"@)
    } else if name == "RoachWarren"@ {
        Some("buildings/zerg/RoachWarren.png"@)
    } else if name == "HydraliskDen"@ {
        Some("buildings/zerg/HydraliskDen.png"@)
    } else if name == "BanelingNest"@ {
        Some("buildings/zerg/BanelingNest.png"@)
    } else if name == "EvolutionChamber"@ {
        Some("buildings/zerg/EvolutionChamber.png"@)
    } else if name == "Spire"@ {
        Some("buildings/zerg/Spire.png"@)
    } else if name == "GreaterSpire"@ {
        Some("buildings/zerg/GreaterSpire.png"@)
    } else if name == "InfestationPit"@ {
        Some("buildings/zerg/InfestationPit.png"@)
    } else if name == "UltraliskCavern"@ {
        Some("buildings/zerg/UltraliskCavern.png"@)
    } else if name == "NydusNetwork"@ {
        Some("buildings/zerg/NydusNetwork.png"@)
    } else if name == "NydusCanal"@ {
        Some("buildings/zerg/NydusCanal.png"@)
    } else if name == "LurkerDen"@ {
        Some("buildings/zerg/LurkerDen.png"@)
    } else if name == "SpineCrawler"@ {
        Some("buildings/zerg/SpineCrawler.png"@)
    } else if name == "SporeCrawler"@ {
        Some("buildings/zerg/SporeCrawler.png"@)
    } else {
        None
    }
}

/// Sprite file of a canonical structure name (relative to the asset
/// directory), if it has one.
pub fn structure_icon_file(name: &str) -> (r: Option<&'static str>)
    ensures
        match r {
            Some(f) => structure_icon_file_spec(name@) == Some(f@),
            None => structure_icon_file_spec(name@) is None,
        },
{
    if str_eq(name, "CommandCenter") {
        Some("buildings/terran/CommandCenter.png")
    } else if str_eq(name, "OrbitalCommand") {
        Some("buildings/terran/OrbitalCommand.png")
    } else if str_eq(name, "PlanetaryFortress") {
        Some("buildings/terran/PlanetaryFortress.png")
    } else if str_eq(name, "SupplyDepot") {
        Some("buildings/terran/SupplyDepot.png")
    } else if str_eq(name, "Refinery") {
        Some("buildings/terran/Refinery.png")
    } else if str_eq(name, "Barracks") {
        Some("buildings/terran/Barracks.png")
    } else if str_eq(name, "Factory") {
        Some("buildings/terran/Factory.png")
    } else if str_eq(name, "Starport") {
        Some("buildings/terran/Starport.png")
    } else if str_eq(name, "EngineeringBay") {
        Some("buildings/terran/EngineeringBay.png")
    } else if str_eq(name, "Armory") {
        Some("buildings/terran/Armory.png")
    } else if str_eq(name, "FusionCore") {
        Some("buildings/terran/FusionCore.png")
    } else if str_eq(name, "GhostAcademy") {
        Some("buildings/terran/GhostAcademy.png")
    } else if str_eq(name, "Bunker") {
        Some("buildings/terran/Bunker.png")
    } else if str_eq(name, "MissileTurret") {
        Some("buildings/terran/MissileTurret.png")
    } else if str_eq(name, "SensorTower") {
        Some("buildings/terran/SensorTower.png")
    } else if str_eq(name, "BarracksTechLab") || str_eq(name, "FactoryTechLab") || str_eq(name, "StarportTechLab") {
        Some("buildings/terran/TechLab.png")
    } else if str_eq(name, "BarracksReactor") || str_eq(name, "FactoryReactor") || str_eq(name, "StarportReactor") {
        Some("buildings/terran/Reactor.png")
    } else if str_eq(name, "Nexus") {
        Some("buildings/protoss/Nexus.png")
    } else if str_eq(name, "Pylon") {
        Some("buildings/protoss/Pylon.png")
    } else if str_eq(name, "Assimilator") {
        Some("buildings/protoss/Assimilator.png")
    } else if str_eq(name, "Gateway") || str_eq(name, "WarpGate") {
        Some("buildings/protoss/Gateway.png")
    } else if str_eq(name, "Forge") {
        Some("buildings/protoss/Forge.png")
    } else if str_eq(name, "CyberneticsCore") {
        Some("buildings/protoss/CyberneticsCore.png")
    } else if str_eq(name, "TwilightCouncil") {
        Some("buildings/protoss/TwilightCouncil.png")
    } else if str_eq(name, "Stargate") {
        Some("buildings/protoss/Stargate.png")
    } else if str_eq(name, "RoboticsFacility") {
        Some("buildings/protoss/RoboticsFacility.png")
    } else if str_eq(name, "TemplarArchive") {
        Some("buildings/protoss/TemplarArchive.png")
    } else if str_eq(name, "DarkShrine") {
        Some("buildings/protoss/DarkShrine.png")
    } else if str_eq(name, "RoboticsBay") {
        Some("buildings/protoss/RoboticsBay.png")
    } else if str_eq(name, "FleetBeacon") {
        Some("buildings/protoss/FleetBeacon.png")
    } else if str_eq(name, "PhotonCannon") {
        Some("buildings/protoss/PhotonCannon.png")
    } else if str_eq(name, "ShieldBattery") {
        Some("buildings/protoss/ShieldBattery.png")
    } else if str_eq(name, "Hatchery") {
        Some("buildings/zerg/Hatchery.png")
    } else if str_eq(name, "Lair") {
        Some("buildings/zerg/Lair.png")
    } else if str_eq(name, "Hive") {
        Some("buildings/zerg/Hive.png")
    } else if str_eq(name, "Extractor") {
        Some("buildings/zerg/Extractor.png")
    } else if str_eq(name, "SpawningPool") {
        Some("buildings/zerg/SpawningPool.png")
    } else if str_eq(name, "RoachWarren") {
        Some("buildings/zerg/RoachWarren.png")
    } else if str_eq(name, "HydraliskDen") {
        Some("buildings/zerg/HydraliskDen.png")
    } else if str_eq(name, "BanelingNest") {
        Some("buildings/zerg/BanelingNest.png")
    } else if str_eq(name, "EvolutionChamber") {
        Some("buildings/zerg/EvolutionChamber.png")
    } else if str_eq(name, "Spire") {
        Some("buildings/zerg/Spire.png")
    } else if str_eq(name, "GreaterSpire") {
        Some("buildings/zerg/GreaterSpire.png")
    } else if str_eq(name, "InfestationPit") {
        Some("buildings/zerg/InfestationPit.png")
    } else if str_eq(name, "UltraliskCavern") {
        Some("buildings/zerg/UltraliskCavern.png")
    } else if str_eq(name, "NydusNetwork") {
        Some("buildings/zerg/NydusNetwork.png")
    } else if str_eq(name, "NydusCanal") {
        Some("buildings/zerg/NydusCanal.png")
    } else if str_eq(name, "LurkerDen") {
        Some("buildings/zerg/LurkerDen.png")
    } else if str_eq(name, "SpineCrawler") {
        Some("buildings/zerg/SpineCrawler.png")
    } else if str_eq(name, "SporeCrawler") {
        Some("buildings/zerg/SporeCrawler.png")
    } else {
        None
    }
}

/// Icon of a Terran unit or upgrade, relative to the icon directory.
pub open spec fn terran_icon_file_spec(name: Seq<char>) -> Option<Seq<char>> {
    if name == "Marine"@ {
        Some("terran/marine.png"@)
    } else if name == "Marauder"@ {
        Some("terran/marauder.png"@)
    } else if name == "Reaper"@ {
        Some("terran/reaper.png"@)
    } else if name == "Ghost"@ {
        Some("terran/ghost.png"@)
    } else if name == "Hellion"@ {
        Some("terran/hellion.png"@)
    } else if (name == "Hellbat"@ || name == "HellionTank"@) {
        Some("terran/hellbat.png"@)
    } else if (name == "SiegeTank"@ || name == "SiegeTankSieged"@) {
        Some("terran/siege_tank.png"@)
    } else if (name == "Thor"@ || name == "ThorAP"@) {
        Some("terran/thor.png"@)
    } else if name == "Battlecruiser"@ {
        Some("terran/battlecruiser.png"@)
    } else if name == "Banshee"@ {
        Some("terran/banshee.png"@)
    } else if name == "Raven"@ {
        Some("terran/raven.png"@)
    } else if (name == "Liberator"@ || name == "LiberatorAG"@) {
        Some("terran/liberator.png"@)
    } else if (name == "VikingFighter"@ || name == "VikingAssault"@) {
        Some("terran/viking.png"@)
    } else if name == "Medivac"@ {
        Some("terran/medivac.png"@)
    } else if name == "Cyclone"@ {
        Some("terran/cyclone.png"@)
    } else if (name == "WidowMine"@ || name == "WidowMineBurrowed"@) {
        Some("terran/widow_mine.png"@)
    } else if name == "SCV"@ {
        Some("terran/scv.png"@)
    } else if (name == "MULE"@ || name == "Mule"@) {
        Some("terran/mule.png"@)
    } else if name == "AutoTurret"@ {
        Some("terran/auto_turret.png"@)
    } else if name == "PointDefenseDrone"@ {
        Some("terran/point_defense_drone.png"@)
    } else if name == "TerranInfantryWeaponsLevel1"@ {
        Some("terran/infantry_weapons_1.png"@)
    } else if name == "TerranInfantryWeaponsLevel2"@ {
        Some("terran/infantry_weapons_2.png"@)
    } else if name == "TerranInfantryWeaponsLevel3"@ {
        Some("terran/infantry_weapons_3.png"@)
    } else if name == "TerranInfantryArmorsLevel1"@ {
        Some("terran/infantry_armor_1.png"@)
    } else if name == "TerranInfantryArmorsLevel2"@ {
        Some("terran/infantry_armor_2.png"@)
    } else if name == "TerranInfantryArmorsLevel3"@ {
        Some("terran/infantry_armor_3.png"@)
    } else if name == "TerranVehicleWeaponsLevel1"@ {
        Some("terran/vehicle_weapons_1.png"@)
    } else if name == "TerranVehicleWeaponsLevel2"@ {
        Some("terran/vehicle_weapons_2.png"@)
    } else if name == "TerranVehicleWeaponsLevel3"@ {
        Some("terran/vehicle_weapons_3.png"@)
    } else if (name == "TerranVehicleAndShipArmorsLevel1"@ || name == "TerranVehicleAndShipPlatingLevel1"@) {
        Some("terran/vehicle_and_ship_plating_1.png"@)
    } else if (name == "TerranVehicleAndShipArmorsLevel2"@ || name == "TerranVehicleAndShipPlatingLevel2"@) {
        Some("terran/vehicle_and_ship_plating_2.png"@)
    } else if (name == "TerranVehicleAndShipArmorsLevel3"@ || name == "TerranVehicleAndShipPlatingLevel3"@) {
        Some("terran/vehicle_and_ship_plating_3.png"@)
    } else if name == "TerranShipWeaponsLevel1"@ {
        Some("terran/ship_weapons_1.png"@)
    } else if name == "TerranShipWeaponsLevel2"@ {
        Some("terran/ship_weapons_2.png"@)
    } else if name == "TerranShipWeaponsLevel3"@ {
        Some("terran/ship_weapons_3.png"@)
    } else {
        None
    }
}

/// Icon file of a Terran unit or upgrade (relative to the icon
/// directory), if it has one.
pub fn terran_icon_file(name: &str) -> (r: Option<&'static str>)
    ensures
        match r {
            Some(f) => terran_icon_file_spec(name@) == Some(f@),
            None => terran_icon_file_spec(name@) is None,
        },
{
    if str_eq(name, "Marine") {
        Some("terran/marine.png")
    } else if str_eq(name, "Marauder") {
        Some("terran/marauder.png")
    } else if str_eq(name, "Reaper") {
        Some("terran/reaper.png")
    } else if str_eq(name, "Ghost") {
        Some("terran/ghost.png")
    } else if str_eq(name, "Hellion") {
        Some("terran/hellion.png")
    } else if str_eq(name, "Hellbat") || str_eq(name, "HellionTank") {
        Some("terran/hellbat.png")
    } else if str_eq(name, "SiegeTank") || str_eq(name, "SiegeTankSieged") {
        Some("terran/siege_tank.png")
    } else if str_eq(name, "Thor") || str_eq(name, "ThorAP") {
        Some("terran/thor.png")
    } else if str_eq(name, "Battlecruiser") {
        Some("terran/battlecruiser.png")
    } else if str_eq(name, "Banshee") {
        Some("terran/banshee.png")
    } else if str_eq(name, "Raven") {
        Some("terran/raven.png")
    } else if str_eq(name, "Liberator") || str_eq(name, "LiberatorAG") {
        Some("terran/liberator.png")
    } else if str_eq(name, "VikingFighter") || str_eq(name, "VikingAssault") {
        Some("terran/viking.png")
    } else if str_eq(name, "Medivac") {
        Some("terran/medivac.png")
    } else if str_eq(name, "Cyclone") {
        Some("terran/cyclone.png")
    } else if str_eq(name, "WidowMine") || str_eq(name, "WidowMineBurrowed") {
        Some("terran/widow_mine.png")
    } else if str_eq(name, "SCV") {
        Some("terran/scv.png")
    } else if str_eq(name, "MULE") || str_eq(name, "Mule") {
        Some("terran/mule.png")
    } else if str_eq(name, "AutoTurret") {
        Some("terran/auto_turret.png")
    } else if str_eq(name, "PointDefenseDrone") {
        Some("terran/point_defense_drone.png")
    } else if str_eq(name, "TerranInfantryWeaponsLevel1") {
        Some("terran/infantry_weapons_1.png")
    } else if str_eq(name, "TerranInfantryWeaponsLevel2") {
        Some("terran/infantry_weapons_2.png")
    } else if str_eq(name, "TerranInfantryWeaponsLevel3") {
        Some("terran/infantry_weapons_3.png")
    } else if str_eq(name, "TerranInfantryArmorsLevel1") {
        Some("terran/infantry_armor_1.png")
    } else if str_eq(name, "TerranInfantryArmorsLevel2") {
        Some("terran/infantry_armor_2.png")
    } else if str_eq(name, "TerranInfantryArmorsLevel3") {
        Some("terran/infantry_armor_3.png")
    } else if str_eq(name, "TerranVehicleWeaponsLevel1") {
        Some("terran/vehicle_weapons_1.png")
    } else if str_eq(name, "TerranVehicleWeaponsLevel2") {
        Some("terran/vehicle_weapons_2.png")
    } else if str_eq(name, "TerranVehicleWeaponsLevel3") {
        Some("terran/vehicle_weapons_3.png")
    } else if str_eq(name, "TerranVehicleAndShipArmorsLevel1") || str_eq(name, "TerranVehicleAndShipPlatingLevel1") {
        Some("terran/vehicle_and_ship_plating_1.png")
    } else if str_eq(name, "TerranVehicleAndShipArmorsLevel2") || str_eq(name, "TerranVehicleAndShipPlatingLevel2") {
        Some("terran/vehicle_and_ship_plating_2.png")
    } else if str_eq(name, "TerranVehicleAndShipArmorsLevel3") || str_eq(name, "TerranVehicleAndShipPlatingLevel3") {
        Some("terran/vehicle_and_ship_plating_3.png")
    } else if str_eq(name, "TerranShipWeaponsLevel1") {
        Some("terran/ship_weapons_1.png")
    } else if str_eq(name, "TerranShipWeaponsLevel2") {
        Some("terran/ship_weapons_2.png")
    } else if str_eq(name, "TerranShipWeaponsLevel3") {
        Some("terran/ship_weapons_3.png")
    } else {
        None
    }
}


/// ASCII letter.
pub open spec fn is_ascii_alpha(c: char) -> bool {
    ('a' <= c && c <= 'z') || ('A' <= c && c <= 'Z')
}

/// ASCII upper case of a letter; other characters unchanged.
pub open spec fn ascii_upper(c: char) -> char {
    if 'a' <= c && c <= 'z' {
        ((c as u32) - 32) as char
    } else {
        c
    }
}

/// The ASCII letters of `s`, upper-cased, in order.
pub open spec fn alpha_upper(s: Seq<char>) -> Seq<char>
    decreases s.len(),
{
    if s.len() == 0 {
        Seq::empty()
    } else {
        let prev = alpha_upper(s.drop_last());
        if is_ascii_alpha(s.last()) {
            prev.push(ascii_upper(s.last()))
        } else {
            prev
        }
    }
}

/// At most the first three characters of `s`.
pub open spec fn first_three(s: Seq<char>) -> Seq<char> {
    if s.len() <= 3 {
        s
    } else {
        s.subrange(0, 3)
    }
}

/// Abbreviation of a unit type: its fixed one, else its first three ASCII
/// letters upper-cased.
pub open spec fn unit_abbrev_spec(name: Seq<char>) -> Seq<char> {
    match known_unit_abbrev_spec(name) {
        Some(a) => a,
        None => first_three(alpha_upper(name)),
    }
}

/// Three-letter abbreviation of a unit type, the text fallback for types
/// without a sprite; unknown types use their first three ASCII letters,
/// upper-cased.
pub fn unit_abbrev(entity_type: &str) -> (r: String)
    ensures
        r@ == unit_abbrev_spec(entity_type@),
        r@.len() <= 3,
        known_unit_abbrev_spec(entity_type@) is Some ==> r@.len() == 3,
{
    match known_unit_abbrev(entity_type) {
        Some(a) => a.to_owned(),
        None => {
            let mut out = String::new();
            let n = entity_type.unicode_len();
            let mut i: usize = 0;
            while i < n
                invariant
                    i <= n,
                    n == entity_type@.len(),
                    out@ == first_three(alpha_upper(entity_type@.subrange(0, i as int))),
                decreases n - i,
            {
                let c = entity_type.get_char(i);
                let ghost pre = entity_type@.subrange(0, i as int);
                assert(entity_type@.subrange(0, i + 1).drop_last() =~= pre);
                assert(entity_type@.subrange(0, i + 1).last() == c);
                if ('a' <= c && c <= 'z') || ('A' <= c && c <= 'Z') {
                    if out.unicode_len() < 3 {
                        let u = if 'a' <= c && c <= 'z' {
                            char_upper(c)
                        } else {
                            c
                        };
                        crate::text::push_char(&mut out, u);
                    }
                }
                i = i + 1;
                assert(out@ =~= first_three(alpha_upper(entity_type@.subrange(0, i as int))));
            }
            assert(entity_type@.subrange(0, n as int) =~= entity_type@);
            out
        },
    }
}

/// Upper case of a lower-case ASCII letter.
fn char_upper(c: char) -> (r: char)
    requires
        'a' <= c <= 'z',
    ensures
        r == ascii_upper(c),
{
    let v = (c as u32) - 32;
    assert(0x41 <= v <= 0x5a);
    char_from_ascii(v as u8)
}

/// The character of an ASCII code.
fn char_from_ascii(b: u8) -> (r: char)
    requires
        b < 128,
    ensures
        r == (b as char),
        r as u32 == b as u32,
{
    b as char
}

/// Main-base structures, morphs included (Lair, Hive, Orbital, Fortress).
pub open spec fn is_base_type_spec(name: Seq<char>) -> bool {
    name == "CommandCenter"@ || name == "OrbitalCommand"@ || name == "PlanetaryFortress"@ || name
        == "Nexus"@ || name == "Hatchery"@ || name == "Lair"@ || name == "Hive"@
}

/// Main-base structure types (townhalls and their morphs).
pub fn is_base_type(name: &str) -> (r: bool)
    ensures
        r == is_base_type_spec(name@),
{
    str_eq(name, "CommandCenter") || str_eq(name, "OrbitalCommand") || str_eq(name, "PlanetaryFortress")
        || str_eq(name, "Nexus") || str_eq(name, "Hatchery") || str_eq(name, "Lair") || str_eq(name, "Hive")
}

/// Leveled upgrades (attack/armor levels 1 to 3).
pub fn is_level_upgrade_name(name: &str) -> (r: bool)
    ensures
        r == (has_suffix(name@, "Level1"@) || has_suffix(name@, "Level2"@) || has_suffix(name@, "Level3"@)),
{
    str_ends_with(name, "Level1") || str_ends_with(name, "Level2") || str_ends_with(name, "Level3")
}

/// Icon file of an action for a race: Terran has icons, other races none.
pub open spec fn icon_file_spec(race: Seq<char>, action: Seq<char>) -> Option<Seq<char>> {
    if eq_ignore_ascii_case_spec(race, "Terran"@) {
        terran_icon_file_spec(action)
    } else {
        None
    }
}

/// Icon file of `action` (a unit or upgrade name) for `race`, if any.
pub fn icon_file(race: &str, action: &str) -> (r: Option<&'static str>)
    ensures
        match r {
            Some(f) => icon_file_spec(race@, action@) == Some(f@),
            None => icon_file_spec(race@, action@) is None,
        },
{
    if str_eq_ignore_ascii_case(race, "Terran") {
        terran_icon_file(action)
    } else {
        None
    }
}

} // verus!
