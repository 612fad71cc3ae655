use sc2_replay_utils::units::{
    icon_file, is_base_type, is_level_upgrade_name, known_unit_abbrev, structure_abbrev, structure_canonical,
    structure_icon_file, terran_icon_file, unit_abbrev, unit_canonical, unit_icon_file,
};

#[test]
fn unit_canonical_folds_state_variants() {
    assert_eq!(unit_canonical("SiegeTank"), "SiegeTank");
    assert_eq!(unit_canonical("SiegeTankSieged"), "SiegeTank");
    assert_eq!(unit_canonical("GhostAlternate"), "Ghost");
    assert_eq!(unit_canonical("LurkerMPEgg"), "LurkerMP");
    assert_eq!(unit_canonical("Locust"), "LocustMP");
    assert_eq!(unit_canonical("ChangelingZerglingWings"), "Changeling");
    assert_eq!(unit_canonical("OverlordTransport"), "Overlord");
    assert_eq!(unit_canonical("Hellbat"), "");
    assert_eq!(unit_canonical("Beacon"), "");
}

#[test]
fn unit_canonical_is_idempotent_on_known_units() {
    for name in ["Marine", "SiegeTankSieged", "ThorAP", "AdeptPhaseShift", "BroodLordCocoon", "LocustMPFlying"] {
        let c = unit_canonical(name);
        assert_eq!(unit_canonical(c), c);
    }
}

#[test]
fn unit_abbrev_fixed_and_fallback() {
    assert_eq!(unit_abbrev("Marine"), "MAR");
    assert_eq!(unit_abbrev("SiegeTankSieged"), "TNK");
    assert_eq!(unit_abbrev("Battlecruiser"), "BCR");
    assert_eq!(unit_abbrev("ChangelingMarine"), "CHG");
    assert_eq!(unit_abbrev("Beacon"), "BEA");
    assert_eq!(unit_abbrev("x1-y"), "XY");
    assert_eq!(unit_abbrev("42"), "");
    assert_eq!(known_unit_abbrev("Zergling"), Some("ZGL"));
    assert_eq!(known_unit_abbrev("Beacon"), None);
}

#[test]
fn structure_canonical_and_abbrev() {
    assert_eq!(structure_canonical("CommandCenterFlying"), "CommandCenter");
    assert_eq!(structure_canonical("SupplyDepotLowered"), "SupplyDepot");
    assert_eq!(structure_canonical("WarpGate"), "WarpGate");
    assert_eq!(structure_canonical("CreepTumor"), "");
    assert_eq!(structure_abbrev("CommandCenter"), "CC");
    assert_eq!(structure_abbrev("ShieldBattery"), "SB");
    assert_eq!(structure_abbrev("Unknown"), "STR");
}

#[test]
fn sprite_files() {
    assert_eq!(unit_icon_file("SiegeTankSieged"), Some("units/terran/SiegeTank.png"));
    assert_eq!(unit_icon_file("Egg"), Some("units/zerg/Cocoon.png"));
    assert_eq!(unit_icon_file("Interceptor"), None);
    assert_eq!(unit_icon_file("Larva"), None);
    assert_eq!(unit_icon_file("ChangelingZealot"), None);
    assert_eq!(unit_icon_file("Broodling"), None);
    assert_eq!(unit_icon_file("LocustMPFlying"), None);
    assert_eq!(structure_icon_file("FactoryTechLab"), Some("buildings/terran/TechLab.png"));
    assert_eq!(structure_icon_file("WarpGate"), Some("buildings/protoss/Gateway.png"));
    assert_eq!(structure_icon_file("Unknown"), None);
    assert_eq!(terran_icon_file("Hellbat"), Some("terran/hellbat.png"));
    assert_eq!(terran_icon_file("TerranVehicleAndShipPlatingLevel2"), Some("terran/vehicle_and_ship_plating_2.png"));
    assert_eq!(terran_icon_file("Zealot"), None);
    assert_eq!(icon_file("terran", "Marine"), Some("terran/marine.png"));
    assert_eq!(icon_file("TERRAN", "Mule"), Some("terran/mule.png"));
    assert_eq!(icon_file("Protoss", "Marine"), None);
}

#[test]
fn base_types_and_level_upgrades() {
    assert!(is_base_type("OrbitalCommand"));
    assert!(is_base_type("Hive"));
    assert!(!is_base_type("Barracks"));
    assert!(is_level_upgrade_name("TerranInfantryWeaponsLevel2"));
    assert!(!is_level_upgrade_name("Stimpack"));
    assert!(!is_level_upgrade_name("Level4"));
}

#[test]
fn fixed_unit_abbreviations_have_three_letters() {
    for name in [
        "Battlecruiser", "HighTemplar", "DarkTemplar", "VoidRay", "Mothership", "BroodLord",
        "SwarmHostMP", "Marine", "Larva",
    ] {
        let a = known_unit_abbrev(name).unwrap();
        assert_eq!(a.chars().count(), 3, "{name}");
        assert_eq!(unit_abbrev(name), a);
    }
    assert_eq!(unit_abbrev("HighTemplar"), "HTP");
    assert_eq!(unit_abbrev("x1"), "X");
}

#[test]
fn abbreviation_is_unchanged_by_canonicalisation() {
    for name in ["SiegeTankSieged", "ChangelingZerglingWings", "LurkerMPEgg", "WarpPrismPhasing", "Marine", "x1z"] {
        let c = unit_canonical(name);
        if c.is_empty() {
            assert_eq!(known_unit_abbrev(name), None);
            let fallback: String =
                name.chars().filter(|c| c.is_ascii_alphabetic()).take(3).collect::<String>().to_uppercase();
            assert_eq!(unit_abbrev(name), fallback);
        } else {
            assert_eq!(unit_abbrev(c), unit_abbrev(name), "{name}");
        }
    }
}
