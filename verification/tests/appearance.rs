use open_rts::appearance::{FactionIdentityMarker, ProceduralEntityModel};
use open_rts::lobby::Faction;

#[test]
fn procedural_models_exist_for_mines_and_fences_only() {
    assert_eq!(ProceduralEntityModel::for_entity_id("LandMine"), Some(ProceduralEntityModel::LandMine));
    assert_eq!(ProceduralEntityModel::for_entity_id("TeslaFenceSegment"), Some(ProceduralEntityModel::TeslaFenceSegment));
    assert_eq!(ProceduralEntityModel::for_entity_id("landmine"), None);
    assert_eq!(ProceduralEntityModel::for_entity_id("Harvester"), None);
    assert_eq!(ProceduralEntityModel::LandMine.part_count(), 2);
    assert_eq!(ProceduralEntityModel::TeslaFenceSegment.part_count(), 7);
}

#[test]
fn each_faction_shows_its_own_marker() {
    assert_eq!(FactionIdentityMarker::for_faction(Faction::Alliance), FactionIdentityMarker::Human);
    assert_eq!(FactionIdentityMarker::for_faction(Faction::Demon), FactionIdentityMarker::Demon);
    assert_eq!(FactionIdentityMarker::for_faction(Faction::Chaos), FactionIdentityMarker::Chaos);
    assert_eq!(FactionIdentityMarker::Demon.part_count(), 3);
    assert_eq!(FactionIdentityMarker::Human.part_count(), 2);
}
