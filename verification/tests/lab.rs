//! The fluids laboratory, the survey grid, the game session, time control and saves.

use planetfall_engineer::data::GameConfig;
use planetfall_engineer::lab::{lab_bays, FluidsLab, LAB_HEIGHT, LAB_WIDTH};
use planetfall_engineer::mission::progress::CampaignProgress;
use planetfall_engineer::mission::state::MissionState;
use planetfall_engineer::mission::MissionId;
use planetfall_engineer::content::ContentRegistry;
use planetfall_engineer::simulation::SimulationWorld;
use planetfall_engineer::state::{check_save, CellPos, GameSession, SaveData, TimeControl, WorldState, SAVE_SCHEMA_VERSION};

fn active_and_reserved() -> (usize, usize) {
    let bays = lab_bays();
    (bays.iter().filter(|bay| bay.fluid.is_some()).count(), bays.iter().filter(|bay| bay.fluid.is_none()).count())
}

#[test]
fn verification_lab_has_four_active_and_five_reserved_bays() {
    assert_eq!(active_and_reserved(), (4, 5));
}

#[test]
fn tests_lab_has_four_active_and_five_reserved_bays() {
    let bays = lab_bays();
    assert_eq!(bays.iter().filter(|bay| bay.fluid.is_some()).count(), 4);
    assert_eq!(bays.iter().filter(|bay| bay.fluid.is_none()).count(), 5);
}

#[test]
fn verification_lab_automatic_scenario_passes() {
    let report = FluidsLab::new().automatic_scenario();
    assert!(report.passed, "{report:?}");
    assert!(report.reaction_events > 0);
}

#[test]
fn tests_lab_automatic_scenario_passes() {
    let report = FluidsLab::new().automatic_scenario();
    assert!(report.passed, "{report:?}");
    assert!(report.reaction_events > 0);
    assert_eq!(report.tick, 300);
    assert_eq!(report.active_bays, 4);
    assert!(report.mass_balance_ok);
    assert!(report.reserved_bays_empty);
}

#[test]
fn verification_lab_replay_hash_is_stable() {
    let first = FluidsLab::new().automatic_scenario();
    let second = FluidsLab::new().automatic_scenario();
    assert_eq!(first, second);
}

#[test]
fn tests_lab_replay_hash_is_stable() {
    let mut lab = FluidsLab::new();
    let first = lab.automatic_scenario();
    let second = lab.automatic_scenario();
    assert_eq!(first, second);
    assert_eq!(first.state_hash, lab.world.fingerprint());
}

#[test]
fn verification_reset_restores_initial_hash() {
    let mut lab = FluidsLab::new();
    let initial = lab.world.fingerprint();
    lab.world.tick();
    assert_ne!(lab.world.fingerprint(), initial);
    lab.reset();
    assert_eq!(lab.world.fingerprint(), initial);
}

#[test]
fn tests_reset_restores_initial_hash() {
    let mut lab = FluidsLab::new();
    let initial = lab.world.fingerprint();
    lab.world.tick();
    lab.reset();
    assert_eq!(lab.world.fingerprint(), initial);
}

#[test]
fn lab_world_has_the_lab_size_and_a_dry_reserved_bay() {
    let lab = FluidsLab::new();
    assert_eq!((lab.world.width, lab.world.height), (LAB_WIDTH, LAB_HEIGHT));
    assert_eq!(lab.world.mass_balance_error(), 0);
    let reserved = lab_bays()[1];
    let cell = &lab.world.cells[lab.world.index(reserved.origin).unwrap()];
    assert_eq!(cell.surface_volume(), 0);
    let water = lab_bays()[0].origin;
    let pour = CellPos { x: water.x + 1, y: water.y + 1 };
    assert!(lab.world.cells[lab.world.index(pour).unwrap()].surface_volume() > 0);
}

#[test]
fn state_row_major_coordinates_are_stable() {
    let w = WorldState::new(8, 8);
    assert_eq!(w.index(CellPos { x: 2, y: 3 }), Some(26));
    assert!(w.index(CellPos { x: 8, y: 0 }).is_none());
}

#[test]
fn tests_row_major_coordinates_are_stable() {
    let w = WorldState::new(8, 8);
    assert_eq!(w.index(CellPos { x: 2, y: 3 }), Some(26));
    assert!(w.index(CellPos { x: 8, y: 0 }).is_none());
}

#[test]
fn time_controls_multiply_the_tick_rate() {
    let speeds: Vec<u64> = [TimeControl::Paused, TimeControl::OneX, TimeControl::TwoX, TimeControl::FourX]
        .into_iter()
        .map(TimeControl::multiplier)
        .collect();
    assert_eq!(speeds, vec![0, 1, 2, 4]);
}

fn config(width: usize, height: usize) -> GameConfig {
    GameConfig {
        game_name: "test".into(),
        display_name: "Test".into(),
        save_slot: "test".into(),
        version: "1".into(),
        world_width: width,
        world_height: height,
    }
}

fn empty_content() -> ContentRegistry {
    ContentRegistry {
        schema_version: 2,
        content_version: "1.2.0".into(),
        fluids: Vec::new(),
        devices: Vec::new(),
        missions: Vec::new(),
        tutorials: Vec::new(),
        maps: Vec::new(),
    }
}

fn session() -> GameSession {
    GameSession::new(&config(8, 8), &empty_content())
}

fn save() -> SaveData {
    SaveData {
        schema_version: SAVE_SCHEMA_VERSION,
        version: "1".into(),
        tick: 0,
        world: WorldState::new(8, 8),
        simulation: SimulationWorld::new(8, 8),
        selected: CellPos { x: 0, y: 0 },
        mission: MissionState::new(MissionId::L02HoldingLine, &empty_content()),
        campaign: CampaignProgress::default(),
    }
}

#[test]
fn save_dimensions_must_match_the_configured_grid() {
    assert_eq!(check_save(&save(), &config(8, 8)), Ok(()));
    assert_eq!(check_save(&save(), &config(8, 9)), Err("Save world dimensions do not match content".to_string()));
    let mut other = save();
    other.simulation = SimulationWorld::new(9, 8);
    assert_eq!(check_save(&other, &config(8, 8)), Err("Save world dimensions do not match content".to_string()));
}

#[test]
fn future_schema_is_rejected_with_recovery_message() {
    let mut future = session().to_save("1");
    future.schema_version = SAVE_SCHEMA_VERSION + 1;
    let error = check_save(&future, &config(8, 8)).unwrap_err();
    assert!(error.contains("unsupported"));
    assert_eq!(error, "Save schema version 4 is unsupported; this build reads version 3 or older");
}

#[test]
fn mismatched_content_version_is_rejected() {
    let old = session().to_save("0.9.0");
    let error = check_save(&old, &config(8, 8)).unwrap_err();
    assert!(error.contains("content version"));
    assert_eq!(error, "Save content version 0.9.0 does not match the installed content version 1");
}

fn partitioned_hashes() -> (u64, u64) {
    let mut a = session();
    let mut b = session();
    a.time_control = TimeControl::OneX;
    b.time_control = TimeControl::OneX;
    for _ in 0..10 {
        a.update(100_000);
    }
    b.update(250_000);
    b.update(250_000);
    b.update(500_000);
    assert_eq!(a.tick, 10);
    (a.state_hash(), b.state_hash())
}

#[test]
fn state_partitioning_does_not_change_tick_hash() {
    let (a, b) = partitioned_hashes();
    assert_eq!(a, b);
}

#[test]
fn tests_partitioning_does_not_change_tick_hash() {
    let (a, b) = partitioned_hashes();
    assert_eq!(a, b);
}

#[test]
fn state_paused_session_does_not_tick() {
    let mut s = session();
    s.update(10_000_000);
    assert_eq!(s.tick, 0);
}

#[test]
fn tests_paused_session_does_not_tick() {
    let mut s = session();
    assert_eq!(s.update(10_000_000), 0);
    assert_eq!(s.tick, 0);
    assert_eq!(s.accumulator_us, 0);
}

#[test]
fn a_frame_runs_at_most_eight_ticks() {
    let mut s = session();
    s.time_control = TimeControl::FourX;
    assert_eq!(s.update(1_000_000), 8);
    assert_eq!(s.accumulator_us, 4_000_000 - 800_000);
    assert_eq!(s.tick, 8);
    assert_eq!(s.simulation.tick, 8);
}

fn round_trip() {
    let mut s = session();
    s.tick();
    s.mission.on_tick(&s.simulation);
    s.mission.checkpoint();
    s.campaign.record_success(MissionId::L01FirstFlow, 700);
    let save = s.to_save("1");
    let restored = GameSession::from_save(save);
    assert_eq!(restored.state_hash(), s.state_hash());
    assert_eq!(restored.mission.checkpoint_tick, 1);
    assert_eq!(restored.campaign.best_ticks[0], Some(700));
}

#[test]
fn state_save_round_trip_is_exact() {
    round_trip();
}

#[test]
fn tests_save_round_trip_is_exact() {
    round_trip();
}

#[test]
fn selection_moves_within_the_grid() {
    let mut s = session();
    assert_eq!(s.selected, CellPos { x: 4, y: 4 });
    s.move_selected(10, -2);
    assert_eq!(s.selected, CellPos { x: 7, y: 2 });
    s.move_selected(-20, -20);
    assert_eq!(s.selected, CellPos { x: 0, y: 0 });
}

#[test]
fn session_tick_copies_simulation_terrain_to_the_survey() {
    let mut s = session();
    s.simulation.cells[9].height_hu = 1_750;
    s.tick();
    assert_eq!(s.world.cells[9].height_hu, 1_750);
    assert_eq!(s.world.cells[0].height_hu, s.simulation.cells[0].height_hu);
}

#[test]
fn selection_readout_describes_the_selected_cell() {
    let s = session();
    let lines: Vec<String> = planetfall_engineer::game::readout::selection_readout(&s, &empty_content())
        .into_iter()
        .map(|l| l.into_iter().collect())
        .collect();
    assert_eq!(lines.len(), 9);
    assert_eq!(lines[0], "Map 8×8");
    assert!(lines[1].starts_with("Progress 0  STAB 0/0"), "{}", lines[1]);
    assert!(lines[3].starts_with("ALERT "));
    assert_eq!(lines[5], "Depth 0 vU  Heat 2930 dK".replace("2930", &s.simulation.definitions[0].ambient_temperature_dk.to_string()));
    assert_eq!(lines[6], "Ground 0 bp");
    assert_eq!(lines[7], "Device none");
    assert_eq!(lines[8], "Deposit none");
}

#[test]
fn verification_readout_names_the_map_and_tick() {
    let s = session();
    let lines: Vec<String> = planetfall_engineer::game::readout::verification_readout(&s, &empty_content(), "Fluids lab")
        .into_iter()
        .map(|l| l.into_iter().collect())
        .collect();
    assert_eq!(lines.len(), 8);
    assert_eq!(lines[0], "Map 8×8");
    assert_eq!(lines[1], format!("Fluids lab tick {}", s.simulation.tick));
    assert!(lines[2].starts_with("ALERT "));
    assert_eq!(lines[5], "Ground 0 bp");
    assert_eq!(lines[6], "Device none");
    assert_eq!(lines[7], "Deposit none");
}
