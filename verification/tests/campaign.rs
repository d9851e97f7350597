//! Content registry, campaign maps, missions, the first tutorial and campaign progress.

use planetfall_engineer::campaign::author::author_l03;
use planetfall_engineer::campaign::{apply_scheduled_events, load_campaign};
use planetfall_engineer::content::{
    ContentRegistry, DepositRecord, DeviceRecord, FluidRecord, MapRecord, MissionRecord, PowerSourceRecord,
    TutorialRecord,
};
use planetfall_engineer::devices::DeviceId;
use planetfall_engineer::mission::progress::{campaign_summary, CampaignProgress};
use planetfall_engineer::mission::state::MissionState;
use planetfall_engineer::mission::{Admission, AlertLevel, CommandKind, MissionId, MissionPhase};
use planetfall_engineer::replay::{run_all_scenarios, run_scenario, scenario_passes, ScenarioKind};
use planetfall_engineer::simulation::{FluidId, SimulationWorld, TerrainAction};
use planetfall_engineer::state::CellPos;

const L01_STEPS: [&str; 14] = [
    "tutorial_l01_welcome",
    "tutorial_l01_move_camera",
    "tutorial_l01_move_cursor",
    "tutorial_l01_inspect_grade",
    "tutorial_l01_pause_plan",
    "tutorial_l01_raise_first",
    "tutorial_l01_raise_remaining",
    "tutorial_l01_select_deposit",
    "tutorial_l01_recover_deposit",
    "tutorial_l01_place_channel",
    "tutorial_l01_run_and_observe",
    "tutorial_l01_beacon_warning",
    "tutorial_l01_open_gate",
    "tutorial_l01_stabilize",
];

fn map(id: &str, kind: &str, width: u16, height: u16) -> MapRecord {
    MapRecord { id: id.into(), kind: kind.into(), width, height }
}

fn power_class_name(device: DeviceId) -> Option<String> {
    match device {
        DeviceId::Reservoir | DeviceId::Sensor => Some("safety".into()),
        DeviceId::Pump => Some("transport".into()),
        DeviceId::Filter => Some("process".into()),
        DeviceId::RuneRelay => Some("interface".into()),
        _ => None,
    }
}

#[allow(clippy::too_many_arguments)]
fn mission(
    id: &str,
    map_id: &str,
    sequence: u8,
    title: &str,
    fabrication_start_fu: u32,
    objective: (u32, u32, u32, u32),
    alerts: (u64, u64),
    hazard: (u32, &str),
    reference: (u64, u64),
    source_rate_vu: u32,
    surge: (Option<u64>, Option<u64>, u32),
) -> MissionRecord {
    MissionRecord {
        id: id.into(),
        map_id: map_id.into(),
        sequence,
        title: title.into(),
        fabrication_start_fu,
        deposits: Vec::new(),
        power_sources: Vec::new(),
        briefing: format!("{title} briefing"),
        objective: format!("{title} objective"),
        objective_min_vu: objective.0,
        objective_max_vu: objective.1,
        stability_ticks: objective.2,
        failure_ticks: objective.3,
        advisory_tick: alerts.0,
        warning_tick: alerts.1,
        hazard_threshold_vu: hazard.0,
        hazard_reason: hazard.1.into(),
        reference_tick_min: reference.0,
        reference_tick_max: reference.1,
        source_rate_vu,
        surge_start_tick: surge.0,
        surge_end_tick: surge.1,
        surge_rate_vu: surge.2,
    }
}

/// A complete slice registry: four fluids, the ten devices with their showcase
/// maps, the laboratory, the three campaign missions and maps, and the first
/// mission's tutorial.
fn registry() -> ContentRegistry {
    let fluids = ["water", "lava", "steam", "toxic_slurry"]
        .into_iter()
        .map(|id| FluidRecord { id: id.into(), enabled: true })
        .collect();
    let devices = DeviceId::ALL
        .into_iter()
        .map(|device| DeviceRecord {
            id: device.name().into(),
            showcase_map_id: format!("device_{}", device.name()),
            fabrication_cost_fu: device.cost(),
            power_demand_eu_per_tick: device.power_demand_eu(),
            power_class: power_class_name(device),
            asset_id: format!("device_{}_sprite", device.name()),
        })
        .collect();
    let mut l01 = mission(
        "campaign_l01_first_flow",
        "campaign_l01",
        1,
        "First Flow",
        40,
        (4_000, 6_000, 60, 5),
        (0, 0),
        (1_000, "protected beacon flooded"),
        (900, 1_400),
        20,
        (None, None, 0),
    );
    l01.deposits.push(DepositRecord {
        id: "l01_scrap".into(),
        position: [10, 4],
        yield_fu: 20,
        asset_id: "deposit_scrap".into(),
    });
    let mut l02 = mission(
        "campaign_l02_holding_line",
        "campaign_l02",
        2,
        "Holding Line",
        105,
        (0, 9_000, 100, 5),
        (600, 800),
        (1_000, "survey camp flooded"),
        (1_400, 2_000),
        100,
        (Some(900), Some(1_200), 400),
    );
    l02.power_sources.push(PowerSourceRecord {
        id: "l02_generator".into(),
        position: [3, 3],
        output_eu_per_tick: 6,
        enabled: true,
        asset_id: "generator".into(),
    });
    let l03 = mission(
        "campaign_l03_firebreak",
        "campaign_l03",
        3,
        "Firebreak",
        160,
        (1_500, 10_000, 100, 20),
        (300, 0),
        (0, "lava reached the works"),
        (1_200, 2_000),
        100,
        (Some(1_000), Some(1_250), 220),
    );
    let mut maps = vec![
        map("campaign_l01", "campaign", 32, 20),
        map("campaign_l02", "campaign", 40, 24),
        map("campaign_l03", "campaign", 48, 30),
        map("fluids_lab", "fluid_lab", 64, 48),
    ];
    for device in DeviceId::ALL {
        maps.push(map(&format!("device_{}", device.name()), "device_showcase", 24, 16));
    }
    ContentRegistry {
        schema_version: 2,
        content_version: "1.2.0".into(),
        fluids,
        devices,
        missions: vec![l01, l02, l03],
        tutorials: vec![TutorialRecord {
            id: "tutorial_l01".into(),
            steps: L01_STEPS.iter().map(|step| step.to_string()).collect(),
        }],
        maps,
    }
}

/// The registry with the first tutorial cut to the seven steps that the scripted
/// tutorial path walks through: welcome, camera, cursor, grade inspection, pause,
/// first barrier and deposit selection.
fn walkthrough_registry() -> ContentRegistry {
    let mut content = registry();
    let keep = [0, 1, 2, 3, 4, 5, 7];
    content.tutorials[0].steps = keep.iter().map(|&k| L01_STEPS[k].to_string()).collect();
    content
}

fn started(id: MissionId, content: &ContentRegistry) -> MissionState {
    let mut mission = MissionState::new(id, content);
    mission.start();
    mission
}

fn current_step(mission: &MissionState) -> String {
    mission.tutorial.as_ref().unwrap().current_step_id.clone()
}

fn zone_surface(world: &SimulationWorld, xs: std::ops::RangeInclusive<u16>, ys: std::ops::RangeInclusive<u16>) -> u32 {
    let mut total = 0;
    for x in xs {
        for y in ys.clone() {
            total += world.cells[world.index(CellPos { x, y }).unwrap()].surface_volume();
        }
    }
    total
}

#[test]
fn fixture_registry_validates() {
    assert_eq!(registry().validate(), Ok(()));
    assert_eq!(registry().maps.len(), 14);
}

#[test]
fn content_validator_reports_missing_showcase_and_duplicate_ids() {
    let mut registry = registry();
    registry.devices[0].showcase_map_id = "missing_map".into();
    registry.devices.push(registry.devices[0].clone());
    let errors = registry.validate().unwrap_err().join(" | ");
    assert!(errors.contains("missing showcase map"));
    assert!(errors.contains("duplicate id"));
}

#[test]
fn tests_validator_reports_missing_showcase_and_duplicate_ids() {
    let mut registry = registry();
    registry.devices[0].showcase_map_id = "missing_map".into();
    registry.devices.push(registry.devices[0].clone());
    let errors = registry.validate().unwrap_err().join(" | ");
    assert!(errors.contains("missing showcase map"));
    assert!(errors.contains("duplicate id"));
}

#[test]
fn validator_rejects_out_of_bounds_points_and_bad_schedule_balance() {
    let mut registry = registry();
    registry.missions[0].deposits[0].position = [32, 20];
    registry.missions[1].surge_end_tick = Some(800);
    let errors = registry.validate().unwrap_err().join(" | ");
    assert!(errors.contains("outside"));
    assert!(errors.contains("surge schedule"));
}

#[test]
fn validator_checks_power_sources_and_half_set_surges() {
    let mut content = registry();
    content.missions[1].power_sources[0].position = [3, 24];
    content.missions[2].surge_start_tick = None;
    let errors = content.validate().unwrap_err();
    assert_eq!(
        errors,
        vec![
            "mission campaign_l02_holding_line power source l02_generator: position outside map campaign_l02".to_string(),
            "mission campaign_l03_firebreak: surge schedule must set both ticks and start before it ends".to_string(),
        ]
    );
    let mut edge = registry();
    edge.missions[0].deposits[0].position = [31, 19];
    edge.missions[1].surge_end_tick = Some(901);
    assert_eq!(edge.validate(), Ok(()));
    edge.missions[1].surge_end_tick = Some(900);
    assert!(edge.validate().unwrap_err()[0].contains("surge schedule"));
}

#[test]
fn validator_names_each_broken_rule() {
    let mut content = registry();
    content.schema_version = 3;
    content.missions[2].sequence = 1;
    content.tutorials[0].steps.pop();
    content.maps[3].kind = "arena".into();
    let errors = content.validate().unwrap_err();
    assert!(errors.contains(&"schema_version: expected 2, got 3".to_string()));
    assert!(errors.iter().any(|e| e.starts_with("missions.sequence: expected 1, 2, 3")));
    assert!(errors.iter().any(|e| e.starts_with("tutorial tutorial_l01: expected 14")));
    assert!(errors.contains(&"map fluids_lab: unknown kind arena".to_string()));
}

#[test]
fn registry_lookups_find_the_first_record() {
    let content = registry();
    assert_eq!(content.mission("campaign_l02_holding_line").unwrap().fabrication_start_fu, 105);
    assert!(content.mission("campaign_l04").is_none());
    assert_eq!(content.map("fluids_lab").unwrap().width, 64);
    assert_eq!(content.tutorial("tutorial_l01").unwrap().steps.len(), 14);
}

#[test]
fn all_campaign_maps_have_authored_sizes_and_budget() {
    let content = registry();
    let maps: Vec<_> = MissionId::ALL.into_iter().map(|id| load_campaign(id, &content)).collect();
    assert_eq!((maps[0].world.width, maps[0].world.height), (32, 20));
    assert_eq!((maps[1].world.width, maps[1].world.height), (40, 24));
    assert_eq!((maps[2].world.width, maps[2].world.height), (48, 30));
    assert_eq!(maps.iter().map(|map| map.fabrication_start_fu).collect::<Vec<_>>(), vec![40, 105, 160]);
}

#[test]
fn l01_has_normative_protected_beacon_and_basin() {
    let map = load_campaign(MissionId::L01FirstFlow, &registry());
    assert!(map.world.definitions[map.world.index(CellPos { x: 24, y: 8 }).unwrap()].protected);
    assert!(map.world.cells[map.world.index(CellPos { x: 26, y: 7 }).unwrap()].sealed);
    assert!(map.world.cells[map.world.index(CellPos { x: 26, y: 7 }).unwrap()].contained);
    assert_eq!(map.reference_tick_range, (900, 1_400));
    assert_eq!(map.world.sources.len(), 1);
    assert_eq!(map.world.sources[0].position, CellPos { x: 2, y: 9 });
    assert_eq!(map.world.sources[0].rate_vu, 20);
    assert_eq!(map.world.definitions[map.world.index(CellPos { x: 8, y: 14 }).unwrap()].surface_drain_rate_vu, 800);
}

#[test]
fn l01_authors_three_runoff_cuts_and_a_far_side_dam() {
    let map = load_campaign(MissionId::L01FirstFlow, &registry());
    let height = |pos| map.world.cells[map.world.index(pos).unwrap()].height_hu;
    assert!(height(CellPos { x: 2, y: 9 }) > height(CellPos { x: 25, y: 9 }));
    for x in [8, 14, 20] {
        assert!(height(CellPos { x, y: 10 }) < height(CellPos { x, y: 9 }));
    }
    assert_eq!(height(CellPos { x: 28, y: 9 }), 600);
}

#[test]
fn l01_barriers_are_required_to_feed_the_far_side_dam() {
    let content = registry();
    let mut map = load_campaign(MissionId::L01FirstFlow, &content);
    map.world.set_sources_enabled(true);
    for _ in 0..1_200 {
        map.world.tick();
    }
    assert_eq!(zone_surface(&map.world, 26..=30, 7..=11), 0, "untouched runoff must never reach the dam");

    let mut solved = load_campaign(MissionId::L01FirstFlow, &content);
    for pos in [CellPos { x: 8, y: 10 }, CellPos { x: 14, y: 10 }, CellPos { x: 20, y: 10 }] {
        solved.world.terrain_edit(pos, TerrainAction::Raise).unwrap();
    }
    solved.world.set_sources_enabled(true);
    for _ in 0..1_200 {
        solved.world.tick();
    }
    let dam_water = zone_surface(&solved.world, 26..=30, 7..=11);
    assert!(dam_water >= 6_000, "three barriers must fill the far-side dam: {dam_water} vU");
}

#[test]
fn l03_authored_start_contains_cistern_water_and_lava_source() {
    let map = load_campaign(MissionId::L03Firebreak, &registry());
    let water = map
        .world
        .cells
        .iter()
        .flat_map(|cell| cell.surface.iter())
        .any(|entry| entry.fluid == FluidId::Water && entry.volume_vu >= 750);
    assert!(water);
    assert_eq!(map.world.sources.len(), 1);
    assert_eq!(map.world.sources[0].position, CellPos { x: 5, y: 15 });
    assert_eq!(map.world.sources[0].fluid, FluidId::Lava);
    assert_eq!(map.world.sources[0].rate_vu, 100);
}

#[test]
fn l02_has_no_hidden_objective_source() {
    let map = load_campaign(MissionId::L02HoldingLine, &registry());
    assert_eq!(map.world.sources.len(), 1);
    assert_eq!(map.world.sources[0].position, CellPos { x: 5, y: 16 });
    assert_eq!(map.world.sources[0].rate_vu, 100);
    assert!((31..=36)
        .all(|x| { (7..=9).all(|y| map.world.cells[map.world.index(CellPos { x, y }).unwrap()].contained) }));
}

#[test]
fn authored_l02_and_l03_maps_do_not_autocomplete_without_player_builds() {
    let content = registry();
    for id in [MissionId::L02HoldingLine, MissionId::L03Firebreak] {
        let mut map = load_campaign(id, &content);
        map.world.set_sources_enabled(true);
        let mut mission = started(id, &content);
        for _ in 0..2_200 {
            apply_scheduled_events(&mut map.world, id);
            map.world.tick();
            mission.on_tick(&map.world);
            if mission.phase != MissionPhase::Active {
                break;
            }
        }
        assert_ne!(mission.phase, MissionPhase::Success, "{id:?}: {mission:?}");
    }
}

#[test]
fn authored_source_surges_begin_and_end_on_schedule() {
    let mut map = load_campaign(MissionId::L02HoldingLine, &registry());
    assert_eq!(map.world.sources[0].rate_vu, 100);
    map.world.tick = 900;
    apply_scheduled_events(&mut map.world, MissionId::L02HoldingLine);
    assert_eq!(map.world.sources[0].rate_vu, 400);
    map.world.tick = 1_200;
    apply_scheduled_events(&mut map.world, MissionId::L02HoldingLine);
    assert_eq!(map.world.sources[0].rate_vu, 100);
}

#[test]
fn loaded_campaign_carries_the_authored_stock_deposits_and_power() {
    let content = registry();
    let l01 = load_campaign(MissionId::L01FirstFlow, &content);
    assert_eq!(l01.world.fabrication.available_fu, 40);
    assert_eq!(l01.world.deposits.len(), 1);
    assert_eq!(l01.world.deposits[0].position, CellPos { x: 10, y: 4 });
    assert_eq!(l01.world.deposits[0].yield_fu, 20);
    assert!(!l01.world.sources[0].enabled);
    assert_eq!(l01.world.mass_balance_error(), 0);
    let l02 = load_campaign(MissionId::L02HoldingLine, &content);
    assert_eq!(l02.world.power_sources.len(), 1);
    assert!(l02.world.power_sources[0].enabled);
    assert_eq!(l02.world.power_sources[0].output_eu_per_tick, 6);
}

#[test]
fn clean_campaign_unlocks_only_l01() {
    let progress = CampaignProgress::default();
    assert_eq!(progress.unlocked, [true, false, false]);
}

#[test]
fn tutorial_rejects_locked_state_changes_and_advances_on_events() {
    let mut mission = started(MissionId::L01FirstFlow, &registry());
    assert_eq!(mission.admit_command(CommandKind::QueueDevice(DeviceId::Channel)), Admission::TutorialLocked);
    assert_eq!(mission.admit_command(CommandKind::DismissPrompt), Admission::Accepted);
    assert_eq!(current_step(&mission), "tutorial_l01_move_camera");
}

#[test]
fn skip_completes_tutorial_without_mutating_budget() {
    let content = registry();
    let mut mission = started(MissionId::L01FirstFlow, &content);
    let before = mission.clone();
    assert_eq!(mission.skip_tutorial(), Admission::Accepted);
    assert!(mission.tutorial.as_ref().unwrap().is_complete());
    assert_eq!(mission.phase, before.phase);
    assert_eq!(mission.command_count, before.command_count);
    assert_eq!(mission.objective_progress, before.objective_progress);
    assert_eq!(mission.rules.objective_max_vu, before.rules.objective_max_vu);
    let map = load_campaign(MissionId::L01FirstFlow, &content);
    assert_eq!(map.world.fabrication.available_fu, 40);
}

#[test]
fn normal_tutorial_path_reaches_completion() {
    let mut mission = started(MissionId::L01FirstFlow, &walkthrough_registry());
    for (index, command) in [
        CommandKind::DismissPrompt,
        CommandKind::Camera,
        CommandKind::Select,
        CommandKind::Inspect,
        CommandKind::DismissPrompt,
        CommandKind::SetPaused,
        CommandKind::SelectTerrain,
        CommandKind::Select,
        CommandKind::SelectTerrain,
        CommandKind::Select,
        CommandKind::SelectTerrain,
        CommandKind::SetTimeRunning,
        CommandKind::SetTimeRunning,
    ]
    .into_iter()
    .enumerate()
    {
        assert_eq!(
            mission.admit_command(command),
            Admission::Accepted,
            "step {index} current {:?}",
            current_step(&mission)
        );
    }
    assert!(mission.tutorial.as_ref().unwrap().is_complete());
}

#[test]
fn inspection_explanation_requires_inspection_before_dismissal() {
    let mut mission = started(MissionId::L01FirstFlow, &registry());
    for command in [CommandKind::DismissPrompt, CommandKind::Camera, CommandKind::Select] {
        assert_eq!(mission.admit_command(command), Admission::Accepted);
    }
    assert_eq!(mission.admit_command(CommandKind::DismissPrompt), Admission::Accepted);
    assert_eq!(current_step(&mission), "tutorial_l01_inspect_grade");
    assert_eq!(mission.admit_command(CommandKind::Inspect), Admission::Accepted);
    assert_eq!(mission.admit_command(CommandKind::DismissPrompt), Admission::Accepted);
    assert_eq!(current_step(&mission), "tutorial_l01_pause_plan");
}

#[test]
fn commands_outside_an_active_mission_are_refused() {
    let content = registry();
    let mut briefing = MissionState::new(MissionId::L02HoldingLine, &content);
    assert_eq!(briefing.admit_command(CommandKind::Camera), Admission::MissionNotActive);
    assert_eq!(briefing.skip_tutorial(), Admission::MissionNotActive);
    let mut l02 = started(MissionId::L02HoldingLine, &content);
    assert_eq!(l02.admit_command(CommandKind::CommitPlan), Admission::Accepted);
    assert_eq!(l02.command_count, 1);
    l02.fail("manual abort".to_string());
    assert_eq!(l02.phase, MissionPhase::Failure);
    assert_eq!(l02.failure_reason.as_deref(), Some("manual abort"));
    assert_ne!(l02.admit_command(CommandKind::Camera), Admission::Accepted);
}

#[test]
fn success_requires_stability_and_terminal_state_stops_ticks() {
    let mut mission = started(MissionId::L01FirstFlow, &registry());
    let mut world = SimulationWorld::new(32, 20);
    world.inject(CellPos { x: 28, y: 9 }, FluidId::Water, 8_000);
    for _ in 0..100 {
        world.tick += 1;
        mission.on_tick(&world);
    }
    assert_eq!(mission.phase, MissionPhase::Success);
    let tick = mission.tick;
    mission.on_tick(&world);
    assert_eq!(mission.tick, tick);
}

#[test]
fn firebreak_progress_uses_formed_rock() {
    let mut mission = started(MissionId::L03Firebreak, &registry());
    let mut world = SimulationWorld::new(48, 30);
    let shelf = CellPos { x: 22, y: 14 };
    world.inject(shelf, FluidId::Water, 4_000);
    world.inject(shelf, FluidId::Lava, 4_000);
    world.tick();
    mission.on_tick(&world);
    assert!(mission.objective_progress >= 250);
    assert_eq!(mission.stability_ticks, 0);
}

#[test]
fn campaign_progress_ignores_material_outside_its_authored_zone() {
    let content = registry();
    let mut l01 = started(MissionId::L01FirstFlow, &content);
    let mut basin = SimulationWorld::new(32, 20);
    basin.inject(CellPos { x: 2, y: 2 }, FluidId::Water, 8_000);
    l01.on_tick(&basin);
    assert_eq!(l01.objective_progress, 0);

    let mut l03 = started(MissionId::L03Firebreak, &content);
    let mut caldera = SimulationWorld::new(48, 30);
    let outside = caldera.index(CellPos { x: 2, y: 2 }).unwrap();
    caldera.cells[outside].formed_rock_vu = 8_000;
    l03.on_tick(&caldera);
    assert_eq!(l03.objective_progress, 0);
}

#[test]
fn authored_hazard_fails_before_success() {
    let mut mission = started(MissionId::L01FirstFlow, &registry());
    let mut world = SimulationWorld::new(32, 20);
    let beacon = CellPos { x: 24, y: 8 };
    let index = world.index(beacon).unwrap();
    world.cells[index].sealed = true;
    world.inject(beacon, FluidId::Water, 1_500);
    for _ in 0..10 {
        mission.on_tick(&world);
    }
    assert_eq!(mission.phase, MissionPhase::Failure);
    assert_eq!(mission.failure_reason.as_deref(), Some("protected beacon flooded"));
}

#[test]
fn authored_alert_levels_escalate_before_failure() {
    let mut mission = started(MissionId::L02HoldingLine, &registry());
    let mut world = SimulationWorld::new(40, 24);
    world.tick = 600;
    mission.on_tick(&world);
    assert_eq!(mission.alert_level, AlertLevel::Advisory);
    world.tick = 800;
    mission.on_tick(&world);
    assert_eq!(mission.alert_level, AlertLevel::Warning);
    world.inject(CellPos { x: 26, y: 16 }, FluidId::Water, 1_500);
    mission.on_tick(&world);
    assert_eq!(mission.alert_level, AlertLevel::Critical);
    assert_eq!(AlertLevel::Critical.name(), "CRITICAL");
}

#[test]
fn checkpoint_records_the_mission_tick() {
    let mut mission = started(MissionId::L02HoldingLine, &registry());
    let mut world = SimulationWorld::new(40, 24);
    world.tick = 42;
    mission.on_tick(&world);
    mission.checkpoint();
    assert_eq!(mission.checkpoint_tick, 42);
}

#[test]
fn completion_unlocks_next_campaign_level_and_keeps_best_time() {
    let mut progress = CampaignProgress::default();
    progress.record_success(MissionId::L01FirstFlow, 700);
    progress.record_success(MissionId::L01FirstFlow, 800);
    assert_eq!(progress.unlocked, [true, true, false]);
    assert_eq!(progress.best_ticks[0], Some(700));
}

#[test]
fn final_mission_completion_unlocks_nothing_new() {
    let mut progress = CampaignProgress::default();
    progress.record_success(MissionId::L03Firebreak, 1_500);
    assert_eq!(progress.unlocked, [true, false, false]);
    assert_eq!(progress.completed, [false, false, true]);
    assert_eq!(progress.best_ticks[2], Some(1_500));
}

#[test]
fn campaign_summary_lists_each_mission_title() {
    assert_eq!(campaign_summary(&registry()), "L01 First Flow | L02 Holding Line | L03 Firebreak");
}

#[test]
fn l03_surge_follows_its_authored_schedule() {
    let mut map = load_campaign(MissionId::L03Firebreak, &registry());
    map.world.tick = 999;
    apply_scheduled_events(&mut map.world, MissionId::L03Firebreak);
    assert_eq!(map.world.sources[0].rate_vu, 100);
    map.world.tick = 1_000;
    apply_scheduled_events(&mut map.world, MissionId::L03Firebreak);
    assert_eq!(map.world.sources[0].rate_vu, 220);
    map.world.tick = 1_250;
    apply_scheduled_events(&mut map.world, MissionId::L03Firebreak);
    assert_eq!(map.world.sources[0].rate_vu, 100);
}

#[test]
fn each_campaign_reference_reaches_terminal_success() {
    let content = registry();
    for id in MissionId::ALL {
        let report = run_scenario(id, ScenarioKind::Reference, &content);
        assert!(report.terminal_success, "{report:?}");
        assert!(report.continuation_matches);
        assert_eq!(report.mass_balance_error, 0);
        assert!(report.ticks >= 100);
        assert!(report.injected_vu > 0);
        assert!(report.admitted_commands > 0, "{report:?}");
        assert!(report.placed_devices > 0, "{report:?}");
    }
}

#[test]
fn campaign_reference_hashes_repeat() {
    let content = registry();
    for id in MissionId::ALL {
        assert_eq!(run_scenario(id, ScenarioKind::Reference, &content), run_scenario(id, ScenarioKind::Reference, &content));
    }
}

#[test]
fn alternate_routes_reach_success_and_preserve_midpoint_continuation() {
    let content = registry();
    for id in MissionId::ALL {
        let first = run_scenario(id, ScenarioKind::Alternate, &content);
        let second = run_scenario(id, ScenarioKind::Alternate, &content);
        assert_eq!(first, second);
        assert!(first.terminal_success, "{first:?}");
        assert!(first.continuation_matches);
        assert_eq!(first.mass_balance_error, 0);
        assert_ne!(first.midpoint_hash, first.final_hash);
        assert!(first.admitted_commands > 0, "{first:?}");
    }
}

#[test]
fn authored_failure_scenarios_fail_deterministically() {
    let content = registry();
    for id in MissionId::ALL {
        let report = run_scenario(id, ScenarioKind::Failure, &content);
        assert!(report.terminal_failure, "{report:?}");
        assert!(!report.terminal_success);
        assert!(report.continuation_matches);
        assert_eq!(report.mass_balance_error, 0);
    }
}

#[test]
fn l03_insufficient_water_stays_recoverable() {
    let report = run_scenario(MissionId::L03Firebreak, ScenarioKind::InsufficientWaterRecovery, &registry());
    assert!(!report.terminal_success);
    assert!(!report.terminal_failure);
    assert!(report.objective_incomplete);
    assert!(report.continuation_matches);
    assert_eq!(report.mass_balance_error, 0);
}

#[test]
fn replay_summary_counts_passing_runs() {
    let summary = run_all_scenarios(&registry());
    assert!(summary.ends_with("/10 deterministic campaign scenarios PASS"), "{summary}");
    let failure = run_scenario(MissionId::L01FirstFlow, ScenarioKind::Failure, &registry());
    assert_eq!(scenario_passes(&failure), failure.terminal_failure && failure.continuation_matches && failure.mass_balance_error == 0);
}

#[test]
fn validator_names_each_device_and_map_problem() {
    let mut registry = registry();
    registry.devices[0].fabrication_cost_fu = 0;
    registry.maps[0].kind = "swamp".into();
    let device = registry.devices[0].id.clone();
    let map = registry.maps[0].id.clone();
    let errors = registry.validate().unwrap_err();
    assert!(errors.contains(&format!("device {device}: fabrication cost must be positive")));
    assert!(errors.contains(&format!("map {map}: unknown kind swamp")));
}

#[test]
fn third_mission_terrain_holds_trough_pocket_and_relay_row() {
    let mut world = SimulationWorld::new(41, 19);
    author_l03(&mut world);
    let at = |x: u16, y: u16| world.index(CellPos { x, y }).unwrap();
    let trough = &world.cells[at(22, 14)];
    assert!(trough.sealed);
    assert_eq!(trough.height_hu, 500);
    let pocket = &world.cells[at(38, 5)];
    assert_eq!(pocket.height_hu, 2_000);
    assert!(pocket.sealed && pocket.contained);
    assert_eq!(world.cells[at(26, 9)].height_hu, 300);
    assert!(world.cells[at(27, 9)].sealed);
    assert!(world.definitions[at(36, 14)].protected);
    assert_eq!(planetfall_engineer::simulation::volume(&world.cells[at(9, 4)].surface, FluidId::Water), 750);
    assert_eq!(world.cells[at(9, 4)].height_hu, 250);
    assert_eq!(world.cells[at(3, 3)].height_hu, 2_080);
    assert_eq!(world.cells[at(0, 0)].height_hu, 2_600);
    assert_eq!(world.cells[at(10, 15)].height_hu, 350);
    assert!(world.cells[at(10, 15)].contained);
    assert_eq!(world.definitions[at(10, 15)].ambient_temperature_dk, 10_000);
    assert_eq!(world.definitions[at(30, 2)].ambient_temperature_dk, 3_230);
    assert_eq!(world.devices.devices[0].device, DeviceId::Floodgate);
}
