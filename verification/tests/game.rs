//! The game controller: field actions, build plans, missions, checkpoints, the
//! verification grounds, the front end and the requests left to the application.

use planetfall_engineer::campaign::campaign_ready;
use planetfall_engineer::content::{
    ContentRegistry, DepositRecord, DeviceRecord, FluidRecord, MapRecord, MissionRecord, PowerSourceRecord,
    TutorialRecord,
};
use planetfall_engineer::data::GameConfig;
use planetfall_engineer::devices::DeviceId;
use planetfall_engineer::game::keys::{key_action, Key};
use planetfall_engineer::game::{FrontendMode, Game, Request, UiAction, VerificationMode};
use planetfall_engineer::mission::{MissionId, MissionPhase};
use planetfall_engineer::simulation::{FluidId, TerrainAction};
use planetfall_engineer::state::{CellPos, TimeControl};

const L01_STEPS: [&str; 14] = [
    "tutorial_l01_welcome",
    "tutorial_l01_move_camera",
    "tutorial_l01_move_cursor",
    "tutorial_l01_inspect_grade",
    "tutorial_l01_pause_plan",
    "tutorial_l01_raise_first",
    "tutorial_l01_raise_remaining",
    "tutorial_l01_select_deposit",
    "tutorial_l01_recover_deposit",
    "tutorial_l01_place_channel",
    "tutorial_l01_run_and_observe",
    "tutorial_l01_beacon_warning",
    "tutorial_l01_open_gate",
    "tutorial_l01_stabilize",
];

fn map(id: &str, kind: &str, width: u16, height: u16) -> MapRecord {
    MapRecord { id: id.into(), kind: kind.into(), width, height }
}

fn power_class_name(device: DeviceId) -> Option<String> {
    match device {
        DeviceId::Reservoir | DeviceId::Sensor => Some("safety".into()),
        DeviceId::Pump => Some("transport".into()),
        DeviceId::Filter => Some("process".into()),
        DeviceId::RuneRelay => Some("interface".into()),
        _ => None,
    }
}

#[allow(clippy::too_many_arguments)]
fn mission(
    id: &str,
    map_id: &str,
    sequence: u8,
    title: &str,
    fabrication_start_fu: u32,
    objective: (u32, u32, u32, u32),
    alerts: (u64, u64),
    hazard: (u32, &str),
    reference: (u64, u64),
    source_rate_vu: u32,
    surge: (Option<u64>, Option<u64>, u32),
) -> MissionRecord {
    MissionRecord {
        id: id.into(),
        map_id: map_id.into(),
        sequence,
        title: title.into(),
        fabrication_start_fu,
        deposits: Vec::new(),
        power_sources: Vec::new(),
        briefing: format!("{title} briefing"),
        objective: format!("{title} objective"),
        objective_min_vu: objective.0,
        objective_max_vu: objective.1,
        stability_ticks: objective.2,
        failure_ticks: objective.3,
        advisory_tick: alerts.0,
        warning_tick: alerts.1,
        hazard_threshold_vu: hazard.0,
        hazard_reason: hazard.1.into(),
        reference_tick_min: reference.0,
        reference_tick_max: reference.1,
        source_rate_vu,
        surge_start_tick: surge.0,
        surge_end_tick: surge.1,
        surge_rate_vu: surge.2,
    }
}

/// A complete slice registry: four fluids, the ten devices with their showcase
/// maps, the laboratory, the three campaign missions and maps, and the first
/// mission's tutorial.
fn registry() -> ContentRegistry {
    let fluids = ["water", "lava", "steam", "toxic_slurry"]
        .into_iter()
        .map(|id| FluidRecord { id: id.into(), enabled: true })
        .collect();
    let devices = DeviceId::ALL
        .into_iter()
        .map(|device| DeviceRecord {
            id: device.name().into(),
            showcase_map_id: format!("device_{}", device.name()),
            fabrication_cost_fu: device.cost(),
            power_demand_eu_per_tick: device.power_demand_eu(),
            power_class: power_class_name(device),
            asset_id: format!("device_{}_sprite", device.name()),
        })
        .collect();
    let mut l01 = mission(
        "campaign_l01_first_flow",
        "campaign_l01",
        1,
        "First Flow",
        40,
        (4_000, 6_000, 60, 5),
        (0, 0),
        (1_000, "protected beacon flooded"),
        (900, 1_400),
        20,
        (None, None, 0),
    );
    l01.deposits.push(DepositRecord {
        id: "l01_scrap".into(),
        position: [10, 4],
        yield_fu: 20,
        asset_id: "deposit_scrap".into(),
    });
    let mut l02 = mission(
        "campaign_l02_holding_line",
        "campaign_l02",
        2,
        "Holding Line",
        105,
        (0, 9_000, 100, 5),
        (600, 800),
        (1_000, "survey camp flooded"),
        (1_400, 2_000),
        100,
        (Some(900), Some(1_200), 400),
    );
    l02.power_sources.push(PowerSourceRecord {
        id: "l02_generator".into(),
        position: [3, 3],
        output_eu_per_tick: 6,
        enabled: true,
        asset_id: "generator".into(),
    });
    let l03 = mission(
        "campaign_l03_firebreak",
        "campaign_l03",
        3,
        "Firebreak",
        160,
        (1_500, 10_000, 100, 20),
        (300, 0),
        (0, "lava reached the works"),
        (1_200, 2_000),
        100,
        (Some(1_000), Some(1_250), 220),
    );
    let mut maps = vec![
        map("campaign_l01", "campaign", 32, 20),
        map("campaign_l02", "campaign", 40, 24),
        map("campaign_l03", "campaign", 48, 30),
        map("fluids_lab", "fluid_lab", 64, 48),
    ];
    for device in DeviceId::ALL {
        maps.push(map(&format!("device_{}", device.name()), "device_showcase", 24, 16));
    }
    ContentRegistry {
        schema_version: 2,
        content_version: "1.2.0".into(),
        fluids,
        devices,
        missions: vec![l01, l02, l03],
        tutorials: vec![TutorialRecord {
            id: "tutorial_l01".into(),
            steps: L01_STEPS.iter().map(|step| step.to_string()).collect(),
        }],
        maps,
    }
}


fn config() -> GameConfig {
    GameConfig {
        game_name: "planetfall".into(),
        display_name: "Planetfall Engineer".into(),
        save_slot: "slot".into(),
        version: "1.2.0".into(),
        world_width: 32,
        world_height: 20,
    }
}

fn game() -> Game {
    let content = registry();
    assert!(campaign_ready(&content));
    Game::new(config(), content)
}

fn playing() -> Game {
    let mut game = game();
    game.frontend_choice(0);
    game
}

#[test]
fn game_starts_on_the_title_with_first_flow_loaded() {
    let game = game();
    assert_eq!(game.frontend_mode, FrontendMode::Title);
    assert_eq!((game.session.simulation.width, game.session.simulation.height), (32, 20));
    assert_eq!(game.notice, "First Flow ready — 32×20 — FAB 40 — reference 900–1400 ticks — content 14 maps validated");
    assert_eq!(game.camera_request, Some((32, 20)));
    assert!(game.request.is_none());
}

#[test]
fn campaign_readiness_needs_every_mission_and_map() {
    let mut content = registry();
    assert!(campaign_ready(&content));
    content.maps.retain(|m| m.id != "campaign_l02");
    assert!(!campaign_ready(&content));
}

#[test]
fn new_campaign_loads_first_flow_in_its_briefing() {
    let game = playing();
    assert_eq!(game.frontend_mode, FrontendMode::Playing);
    assert_eq!(game.session.mission.id, MissionId::L01FirstFlow);
    assert_eq!(game.session.mission.phase, MissionPhase::Briefing);
    assert_eq!(game.session.selected, CellPos { x: 16, y: 10 });
    assert_eq!(game.notice, "First Flow new campaign deployment");
    assert!(!game.session.simulation.sources[0].enabled);
}

#[test]
fn briefing_refuses_commands_until_the_mission_begins() {
    let mut game = playing();
    assert!(game.dispatch_action(UiAction::Inspect));
    assert_eq!(game.notice, "Command unavailable: MissionNotActive");
    game.dispatch_action(UiAction::BeginMission);
    assert_eq!(game.session.mission.phase, MissionPhase::Active);
    assert_eq!(game.notice, "First Flow operation active — follow the field guide and begin when ready");
}

#[test]
fn tutorial_locks_commands_and_skip_starts_the_source() {
    let mut game = playing();
    game.dispatch_action(UiAction::BeginMission);
    game.dispatch_action(UiAction::QueueDevice(DeviceId::Channel));
    assert_eq!(game.notice, "Command unavailable: TutorialLocked");
    assert_eq!(game.placement_device, DeviceId::Channel);
    game.dispatch_action(UiAction::SkipTutorial);
    assert_eq!(game.notice, "Tutorial skipped — L01 build kit unlocked; source enabled");
    assert!(game.session.simulation.sources[0].enabled);
}

#[test]
fn selection_stays_on_the_grid_and_is_announced() {
    let mut game = playing();
    assert!(game.dispatch_action(UiAction::Select(CellPos { x: 3, y: 4 })));
    assert_eq!(game.notice, "Survey target selected: 3, 4");
    assert!(!game.dispatch_action(UiAction::Select(CellPos { x: 40, y: 4 })));
    assert_eq!(game.session.selected, CellPos { x: 3, y: 4 });
    game.dispatch_action(UiAction::MoveSelection(-5, 0));
    assert_eq!(game.session.selected, CellPos { x: 0, y: 4 });
    assert_eq!(game.notice, "Survey target selected: 0, 4");
}

#[test]
fn build_plan_queues_commits_and_cancels() {
    let mut game = playing();
    game.dispatch_action(UiAction::BeginMission);
    game.dispatch_action(UiAction::SkipTutorial);
    game.dispatch_action(UiAction::Select(CellPos { x: 12, y: 12 }));
    game.dispatch_action(UiAction::RotatePlacement);
    assert_eq!(game.notice, "Placement rotation 90°");
    game.dispatch_action(UiAction::QueueDevice(DeviceId::Channel));
    assert_eq!(game.notice, "Queued channel plan #0 at 90° — use COMMIT or CANCEL");
    assert_eq!(game.session.simulation.fabrication.reserved_fu, 2);
    game.dispatch_action(UiAction::CancelPlan);
    assert_eq!(game.notice, "Last build plan cancelled");
    assert_eq!(game.session.simulation.fabrication.reserved_fu, 0);
    game.dispatch_action(UiAction::CancelPlan);
    assert_eq!(game.notice, "No queued build plan");
    let authored = game.session.simulation.devices.devices.len();
    game.dispatch_action(UiAction::QueueDevice(DeviceId::Channel));
    game.dispatch_action(UiAction::CommitPlan);
    assert_eq!(game.notice, "Committed 1 build plan(s)");
    assert_eq!(game.session.simulation.devices.devices.len(), authored + 1);
    assert_eq!(game.session.simulation.fabrication.spent_fu, 2);
    game.dispatch_action(UiAction::QueueDevice(DeviceId::Channel));
    assert_eq!(game.notice, "Queue rejected: Occupied");
    game.dispatch_action(UiAction::ToggleSelectedDevice);
    assert_eq!(game.notice, "Selected device disabled");
    game.dispatch_action(UiAction::ToggleSelectedDevice);
    assert_eq!(game.notice, "Selected device enabled");
    game.dispatch_action(UiAction::RemoveSelectedDevice);
    assert_eq!(game.notice, "Device removed and fabrication refunded");
    assert_eq!(game.session.simulation.devices.devices.len(), authored);
    game.dispatch_action(UiAction::RemoveSelectedDevice);
    assert_eq!(game.notice, "Select a device to remove");
}

#[test]
fn terrain_edits_follow_protection_and_reach_the_survey() {
    let mut game = playing();
    game.dispatch_action(UiAction::BeginMission);
    game.dispatch_action(UiAction::SkipTutorial);
    game.dispatch_action(UiAction::Select(CellPos { x: 24, y: 8 }));
    game.dispatch_action(UiAction::Terrain(TerrainAction::Excavate));
    assert_eq!(game.notice, "Terrain edit rejected: Protected");
    game.dispatch_action(UiAction::Select(CellPos { x: 4, y: 4 }));
    let index = game.session.simulation.index(CellPos { x: 4, y: 4 }).unwrap();
    let before = game.session.simulation.cells[index].height_hu;
    game.dispatch_action(UiAction::Terrain(TerrainAction::Raise));
    assert_eq!(game.notice, "Terrain edit committed");
    assert_eq!(game.session.simulation.cells[index].height_hu, before + 250);
    assert_eq!(game.session.world.cells[index].height_hu, before + 250);
}

#[test]
fn deposit_recovery_and_gate_settings_report_their_outcome() {
    let mut game = playing();
    game.dispatch_action(UiAction::BeginMission);
    game.dispatch_action(UiAction::SkipTutorial);
    game.dispatch_action(UiAction::Select(CellPos { x: 10, y: 4 }));
    game.dispatch_action(UiAction::RecoverDeposit);
    assert_eq!(game.notice, "Recovered 20 fabU from local deposit");
    game.dispatch_action(UiAction::RecoverDeposit);
    assert_eq!(game.notice, "Deposit recovery rejected: deposit l01_scrap is already depleted");
    game.dispatch_action(UiAction::SetGate(5_000));
    assert_eq!(game.notice, "Select a floodgate, pump, or reservoir");
}

#[test]
fn pause_menu_time_overlay_and_injection() {
    let mut game = playing();
    game.dispatch_action(UiAction::BeginMission);
    game.dispatch_action(UiAction::SkipTutorial);
    game.dispatch_action(UiAction::SetTime(TimeControl::TwoX));
    assert_eq!(game.session.time_control, TimeControl::TwoX);
    game.dispatch_action(UiAction::TogglePause);
    assert!(game.pause_menu);
    assert_eq!(game.session.time_control, TimeControl::Paused);
    assert_eq!(game.notice, "Pause menu open");
    game.dispatch_action(UiAction::TogglePause);
    assert!(!game.pause_menu);
    game.dispatch_action(UiAction::CycleOverlay);
    assert_eq!(game.notice, "GRADE overlay");
    for _ in 0..4 {
        game.dispatch_action(UiAction::CycleOverlay);
    }
    assert_eq!((game.overlay_mode, game.notice.as_str()), (0, "MATERIAL overlay"));
    let injected = game.session.simulation.ledger.injected;
    game.dispatch_action(UiAction::Inject(FluidId::Lava));
    assert_eq!(game.session.simulation.ledger.injected, injected + 500);
}

#[test]
fn frames_run_only_on_the_running_field() {
    let mut game = playing();
    game.session.time_control = TimeControl::OneX;
    game.advance_frame(100_000);
    assert_eq!(game.session.tick, 0);
    game.dispatch_action(UiAction::BeginMission);
    game.dispatch_action(UiAction::SkipTutorial);
    game.dispatch_action(UiAction::SetTime(TimeControl::OneX));
    game.advance_frame(300_000);
    assert_eq!(game.session.tick, 3);
    assert_eq!(game.session.mission.tick, 3);
    game.dispatch_action(UiAction::TogglePause);
    game.advance_frame(300_000);
    assert_eq!(game.session.tick, 3);
}

#[test]
fn checkpoint_restores_with_the_campaign_kept() {
    let mut game = playing();
    game.dispatch_action(UiAction::BeginMission);
    game.dispatch_action(UiAction::SkipTutorial);
    game.dispatch_action(UiAction::SetTime(TimeControl::OneX));
    game.advance_frame(200_000);
    game.dispatch_action(UiAction::Checkpoint);
    assert_eq!(game.notice, "Mission checkpoint recorded at tick 2");
    game.advance_frame(300_000);
    game.session.campaign.unlocked[1] = true;
    game.dispatch_action(UiAction::ResetMission);
    assert_eq!(game.notice, "Checkpoint restored at tick 2");
    assert_eq!(game.session.tick, 2);
    assert_eq!(game.session.time_control, TimeControl::Paused);
    assert!(game.session.campaign.unlocked[1]);
}

#[test]
fn failure_choices_restart_and_success_choices_advance() {
    let mut game = playing();
    game.dispatch_action(UiAction::BeginMission);
    game.dispatch_action(UiAction::FailMission);
    assert_eq!(game.session.mission.phase, MissionPhase::Failure);
    assert_eq!(game.notice, "Mission failed — reset to checkpoint");
    game.dispatch_action(UiAction::TerminalSecondary);
    assert_eq!(game.session.mission.phase, MissionPhase::Briefing);
    assert_eq!(game.notice, "First Flow restarted from failure");
    game.dispatch_action(UiAction::NextCampaign);
    assert!(game.notice.starts_with("No later campaign level is unlocked — L01 First Flow | L02 Holding Line"));
    game.session.campaign.unlocked[1] = true;
    game.session.mission.phase = MissionPhase::Success;
    game.dispatch_action(UiAction::TerminalPrimary);
    assert_eq!(game.session.mission.id, MissionId::L02HoldingLine);
    assert_eq!(game.notice, "Holding Line selected from campaign progression");
    assert!(game.session.simulation.sources[0].enabled);
}

#[test]
fn campaign_board_loads_only_unlocked_missions() {
    let mut game = game();
    game.frontend_choice(1);
    assert_eq!(game.frontend_mode, FrontendMode::CampaignSelect);
    game.frontend_choice(2);
    assert_eq!(game.notice, "Firebreak is locked — finish earlier campaign work first");
    assert_eq!(game.frontend_mode, FrontendMode::CampaignSelect);
    game.frontend_choice(0);
    assert_eq!(game.frontend_mode, FrontendMode::Playing);
    assert_eq!(game.notice, "First Flow selected from campaign board");
    game.frontend_escape();
    assert_eq!(game.frontend_mode, FrontendMode::Title);
}

#[test]
fn laboratory_opens_at_tick_zero_and_returns_to_the_campaign() {
    let mut game = playing();
    game.dispatch_action(UiAction::ToggleLab);
    assert_eq!(game.verification_mode, Some(VerificationMode::Lab));
    assert_eq!(game.session.simulation.tick, 0);
    assert_eq!((game.session.simulation.width, game.session.simulation.height), (64, 48));
    assert_eq!(game.session.mission.id, MissionId::L02HoldingLine);
    assert_eq!(game.session.mission.phase, MissionPhase::Active);
    game.dispatch_action(UiAction::StepVerification);
    assert_eq!(game.notice, "Verification tick 1 — balance +0 vU");
    game.dispatch_action(UiAction::ResetVerification);
    assert_eq!(game.session.simulation.tick, 0);
    assert_eq!(game.notice, "Verification map reset");
    game.dispatch_action(UiAction::ToggleLab);
    assert_eq!(game.verification_mode, None);
    assert_eq!(game.notice, "Returned to campaign session");
    assert_eq!(game.session.mission.id, MissionId::L01FirstFlow);
    assert_eq!(game.camera_request, Some((32, 20)));
}

#[test]
fn grounds_entered_from_the_menu_return_to_the_menu() {
    let mut game = game();
    game.frontend_choice(2);
    game.frontend_choice(3);
    assert_eq!(game.verification_mode, Some(VerificationMode::Showcase(DeviceId::Pump)));
    assert_eq!(game.notice, "device_pump ready");
    assert_eq!(game.session.selected, CellPos { x: 16, y: 9 });
    game.dispatch_action(UiAction::RestoreCampaign);
    assert_eq!(game.frontend_mode, FrontendMode::VerificationSelect);
    assert_eq!(game.notice, "Returned to verification grounds");
    assert!(game.saved_campaign_session.is_none());
}

#[test]
fn save_and_load_are_left_to_the_application() {
    let mut game = playing();
    assert!(game.dispatch_action(UiAction::Save));
    assert_eq!(game.request, Some(Request::Save));
    game.finish_save(Ok(()));
    assert_eq!((game.request, game.notice.as_str()), (None, "Checkpoint saved"));
    game.dispatch_action(UiAction::Load);
    assert_eq!(game.request, Some(Request::Load));
    game.finish_load(Err("No save in slot".into()));
    assert_eq!(game.notice, "No save in slot");
    let mut copy = game.session.clone();
    copy.tick = 77;
    game.finish_load(Ok(copy));
    assert_eq!((game.session.tick, game.notice.as_str()), (77, "Checkpoint loaded"));
    let mut broken = game.session.clone();
    broken.simulation.cells.pop();
    game.finish_load(Ok(broken));
    assert_eq!(game.notice, "Save simulation is malformed");
    assert_eq!(game.session.tick, 77);
    game.finish_autosave(Err("disk full".into()));
    assert_eq!(game.notice, "Mission complete; campaign autosave needs attention: disk full");
    game.finish_autosave(Ok(()));
    assert_eq!(game.notice, "Mission success — First Flow complete and campaign progress saved");
}

#[test]
fn keys_route_by_briefing_pause_menu_and_plans() {
    let mut game = game();
    game.frontend_mode = FrontendMode::Playing;
    game.session.mission.phase = MissionPhase::Briefing;
    assert_eq!(key_action(&game, Key::Enter), Some(UiAction::BeginMission));
    assert_eq!(key_action(&game, Key::Space), None);
    game.session.mission.phase = MissionPhase::Active;
    game.session.time_control = TimeControl::Paused;
    game.pause_menu = false;
    assert_eq!(key_action(&game, Key::Space), Some(UiAction::SetTime(TimeControl::OneX)));
    assert_eq!(key_action(&game, Key::Enter), Some(UiAction::DismissPrompt));
    assert_eq!(key_action(&game, Key::F8), Some(UiAction::RunShowcaseReport));
    assert_eq!(key_action(&game, Key::V), None);
    game.verification_mode = Some(VerificationMode::Showcase(DeviceId::RuneRelay));
    assert_eq!(key_action(&game, Key::V), Some(UiAction::EnterShowcase(DeviceId::Channel)));
    assert_eq!(key_action(&game, Key::F6), Some(UiAction::ResetVerification));
    game.pause_menu = true;
    assert_eq!(key_action(&game, Key::Space), None);
    assert_eq!(key_action(&game, Key::F5), Some(UiAction::Save));
    assert_eq!(key_action(&game, Key::Escape), Some(UiAction::TogglePause));
    game.frontend_mode = FrontendMode::Title;
    assert_eq!(key_action(&game, Key::Escape), None);
}
