//! The game controller: the operator's actions on the running session, the
//! front-end screens, the laboratory and device showcases, checkpoints, and the
//! notice line shown to the player. The window, camera, drawing and input
//! devices belong to the application, which hands the controller its actions
//! and carries out the requests it leaves (see `Request`).

use vstd::prelude::*;

use crate::campaign::{campaign_loadable, campaign_world, load_campaign};
use crate::content::{first_mission, ContentRegistry};
use crate::data::GameConfig;
use crate::devices::DeviceId;
use crate::lab::{lab_shape, FluidsLab};
use crate::mission::state::{admission_spec, admit_spec, MissionView};
use crate::mission::{finished_step, Admission, CommandKind, MissionId};
use crate::simulation::{FluidId, SimulationWorld, SourceState, TerrainAction};
use crate::state::session::survey_follows;
use crate::state::{CellPos, GameSession, TimeControl, WorldState};
use crate::text::push_decimal;

pub mod field;
pub mod flow;
pub mod grounds;
pub mod dispatch;
pub mod readout;
pub mod keys;

verus! {

/// The screen the game shows.
#[derive(Debug, Clone, Copy, PartialEq, Eq, Structural)]
pub enum FrontendMode {
    Title,
    CampaignSelect,
    VerificationSelect,
    Playing,
}

/// The verification map that stands in for the campaign session.
#[derive(Debug, Clone, Copy, PartialEq, Eq, Structural)]
pub enum VerificationMode {
    Lab,
    Showcase(DeviceId),
}

/// An intent emitted by a control before the game changes its state.
#[derive(Debug, Clone, Copy, PartialEq, Eq, Structural)]
pub enum UiAction {
    TogglePause,
    SetTime(TimeControl),
    Select(CellPos),
    MoveSelection(i16, i16),
    Inspect,
    Terrain(TerrainAction),
    QueueDevice(DeviceId),
    RotatePlacement,
    CommitPlan,
    CancelPlan,
    SetGate(u16),
    RecoverDeposit,
    ToggleSelectedDevice,
    Save,
    Load,
    ResetMission,
    BeginMission,
    SkipTutorial,
    ToggleLab,
    EnterShowcase(DeviceId),
    RestoreCampaign,
    StepVerification,
    NextCampaign,
    StartNewCampaign,
    OpenCampaignSelect,
    OpenVerificationSelect,
    SelectMission(MissionId),
    TerminalPrimary,
    TerminalSecondary,
    ResetVerification,
    RemoveSelectedDevice,
    Checkpoint,
    FailMission,
    ReloadMission,
    Inject(FluidId),
    CycleOverlay,
    RunShowcaseReport,
    RunScenarioReport,
    DismissPrompt,
}

/// Work the controller leaves to the application: write the session to its save
/// slot, read the slot back, or write the session after a mission success.
#[derive(Debug, Clone, Copy, PartialEq, Eq, Structural)]
pub enum Request {
    Save,
    Load,
    Autosave,
}

/// The game: its configuration and content, the running session, the saved
/// checkpoint and the campaign session put aside while a verification map runs,
/// the screen, the laboratory, the notice line, the pause menu, the placement
/// tool and overlay, the grid the camera must next frame (`camera_request`) and
/// the request left for the application (`request`).
#[derive(Debug, Clone)]
pub struct Game {
    pub config: GameConfig,
    pub content: ContentRegistry,
    pub session: GameSession,
    pub checkpoint_session: Option<GameSession>,
    pub saved_campaign_session: Option<GameSession>,
    pub verification_mode: Option<VerificationMode>,
    pub verification_returns_to_menu: bool,
    pub frontend_mode: FrontendMode,
    pub lab: FluidsLab,
    pub notice: String,
    pub pause_menu: bool,
    pub placement_device: DeviceId,
    pub placement_rotation: u8,
    pub overlay_mode: u8,
    pub camera_request: Option<(u16, u16)>,
    pub request: Option<Request>,
}

/// A session whose simulation is well formed, if there is one.
pub open spec fn session_ok(s: Option<GameSession>) -> bool {
    match s {
        Some(session) => session.simulation.wf(),
        None => true,
    }
}

impl Game {
    /// Every campaign mission loads from the content, the configured survey grid
    /// fits its ridge, and every session held has a well-formed simulation, the
    /// laboratory's included.
    pub open spec fn wf(self) -> bool {
        &&& forall|id: MissionId| campaign_loadable(self.content, id)
        &&& self.config.world_width / 2 + self.config.world_height / 2 <= 254
        &&& self.session.simulation.wf()
        &&& session_ok(self.checkpoint_session)
        &&& session_ok(self.saved_campaign_session)
        &&& lab_shape(self.lab.world)
    }
}

/// How a refusal reads in a notice.
pub open spec fn admission_name(a: Admission) -> Seq<char> {
    match a {
        Admission::Accepted => "Accepted"@,
        Admission::TutorialLocked => "TutorialLocked"@,
        Admission::MissionNotActive => "MissionNotActive"@,
        Admission::AlreadyComplete => "AlreadyComplete"@,
    }
}

/// The name of an admission (see `admission_name`).
pub fn admission_text(a: Admission) -> (text: &'static str)
    ensures
        text@ == admission_name(a),
{
    match a {
        Admission::Accepted => "Accepted",
        Admission::TutorialLocked => "TutorialLocked",
        Admission::MissionNotActive => "MissionNotActive",
        Admission::AlreadyComplete => "AlreadyComplete",
    }
}

/// The title of mission `id`: its content record's title, or its content
/// identifier when it has no record.
pub open spec fn mission_title_spec(content: ContentRegistry, id: MissionId) -> Seq<char> {
    if exists|i: int| first_mission(content.missions@, id.content_id_spec(), i) {
        content.missions@[choose|i: int| first_mission(content.missions@, id.content_id_spec(), i)].title@
    } else {
        id.content_id_spec()
    }
}

/// The title of mission `id` (see `mission_title_spec`).
pub fn mission_title(content: &ContentRegistry, id: MissionId) -> (title: String)
    ensures
        title@ == mission_title_spec(*content, id),
{
    match content.mission(id.content_id()) {
        Some(record) => {
            proof {
                let i = choose|i: int| first_mission(content.missions@, id.content_id_spec(), i) && *record == content.missions@[i];
                let k = choose|k: int| first_mission(content.missions@, id.content_id_spec(), k);
                if i < k {
                    assert(content.missions@[i].id@ == id.content_id_spec());
                } else if k < i {
                    assert(content.missions@[k].id@ == id.content_id_spec());
                }
            }
            record.title.clone()
        },
        None => {
            proof {
                assert forall|i: int| !first_mission(content.missions@, id.content_id_spec(), i) by {
                    if 0 <= i < content.missions@.len() {
                        assert(content.missions@[i].id@ != id.content_id_spec());
                    }
                }
            }
            id.content_id().to_owned()
        },
    }
}

/// Whether admitted commands start the authored sources: the tutorial is
/// finished or skipped, or waits at its stabilize step.
pub open spec fn sources_follow(m: MissionView) -> bool {
    match m.tutorial {
        Some(t) => t.current == finished_step() || t.skip_confirmed || t.current == "tutorial_l01_stabilize"@,
        None => false,
    }
}

/// `w1` is `w0` with every authored source started or stopped.
pub open spec fn sources_set(w0: SimulationWorld, w1: SimulationWorld, enabled: bool) -> bool {
    &&& w1 == (SimulationWorld { sources: w1.sources, ..w0 })
    &&& w1.sources@.len() == w0.sources@.len()
    &&& forall|i: int| 0 <= i < w1.sources@.len() ==> #[trigger] w1.sources@[i] == (SourceState { enabled, ..w0.sources@[i] })
}

/// The notice of a refused command.
pub open spec fn refusal_notice(a: Admission) -> Seq<char> {
    "Command unavailable: "@ + admission_name(a)
}

/// The notice when a mission has taken every command it can count.
pub open spec fn limit_notice() -> Seq<char> {
    "Command unavailable: command limit reached"@
}

/// `g1` is `g0` after admitting `command` (see `Game::admit_command`); `ok` says whether
/// it was admitted.
pub open spec fn admitted(g0: Game, g1: Game, command: CommandKind, ok: bool) -> bool {
    let m0 = g0.session.mission@;
    if g0.session.mission.command_count == u32::MAX {
        &&& !ok
        &&& g1 == (Game { notice: g1.notice, ..g0 })
        &&& g1.notice@ == limit_notice()
    } else {
        let a = admission_spec(m0, command);
        let m1 = admit_spec(m0, command);
        &&& ok == (a == Admission::Accepted)
        &&& g1 == (Game {
            session: GameSession { mission: g1.session.mission, simulation: g1.session.simulation, ..g0.session },
            notice: g1.notice,
            ..g0
        })
        &&& g1.session.mission@ == m1
        &&& if ok {
            &&& g1.notice == g0.notice
            &&& if sources_follow(m1) {
                sources_set(g0.session.simulation, g1.session.simulation, true)
            } else {
                g1.session.simulation == g0.session.simulation
            }
        } else {
            &&& g1.notice@ == refusal_notice(a)
            &&& g1.session.simulation == g0.session.simulation
        }
    }
}

impl Game {
    /// The game at its title screen, with the first campaign mission loaded into
    /// a new session, the laboratory built, the camera asked to frame the
    /// configured grid, and a notice naming the mission's grid, stock, reference
    /// window and the number of maps in the content.
    pub fn new(config: GameConfig, content: ContentRegistry) -> (game: Self)
        requires
            forall|id: MissionId| campaign_loadable(content, id),
            config.world_width / 2 + config.world_height / 2 <= 254,
        ensures
            game.wf(),
            game.config == config,
            game.content == content,
            campaign_world(content, MissionId::L01FirstFlow, game.session.simulation),
            game.session.world.width == game.session.simulation.width,
            game.session.world.height == game.session.simulation.height,
            game.session.world.cells@.len() == game.session.simulation.cells@.len(),
            survey_follows(game.session.world, game.session.simulation),
            game.session.tick == 0,
            game.session.time_control == TimeControl::Paused,
            game.session.accumulator_us == 0,
            game.checkpoint_session is None,
            game.saved_campaign_session is None,
            game.verification_mode is None,
            !game.verification_returns_to_menu,
            game.frontend_mode == FrontendMode::Title,
            !game.pause_menu,
            game.placement_device == DeviceId::Channel,
            game.placement_rotation == 0,
            game.overlay_mode == 0,
            game.camera_request == Some((config.world_width as u16, config.world_height as u16)),
            game.request is None,
            ({
                let r = crate::campaign::campaign_record(content, MissionId::L01FirstFlow);
                let w = game.session.simulation;
                game.notice@ == "First Flow ready — "@ + crate::text::decimal(w.width as nat) + "×"@
                    + crate::text::decimal(w.height as nat) + " — FAB "@ + crate::text::decimal(
                    r.fabrication_start_fu as nat,
                ) + " — reference "@ + crate::text::decimal(r.reference_tick_min as nat) + "–"@
                    + crate::text::decimal(r.reference_tick_max as nat) + " ticks — content "@
                    + crate::text::decimal(content.maps@.len() as nat) + " maps validated"@
            }),
    {
        let mut session = GameSession::new(&config, &content);
        let campaign = load_campaign(MissionId::L01FirstFlow, &content);
        let width = campaign.world.width;
        let height = campaign.world.height;
        let fab = campaign.fabrication_start_fu;
        let (first, last) = campaign.reference_tick_range;
        session.simulation = campaign.world;
        session.world = WorldState::from_simulation(&session.simulation);
        let mut notice = "First Flow ready — ".to_owned();
        push_decimal(&mut notice, width as u64);
        notice.append("×");
        push_decimal(&mut notice, height as u64);
        notice.append(" — FAB ");
        push_decimal(&mut notice, fab as u64);
        notice.append(" — reference ");
        push_decimal(&mut notice, first);
        notice.append("–");
        push_decimal(&mut notice, last);
        notice.append(" ticks — content ");
        push_decimal(&mut notice, content.maps.len() as u64);
        notice.append(" maps validated");
        let camera = (config.world_width as u16, config.world_height as u16);
        Game {
            config,
            content,
            session,
            checkpoint_session: None,
            saved_campaign_session: None,
            verification_mode: None,
            verification_returns_to_menu: false,
            frontend_mode: FrontendMode::Title,
            lab: FluidsLab::new(),
            notice,
            pause_menu: false,
            placement_device: DeviceId::Channel,
            placement_rotation: 0,
            overlay_mode: 0,
            camera_request: Some(camera),
            request: None,
        }
    }

    /// Put a command to the mission. An admitted command that leaves the tutorial
    /// finished, skipped or at its stabilize step starts the authored sources; a
    /// refused one names the refusal in the notice (see `admitted`).
    pub fn admit_command(&mut self, command: CommandKind) -> (ok: bool)
        requires
            old(self).wf(),
        ensures
            final(self).wf(),
            admitted(*old(self), *final(self), command, ok),
    {
        if self.session.mission.command_count == u32::MAX {
            self.notice = "Command unavailable: command limit reached".to_owned();
            return false;
        }
        let admission = self.session.mission.admit_command(command);
        if admission == Admission::Accepted {
            let follow = match &self.session.mission.tutorial {
                Some(tutorial) => tutorial.is_complete() || crate::text::same_text(
                    &tutorial.current_step_id,
                    "tutorial_l01_stabilize",
                ),
                None => false,
            };
            if follow {
                self.session.simulation.set_sources_enabled(true);
            }
            true
        } else {
            let mut notice = "Command unavailable: ".to_owned();
            notice.append(admission_text(admission));
            self.notice = notice;
            false
        }
    }
}

} // verus!
