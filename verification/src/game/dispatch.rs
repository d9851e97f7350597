//! One entry for every operator intent, the per-frame advance of the field, the
//! reports, the front-end screens, and the answers to the requests the game
//! leaves for the application.

use vstd::prelude::*;

use super::field::{
    deposit_recovery_done, device_queued, device_removal_done, device_toggle_done, gate_set, injected_at_selection,
    inspected, moved_selection, overlay_cycled, pause_toggled, plan_cancel_done, plans_commit_done, rotated,
    selected_at, terrain_done, time_set,
};
use super::flow::{
    campaign_started, checkpoint_taken, mission_begun, mission_chosen, mission_failed, mission_loaded, mission_reset,
    next_campaign_done, terminal_primary_done, terminal_secondary_done, tutorial_skipped,
};
use super::grounds::{campaign_restored, grounds_reset, grounds_stepped, lab_toggled, showcase_entered};
use super::{admission_name, admission_text, admitted, mission_title, mission_title_spec, FrontendMode, Game, Request, UiAction};
use crate::devices::DeviceId;
use crate::mission::progress::success_recorded;
use crate::mission::state::{admission_spec, admit_spec, shelf_measurable, shelf_rock, tick_spec, MissionView};
use crate::mission::{CommandKind, MissionId, MissionPhase};
use crate::replay::{passing, planned, ScenarioReport};
use crate::state::session::session_advanced;
use crate::state::{GameSession, TimeControl};
use crate::text::decimal;

verus! {

/// `g1` is `g0` with the showcase report in the notice, after the tutorial is
/// told of a dismissed prompt (unless the mission has taken every command it can
/// count), whose answer the notice names.
pub open spec fn showcase_report_done(g0: Game, g1: Game) -> bool {
    let m0 = g0.session.mission@;
    let counted = g0.session.mission.command_count < u32::MAX;
    &&& g1 == (Game { session: GameSession { mission: g1.session.mission, ..g0.session }, notice: g1.notice, ..g0 })
    &&& g1.session.mission@ == if counted {
        admit_spec(m0, CommandKind::DismissPrompt)
    } else {
        m0
    }
    &&& exists|passed: nat|
        8 <= passed <= 10 && #[trigger] g1.notice@ == decimal(passed) + "/"@ + decimal(10) + " showcases PASS: "@
            + crate::devices::showcase::joined_names(10) + " — tutorial command: "@ + if counted {
            admission_name(admission_spec(m0, CommandKind::DismissPrompt))
        } else {
            "command limit reached"@
        }
}

/// `g1` is `g0` with the campaign replay summary in the notice.
pub open spec fn scenario_report_done(g0: Game, g1: Game) -> bool {
    &&& g1 == (Game { notice: g1.notice, ..g0 })
    &&& exists|reports: Seq<ScenarioReport>|
        {
            &&& reports.len() == 10
            &&& forall|k: int| 0 <= k < 10 ==> ((#[trigger] reports[k]).id, reports[k].kind) == planned(k)
            &&& g1.notice@ == decimal(passing(reports)) + "/10 deterministic campaign scenarios PASS"@
        }
}

/// The mission after the ticks of a frame: it ticks once on the frame's last
/// world when any tick ran and the reaction shelf can be measured.
pub open spec fn mission_after_frame(s: GameSession, ticks: u32) -> MissionView {
    if ticks > 0 && shelf_rock(s.simulation) <= u32::MAX {
        tick_spec(s.mission@, s.simulation)
    } else {
        s.mission@
    }
}

/// `g1` is `g0` after a frame of `frame_us` microseconds: the session runs its
/// due ticks (see `session_advanced`) and the mission follows; a mission that
/// succeeds records its completion, pauses time and asks the application to
/// save the campaign.
pub open spec fn frame_advanced(g0: Game, g1: Game, frame_us: u64) -> bool {
    exists|s: GameSession, ticks: u32|
        {
            let m = mission_after_frame(s, ticks);
            &&& #[trigger] session_advanced(g0.session, s, frame_us, ticks)
            &&& g1.session.mission@ == m
            &&& if ticks > 0 && m.phase == MissionPhase::Success {
                &&& success_recorded(s.campaign, g1.session.campaign, m.id, m.tick)
                &&& g1 == (Game {
                    session: GameSession {
                        mission: g1.session.mission,
                        campaign: g1.session.campaign,
                        time_control: TimeControl::Paused,
                        ..s
                    },
                    request: Some(Request::Autosave),
                    ..g0
                })
            } else {
                g1 == (Game { session: GameSession { mission: g1.session.mission, ..s }, ..g0 })
            }
        }
}

/// Whether the field runs this frame: the game shows the field, the mission is
/// past its briefing and the pause menu is closed.
pub open spec fn field_running(g: Game) -> bool {
    &&& g.frontend_mode == FrontendMode::Playing
    &&& g.session.mission.phase != MissionPhase::Briefing
    &&& !g.pause_menu
}

/// `g1` is `g0` after a frame: the field advances while it runs (see
/// `frame_advanced`), and nothing changes otherwise.
pub open spec fn frame_done(g0: Game, g1: Game, frame_us: u64) -> bool {
    if field_running(g0) {
        frame_advanced(g0, g1, frame_us)
    } else {
        g1 == g0
    }
}

/// `g1` is `g0` after the application answered a request to save: the request is
/// cleared and the notice reports the outcome.
pub open spec fn save_finished(g0: Game, g1: Game, result: Result<(), String>) -> bool {
    &&& g1 == (Game { request: None, notice: g1.notice, ..g0 })
    &&& g1.notice@ == match result {
        Ok(()) => "Checkpoint saved"@,
        Err(e) => e@,
    }
}

/// `g1` is `g0` after the application answered a request to save after a mission
/// success: the request is cleared and the notice reports the outcome.
pub open spec fn autosave_finished(g0: Game, g1: Game, result: Result<(), String>) -> bool {
    &&& g1 == (Game { request: None, notice: g1.notice, ..g0 })
    &&& g1.notice@ == match result {
        Ok(()) => "Mission success — "@ + mission_title_spec(g0.content, g0.session.mission.id)
            + " complete and campaign progress saved"@,
        Err(e) => "Mission complete; campaign autosave needs attention: "@ + e@,
    }
}

/// `g1` is `g0` after the application answered a request to load: a loaded
/// session with a well-formed simulation replaces the running one; a malformed
/// one, or a failure, leaves it and is reported.
pub open spec fn load_finished(g0: Game, g1: Game, result: Result<GameSession, String>) -> bool {
    match result {
        Ok(s) => if s.simulation.wf() {
            &&& g1 == (Game { session: s, request: None, notice: g1.notice, ..g0 })
            &&& g1.notice@ == "Checkpoint loaded"@
        } else {
            &&& g1 == (Game { request: None, notice: g1.notice, ..g0 })
            &&& g1.notice@ == "Save simulation is malformed"@
        },
        Err(e) => {
            &&& g1 == (Game { request: None, notice: g1.notice, ..g0 })
            &&& g1.notice@ == e@
        },
    }
}

/// `g1` is `g0` after choice `choice` on a front-end screen: on the title, a new
/// campaign, the campaign board or the verification grounds; on the board, a
/// mission (see `mission_chosen`); on the grounds, the laboratory or a device
/// showcase, which then return to the grounds. Other choices change nothing.
pub open spec fn frontend_chosen(g0: Game, g1: Game, choice: usize) -> bool {
    match g0.frontend_mode {
        FrontendMode::Title => if choice == 0 {
            campaign_started(g0, g1)
        } else if choice == 1 {
            g1 == (Game { frontend_mode: FrontendMode::CampaignSelect, ..g0 })
        } else if choice == 2 {
            g1 == (Game { frontend_mode: FrontendMode::VerificationSelect, ..g0 })
        } else {
            g1 == g0
        },
        FrontendMode::CampaignSelect => if choice <= 2 {
            mission_chosen(g0, g1, MissionId::ALL@[choice as int])
        } else {
            g1 == g0
        },
        FrontendMode::VerificationSelect => if choice == 0 {
            lab_toggled(Game { verification_returns_to_menu: true, ..g0 }, g1)
        } else if choice <= 10 {
            showcase_entered(Game { verification_returns_to_menu: true, ..g0 }, g1, DeviceId::ALL@[choice - 1])
        } else {
            g1 == g0
        },
        FrontendMode::Playing => g1 == g0,
    }
}

/// `g1` is `g0` after `action`, as its handler says; `handled` is false only for
/// a selection off the simulation grid.
pub open spec fn action_done(g0: Game, g1: Game, action: UiAction, handled: bool) -> bool {
    &&& handled == !(action matches UiAction::Select(pos) && g0.session.simulation.index_of(pos) is None)
    &&& match action {
        UiAction::TogglePause => pause_toggled(g0, g1),
        UiAction::SetTime(time) => time_set(g0, g1, time),
        UiAction::Select(pos) => if handled {
            selected_at(g0, g1, pos)
        } else {
            g1 == g0
        },
        UiAction::MoveSelection(dx, dy) => selected_at(g0, g1, moved_selection(g0.session, dx, dy)),
        UiAction::Inspect => inspected(g0, g1),
        UiAction::Terrain(a) => terrain_done(g0, g1, a),
        UiAction::QueueDevice(d) => device_queued(g0, g1, d),
        UiAction::RotatePlacement => rotated(g0, g1),
        UiAction::CommitPlan => plans_commit_done(g0, g1),
        UiAction::CancelPlan => plan_cancel_done(g0, g1),
        UiAction::SetGate(s) => gate_set(g0, g1, s),
        UiAction::RecoverDeposit => deposit_recovery_done(g0, g1),
        UiAction::ToggleSelectedDevice => device_toggle_done(g0, g1),
        UiAction::Save => g1 == (Game { request: Some(Request::Save), ..g0 }),
        UiAction::Load => g1 == (Game { request: Some(Request::Load), ..g0 }),
        UiAction::ResetMission => mission_reset(g0, g1),
        UiAction::BeginMission => mission_begun(g0, g1),
        UiAction::SkipTutorial => tutorial_skipped(g0, g1),
        UiAction::ToggleLab => lab_toggled(g0, g1),
        UiAction::EnterShowcase(d) => showcase_entered(g0, g1, d),
        UiAction::RestoreCampaign => campaign_restored(g0, g1),
        UiAction::StepVerification => grounds_stepped(g0, g1),
        UiAction::NextCampaign => next_campaign_done(g0, g1),
        UiAction::StartNewCampaign => campaign_started(g0, g1),
        UiAction::OpenCampaignSelect => g1 == (Game { frontend_mode: FrontendMode::CampaignSelect, ..g0 }),
        UiAction::OpenVerificationSelect => g1 == (Game { frontend_mode: FrontendMode::VerificationSelect, ..g0 }),
        UiAction::SelectMission(id) => mission_chosen(g0, g1, id),
        UiAction::TerminalPrimary => terminal_primary_done(g0, g1),
        UiAction::TerminalSecondary => terminal_secondary_done(g0, g1),
        UiAction::ResetVerification => grounds_reset(g0, g1),
        UiAction::RemoveSelectedDevice => device_removal_done(g0, g1),
        UiAction::Checkpoint => checkpoint_taken(g0, g1),
        UiAction::FailMission => mission_failed(g0, g1),
        UiAction::ReloadMission => mission_loaded(g0, g1, g0.session.mission.id, "reloaded from authored state"@),
        UiAction::Inject(f) => injected_at_selection(g0, g1, f),
        UiAction::CycleOverlay => overlay_cycled(g0, g1),
        UiAction::RunShowcaseReport => showcase_report_done(g0, g1),
        UiAction::RunScenarioReport => scenario_report_done(g0, g1),
        UiAction::DismissPrompt => exists|ok: bool| #[trigger] admitted(g0, g1, CommandKind::DismissPrompt, ok),
    }
}

impl Game {
    /// Run every device showcase and report them, with the tutorial's answer to a
    /// dismissed prompt (see `showcase_report_done`).
    pub fn run_showcase_report(&mut self)
        requires
            old(self).wf(),
        ensures
            final(self).wf(),
            showcase_report_done(*old(self), *final(self)),
    {
        let answer: &str = if self.session.mission.command_count < u32::MAX {
            admission_text(self.session.mission.admit_command(CommandKind::DismissPrompt))
        } else {
            "command limit reached"
        };
        let mut notice = crate::devices::showcase::run_all_showcases();
        notice.append(" — tutorial command: ");
        notice.append(answer);
        self.notice = notice;
    }

    /// Replay every campaign scenario and report them (see
    /// `scenario_report_done`).
    pub fn run_scenario_report(&mut self)
        requires
            old(self).wf(),
        ensures
            final(self).wf(),
            scenario_report_done(*old(self), *final(self)),
    {
        self.notice = crate::replay::run_all_scenarios(&self.content);
    }

    /// Advance the field by a frame of `frame_us` microseconds (see
    /// `frame_advanced`).
    #[verifier::rlimit(60)]
    pub fn advance_simulation(&mut self, frame_us: u64)
        requires
            old(self).wf(),
        ensures
            final(self).wf(),
            frame_advanced(*old(self), *final(self), frame_us),
    {
        let ticks = self.session.update(frame_us);
        let ghost s = self.session;
        if ticks > 0 && shelf_measurable(&self.session.simulation) {
            self.session.mission.on_tick(&self.session.simulation);
        }
        if ticks > 0 && self.session.mission.phase == MissionPhase::Success {
            let id = self.session.mission.id;
            let tick = self.session.mission.tick;
            self.session.campaign.record_success(id, tick);
            self.session.time_control = TimeControl::Paused;
            self.request = Some(Request::Autosave);
        }
        proof {
            assert(session_advanced(old(self).session, s, frame_us, ticks));
        }
    }

    /// One frame of the game (see `frame_done`).
    pub fn advance_frame(&mut self, frame_us: u64)
        requires
            old(self).wf(),
        ensures
            final(self).wf(),
            frame_done(*old(self), *final(self), frame_us),
    {
        if self.frontend_mode == FrontendMode::Playing && self.session.mission.phase != MissionPhase::Briefing
            && !self.pause_menu {
            self.advance_simulation(frame_us);
        }
    }

    /// The application saved, or failed to (see `save_finished`).
    pub fn finish_save(&mut self, result: Result<(), String>)
        requires
            old(self).wf(),
        ensures
            final(self).wf(),
            save_finished(*old(self), *final(self), result),
    {
        self.request = None;
        self.notice = match result {
            Ok(()) => "Checkpoint saved".to_owned(),
            Err(e) => e,
        };
    }

    /// The application saved after a mission success, or failed to (see
    /// `autosave_finished`).
    pub fn finish_autosave(&mut self, result: Result<(), String>)
        requires
            old(self).wf(),
        ensures
            final(self).wf(),
            autosave_finished(*old(self), *final(self), result),
    {
        self.request = None;
        match result {
            Ok(()) => {
                let mut notice = "Mission success — ".to_owned();
                let title = mission_title(&self.content, self.session.mission.id);
                notice.append(title.as_str());
                notice.append(" complete and campaign progress saved");
                self.notice = notice;
            },
            Err(e) => {
                let mut notice = "Mission complete; campaign autosave needs attention: ".to_owned();
                notice.append(e.as_str());
                self.notice = notice;
            },
        }
    }

    /// The application loaded a session, or failed to (see `load_finished`).
    pub fn finish_load(&mut self, result: Result<GameSession, String>)
        requires
            old(self).wf(),
        ensures
            final(self).wf(),
            load_finished(*old(self), *final(self), result),
    {
        self.request = None;
        match result {
            Ok(session) => {
                if session.simulation.is_well_formed() {
                    self.session = session;
                    self.notice = "Checkpoint loaded".to_owned();
                } else {
                    self.notice = "Save simulation is malformed".to_owned();
                }
            },
            Err(e) => {
                self.notice = e;
            },
        }
    }

    /// Leave a front-end screen for the title.
    pub fn frontend_escape(&mut self)
        ensures
            *final(self) == (Game { frontend_mode: FrontendMode::Title, ..*old(self) }),
    {
        self.frontend_mode = FrontendMode::Title;
    }

    /// Take choice `choice` on the front-end screen shown (see
    /// `frontend_chosen`).
    pub fn frontend_choice(&mut self, choice: usize)
        requires
            old(self).wf(),
        ensures
            final(self).wf(),
            frontend_chosen(*old(self), *final(self), choice),
    {
        match self.frontend_mode {
            FrontendMode::Title => {
                if choice == 0 {
                    self.start_new_campaign();
                } else if choice == 1 {
                    self.frontend_mode = FrontendMode::CampaignSelect;
                } else if choice == 2 {
                    self.frontend_mode = FrontendMode::VerificationSelect;
                }
            },
            FrontendMode::CampaignSelect => {
                if choice <= 2 {
                    let missions = MissionId::ALL;
                    self.select_mission(missions[choice]);
                }
            },
            FrontendMode::VerificationSelect => {
                if choice == 0 {
                    self.verification_returns_to_menu = true;
                    self.toggle_lab_mode();
                } else if choice <= 10 {
                    self.verification_returns_to_menu = true;
                    let devices = DeviceId::ALL;
                    self.enter_showcase(devices[choice - 1]);
                }
            },
            FrontendMode::Playing => {},
        }
    }

    /// Carry out `action` (see `action_done`); false only for a selection off the
    /// simulation grid.
    pub fn dispatch_action(&mut self, action: UiAction) -> (handled: bool)
        requires
            old(self).wf(),
        ensures
            final(self).wf(),
            action_done(*old(self), *final(self), action, handled),
    {
        match action {
            UiAction::TogglePause => self.toggle_pause(),
            UiAction::SetTime(time) => self.set_time(time),
            UiAction::Select(pos) => {
                return self.select(pos);
            },
            UiAction::MoveSelection(dx, dy) => self.move_selection(dx, dy),
            UiAction::Inspect => self.inspect(),
            UiAction::Terrain(a) => self.apply_terrain(a),
            UiAction::QueueDevice(d) => self.queue_device(d),
            UiAction::RotatePlacement => self.rotate_placement(),
            UiAction::CommitPlan => self.commit_build_plan(),
            UiAction::CancelPlan => self.cancel_build_plan(),
            UiAction::SetGate(s) => self.set_gate(s),
            UiAction::RecoverDeposit => self.recover_selected_deposit(),
            UiAction::ToggleSelectedDevice => self.toggle_selected_device(),
            UiAction::Save => {
                self.request = Some(Request::Save);
            },
            UiAction::Load => {
                self.request = Some(Request::Load);
            },
            UiAction::ResetMission => self.reset_mission(),
            UiAction::BeginMission => self.begin_mission(),
            UiAction::SkipTutorial => self.skip_tutorial(),
            UiAction::ToggleLab => self.toggle_lab_mode(),
            UiAction::EnterShowcase(d) => self.enter_showcase(d),
            UiAction::RestoreCampaign => self.restore_campaign_session(),
            UiAction::StepVerification => self.step_verification(),
            UiAction::NextCampaign => self.select_next_campaign(),
            UiAction::StartNewCampaign => self.start_new_campaign(),
            UiAction::OpenCampaignSelect => {
                self.frontend_mode = FrontendMode::CampaignSelect;
            },
            UiAction::OpenVerificationSelect => {
                self.frontend_mode = FrontendMode::VerificationSelect;
            },
            UiAction::SelectMission(id) => self.select_mission(id),
            UiAction::TerminalPrimary => self.terminal_primary(),
            UiAction::TerminalSecondary => self.terminal_secondary(),
            UiAction::ResetVerification => self.reset_verification(),
            UiAction::RemoveSelectedDevice => self.remove_selected_device(),
            UiAction::Checkpoint => self.take_checkpoint(),
            UiAction::FailMission => self.fail_mission(),
            UiAction::ReloadMission => {
                let id = self.session.mission.id;
                self.load_mission(id, "reloaded from authored state");
            },
            UiAction::Inject(f) => self.inject_at_selection(f),
            UiAction::CycleOverlay => self.cycle_overlay(),
            UiAction::RunShowcaseReport => self.run_showcase_report(),
            UiAction::RunScenarioReport => self.run_scenario_report(),
            UiAction::DismissPrompt => {
                let _ = self.admit_command(CommandKind::DismissPrompt);
            },
        }
        true
    }
}

} // verus!
