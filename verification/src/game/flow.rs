//! Moving between sessions: loading and restarting campaign missions,
//! checkpoints, the mission lifecycle, the campaign board and the end-of-mission
//! choices.

use vstd::prelude::*;

use super::{mission_title, mission_title_spec, sources_set, FrontendMode, Game};
use crate::campaign::{campaign_world, load_campaign};
use crate::mission::progress::CampaignProgress;
use crate::mission::state::{fail_spec, new_spec, MissionState, MissionView};
use crate::mission::{skip_spec, MissionId, MissionPhase};
use crate::state::session::{same_session, survey_follows};
use crate::state::{CellPos, GameSession, TimeControl, WorldState};
use crate::text::{decimal, push_decimal};

verus! {

/// `world` is the survey of `simulation`: the same size, and each cell's height
/// and seal.
pub open spec fn survey_of(world: WorldState, simulation: crate::simulation::SimulationWorld) -> bool {
    &&& world.width == simulation.width
    &&& world.height == simulation.height
    &&& world.cells@.len() == simulation.cells@.len()
    &&& survey_follows(world, simulation)
}

/// The centre cell of a `width` by `height` grid.
pub open spec fn centre(width: u16, height: u16) -> CellPos {
    CellPos { x: (width / 2) as u16, y: (height / 2) as u16 }
}

/// `s` is a fresh session on campaign mission `id` of `content`, in its briefing,
/// with `campaign` as its progress: the campaign world with its source running
/// from the start unless the mission is the first, its survey, the centre cell
/// selected, time paused and nothing pending.
pub open spec fn fresh_mission(s: GameSession, content: crate::content::ContentRegistry, id: MissionId, campaign: CampaignProgress) -> bool {
    &&& exists|w: crate::simulation::SimulationWorld|
        #[trigger] campaign_world(content, id, w) && sources_set(w, s.simulation, id != MissionId::L01FirstFlow)
    &&& survey_of(s.world, s.simulation)
    &&& s.mission@ == new_spec(id, content)
    &&& s.campaign == campaign
    &&& s.tick == 0
    &&& s.selected == centre(s.simulation.width, s.simulation.height)
    &&& s.time_control == TimeControl::Paused
    &&& s.accumulator_us == 0
}

/// `g1` is `g0` with campaign mission `id` freshly loaded, keeping the campaign
/// progress, dropping the checkpoint, showing the field, framing the mission's
/// grid and naming the mission and `reason` in the notice.
pub open spec fn mission_loaded(g0: Game, g1: Game, id: MissionId, reason: Seq<char>) -> bool {
    &&& fresh_mission(g1.session, g0.content, id, g0.session.campaign)
    &&& g1 == (Game {
        session: g1.session,
        checkpoint_session: None,
        frontend_mode: FrontendMode::Playing,
        camera_request: Some((g1.session.simulation.width, g1.session.simulation.height)),
        notice: g1.notice,
        ..g0
    })
    &&& g1.notice@ == mission_title_spec(g0.content, id) + " "@ + reason
}

/// `g1` is `g0` after restarting: from the checkpoint, when there is one, keeping
/// the campaign progress and pausing; otherwise the mission reloads from its
/// briefing.
pub open spec fn mission_reset(g0: Game, g1: Game) -> bool {
    match g0.checkpoint_session {
        Some(cp) => {
            &&& same_session(cp, GameSession { campaign: cp.campaign, time_control: cp.time_control, ..g1.session })
            &&& g1.session.campaign == g0.session.campaign
            &&& g1.session.time_control == TimeControl::Paused
            &&& g1 == (Game { session: g1.session, notice: g1.notice, ..g0 })
            &&& g1.notice@ == "Checkpoint restored at tick "@ + decimal(cp.mission@.checkpoint_tick as nat)
        },
        None => mission_loaded(g0, g1, g0.session.mission.id, "restarted from briefing"@),
    }
}

/// The first mission after `current` in campaign order that the progress unlocks.
pub open spec fn next_unlocked(campaign: CampaignProgress, current: MissionId) -> Option<MissionId> {
    if current.sequence_spec() < 2 && campaign.unlocked@[1] {
        Some(MissionId::L02HoldingLine)
    } else if current.sequence_spec() < 3 && campaign.unlocked@[2] {
        Some(MissionId::L03Firebreak)
    } else {
        None
    }
}

/// Some mission after `current` in campaign order is unlocked.
pub open spec fn later_unlocked(campaign: CampaignProgress, current: MissionId) -> bool {
    exists|k: MissionId| k.sequence_spec() > current.sequence_spec() && #[trigger] campaign.unlocked@[k.sequence_spec() - 1]
}

/// The next campaign level is the unlocked level of least sequence after the
/// current one: it comes later, it is unlocked, and every level between them is
/// locked; there is none exactly when no later level is unlocked.
pub proof fn law_next_unlocked_is_first_later(campaign: CampaignProgress, current: MissionId)
    ensures
        next_unlocked(campaign, current) is None <==> !later_unlocked(campaign, current),
        next_unlocked(campaign, current) matches Some(n) ==> {
            &&& n.sequence_spec() > current.sequence_spec()
            &&& campaign.unlocked@[n.sequence_spec() - 1]
            &&& forall|k: MissionId|
                current.sequence_spec() < k.sequence_spec() < n.sequence_spec() ==> !#[trigger] campaign.unlocked@[k.sequence_spec() - 1]
        },
{
    if later_unlocked(campaign, current) {
        let k = choose|k: MissionId| k.sequence_spec() > current.sequence_spec() && #[trigger] campaign.unlocked@[k.sequence_spec() - 1];
        assert(next_unlocked(campaign, current) is Some);
    } else {
        if current.sequence_spec() < 2 && campaign.unlocked@[1] {
            assert(campaign.unlocked@[MissionId::L02HoldingLine.sequence_spec() - 1]);
        }
        if current.sequence_spec() < 3 && campaign.unlocked@[2] {
            assert(campaign.unlocked@[MissionId::L03Firebreak.sequence_spec() - 1]);
        }
    }
}

/// Asking for the next campaign level loads the unlocked level of least sequence
/// after the current one, and changes no session when no later level is unlocked.
pub proof fn law_next_campaign_loads_first_later_unlocked(g0: Game, g1: Game)
    requires
        next_campaign_done(g0, g1),
    ensures
        later_unlocked(g0.session.campaign, g0.session.mission.id) ==> {
            let n = g1.session.mission@.id;
            &&& n.sequence_spec() > g0.session.mission.id.sequence_spec()
            &&& g0.session.campaign.unlocked@[n.sequence_spec() - 1]
            &&& forall|k: MissionId|
                g0.session.mission.id.sequence_spec() < k.sequence_spec() < n.sequence_spec()
                    ==> !#[trigger] g0.session.campaign.unlocked@[k.sequence_spec() - 1]
        },
        !later_unlocked(g0.session.campaign, g0.session.mission.id) ==> g1.session == g0.session,
{
    law_next_unlocked_is_first_later(g0.session.campaign, g0.session.mission.id);
}

/// `g1` is `g0` after asking for the next campaign mission: the next unlocked one
/// loads, or the notice says none is unlocked and shows the campaign line.
pub open spec fn next_campaign_done(g0: Game, g1: Game) -> bool {
    match next_unlocked(g0.session.campaign, g0.session.mission.id) {
        Some(id) => mission_loaded(g0, g1, id, "selected from campaign progression"@),
        None => {
            &&& g1 == (Game { notice: g1.notice, ..g0 })
            &&& g1.notice@ == "No later campaign level is unlocked — "@ + crate::mission::progress::summary_part(
                g0.content,
                MissionId::L01FirstFlow,
            ) + " | "@ + crate::mission::progress::summary_part(g0.content, MissionId::L02HoldingLine) + " | "@
                + crate::mission::progress::summary_part(g0.content, MissionId::L03Firebreak)
        },
    }
}

/// `g1` is `g0` after choosing mission `id` on the campaign board: it loads when
/// unlocked, and the notice says it is locked otherwise.
pub open spec fn mission_chosen(g0: Game, g1: Game, id: MissionId) -> bool {
    if g0.session.campaign.unlocked@[id.sequence_spec() - 1] {
        mission_loaded(g0, g1, id, "selected from campaign board"@)
    } else {
        &&& g1 == (Game { notice: g1.notice, ..g0 })
        &&& g1.notice@ == mission_title_spec(g0.content, id) + " is locked — finish earlier campaign work first"@
    }
}

/// `g1` is `g0` after leaving the briefing: a mission in its briefing starts and
/// the notice says so; otherwise nothing changes.
pub open spec fn mission_begun(g0: Game, g1: Game) -> bool {
    if g0.session.mission.phase == MissionPhase::Briefing {
        &&& g1 == (Game { session: GameSession { mission: g1.session.mission, ..g0.session }, notice: g1.notice, ..g0 })
        &&& g1.session.mission@ == (MissionView { phase: MissionPhase::Active, ..g0.session.mission@ })
        &&& g1.notice@ == mission_title_spec(g0.content, g0.session.mission.id)
            + " operation active — follow the field guide and begin when ready"@
    } else {
        g1 == g0
    }
}

/// The mission after asking to skip its tutorial.
pub open spec fn skipped_mission(m: MissionView) -> MissionView {
    if m.phase == MissionPhase::Active {
        MissionView {
            tutorial: match m.tutorial {
                Some(t) => Some(skip_spec(t)),
                None => None,
            },
            ..m
        }
    } else {
        m
    }
}

/// `g1` is `g0` after asking to skip the tutorial: when the tutorial ends up
/// complete the authored sources start; the notice says which.
pub open spec fn tutorial_skipped(g0: Game, g1: Game) -> bool {
    let m1 = skipped_mission(g0.session.mission@);
    let complete = m1.tutorial matches Some(t) && (t.current == crate::mission::finished_step() || t.skip_confirmed);
    &&& g1 == (Game {
        session: GameSession { mission: g1.session.mission, simulation: g1.session.simulation, ..g0.session },
        notice: g1.notice,
        ..g0
    })
    &&& g1.session.mission@ == m1
    &&& if complete {
        sources_set(g0.session.simulation, g1.session.simulation, true)
    } else {
        g1.session.simulation == g0.session.simulation
    }
    &&& g1.notice@ == if complete {
        "Tutorial skipped — L01 build kit unlocked; source enabled"@
    } else {
        "Tutorial skip unavailable"@
    }
}

/// `g1` is `g0` with the mission's checkpoint set to its tick and a copy of the
/// session kept as the checkpoint.
pub open spec fn checkpoint_taken(g0: Game, g1: Game) -> bool {
    let m1 = MissionView { checkpoint_tick: g0.session.mission.tick, ..g0.session.mission@ };
    &&& g1 == (Game {
        session: GameSession { mission: g1.session.mission, ..g0.session },
        checkpoint_session: g1.checkpoint_session,
        notice: g1.notice,
        ..g0
    })
    &&& g1.session.mission@ == m1
    &&& g1.checkpoint_session matches Some(cp) && same_session(g1.session, cp)
    &&& g1.notice@ == "Mission checkpoint recorded at tick "@ + decimal(g0.session.mission.tick as nat)
}

/// `g1` is `g0` with an active mission failed on purpose.
pub open spec fn mission_failed(g0: Game, g1: Game) -> bool {
    &&& g1 == (Game { session: GameSession { mission: g1.session.mission, ..g0.session }, notice: g1.notice, ..g0 })
    &&& g1.session.mission@ == fail_spec(g0.session.mission@, "manual failure-path check"@)
    &&& g1.notice@ == "Mission failed — reset to checkpoint"@
}

/// A clean campaign: only the first mission unlocked, nothing completed.
pub open spec fn clean_campaign(c: CampaignProgress) -> bool {
    &&& c.unlocked@ == seq![true, false, false]
    &&& c.completed@ == seq![false, false, false]
    &&& c.best_ticks@ == seq![None::<u64>, None, None]
    &&& c.content_version@ == "1.2.0"@
}

/// `g1` is `g0` after starting a new campaign: no checkpoint, no campaign session
/// put aside, no verification map, and the first mission loaded on a clean
/// campaign.
pub open spec fn campaign_started(g0: Game, g1: Game) -> bool {
    let g = Game {
        session: GameSession { campaign: g1.session.campaign, ..g0.session },
        checkpoint_session: None,
        saved_campaign_session: None,
        verification_mode: None,
        verification_returns_to_menu: false,
        ..g0
    };
    &&& clean_campaign(g1.session.campaign)
    &&& mission_loaded(g, g1, MissionId::L01FirstFlow, "new campaign deployment"@)
}

/// `g1` is `g0` after the first end-of-mission choice: the next mission after a
/// success, a restart otherwise.
pub open spec fn terminal_primary_done(g0: Game, g1: Game) -> bool {
    if g0.session.mission.phase == MissionPhase::Success {
        next_campaign_done(g0, g1)
    } else {
        mission_reset(g0, g1)
    }
}

/// `g1` is `g0` after the second end-of-mission choice: the campaign board after
/// a success; otherwise the checkpoint is dropped and the mission reloads.
pub open spec fn terminal_secondary_done(g0: Game, g1: Game) -> bool {
    if g0.session.mission.phase == MissionPhase::Success {
        &&& g1 == (Game { frontend_mode: FrontendMode::CampaignSelect, notice: g1.notice, ..g0 })
        &&& g1.notice@ == "Campaign board opened after mission success"@
    } else {
        mission_loaded(Game { checkpoint_session: None, ..g0 }, g1, g0.session.mission.id, "restarted from failure"@)
    }
}

impl Game {
    /// Load campaign mission `id` afresh (see `mission_loaded`).
    pub fn load_mission(&mut self, id: MissionId, reason: &str)
        requires
            old(self).wf(),
        ensures
            final(self).wf(),
            mission_loaded(*old(self), *final(self), id, reason@),
    {
        let mut campaign_progress = CampaignProgress::default();
        std::mem::swap(&mut campaign_progress, &mut self.session.campaign);
        let campaign = load_campaign(id, &self.content);
        let ghost authored = campaign.world;
        let mut simulation = campaign.world;
        simulation.set_sources_enabled(id != MissionId::L01FirstFlow);
        let world = WorldState::from_simulation(&simulation);
        let selected = CellPos { x: simulation.width / 2, y: simulation.height / 2 };
        let camera = (simulation.width, simulation.height);
        self.session = GameSession {
            world,
            simulation,
            mission: MissionState::new(id, &self.content),
            campaign: campaign_progress,
            tick: 0,
            selected,
            time_control: TimeControl::Paused,
            accumulator_us: 0,
        };
        self.camera_request = Some(camera);
        self.checkpoint_session = None;
        self.frontend_mode = FrontendMode::Playing;
        let mut notice = mission_title(&self.content, id);
        notice.append(" ");
        notice.append(reason);
        self.notice = notice;
        proof {
            assert(campaign_world(old(self).content, id, authored));
        }
    }

    /// Restart the mission (see `mission_reset`).
    pub fn reset_mission(&mut self)
        requires
            old(self).wf(),
        ensures
            final(self).wf(),
            mission_reset(*old(self), *final(self)),
    {
        match &self.checkpoint_session {
            Some(checkpoint) => {
                let mut restored = checkpoint.snapshot();
                std::mem::swap(&mut restored.campaign, &mut self.session.campaign);
                restored.time_control = TimeControl::Paused;
                let mut notice = "Checkpoint restored at tick ".to_owned();
                push_decimal(&mut notice, restored.mission.checkpoint_tick);
                self.session = restored;
                self.notice = notice;
                proof {
                    let cp = old(self).checkpoint_session->0;
                    crate::replay::snapshot::lemma_same_world_wf(cp.simulation, self.session.simulation);
                }
            },
            None => {
                let id = self.session.mission.id;
                self.load_mission(id, "restarted from briefing");
            },
        }
    }

    /// Ask for the next unlocked campaign mission (see `next_campaign_done`).
    pub fn select_next_campaign(&mut self)
        requires
            old(self).wf(),
        ensures
            final(self).wf(),
            next_campaign_done(*old(self), *final(self)),
    {
        let current = self.session.mission.id.sequence();
        if current < 2 && self.session.campaign.unlocked[1] {
            self.load_mission(MissionId::L02HoldingLine, "selected from campaign progression");
            proof {
                assert(next_unlocked(old(self).session.campaign, old(self).session.mission.id) == Some(MissionId::L02HoldingLine));
            }
        } else if current < 3 && self.session.campaign.unlocked[2] {
            self.load_mission(MissionId::L03Firebreak, "selected from campaign progression");
            proof {
                assert(next_unlocked(old(self).session.campaign, old(self).session.mission.id) == Some(MissionId::L03Firebreak));
            }
        } else {
            let mut notice = "No later campaign level is unlocked — ".to_owned();
            let summary = crate::mission::progress::campaign_summary(&self.content);
            notice.append(summary.as_str());
            self.notice = notice;
            proof {
                assert(next_unlocked(old(self).session.campaign, old(self).session.mission.id) is None);
                assert(*self == (Game { notice: self.notice, ..*old(self) }));
                assert(self.notice@ == "No later campaign level is unlocked — "@ + crate::mission::progress::summary_part(
                    old(self).content,
                    MissionId::L01FirstFlow,
                ) + " | "@ + crate::mission::progress::summary_part(old(self).content, MissionId::L02HoldingLine) + " | "@
                    + crate::mission::progress::summary_part(old(self).content, MissionId::L03Firebreak));
            }
        }
    }

    /// Choose mission `id` on the campaign board (see `mission_chosen`).
    pub fn select_mission(&mut self, id: MissionId)
        requires
            old(self).wf(),
        ensures
            final(self).wf(),
            mission_chosen(*old(self), *final(self), id),
    {
        if self.session.campaign.unlocked[id.sequence() - 1] {
            self.load_mission(id, "selected from campaign board");
        } else {
            let mut notice = mission_title(&self.content, id);
            notice.append(" is locked — finish earlier campaign work first");
            self.notice = notice;
        }
    }

    /// Leave the briefing (see `mission_begun`).
    pub fn begin_mission(&mut self)
        requires
            old(self).wf(),
        ensures
            final(self).wf(),
            mission_begun(*old(self), *final(self)),
    {
        if self.session.mission.phase == MissionPhase::Briefing {
            self.session.mission.start();
            let mut notice = mission_title(&self.content, self.session.mission.id);
            notice.append(" operation active — follow the field guide and begin when ready");
            self.notice = notice;
        }
    }

    /// Ask to skip the tutorial (see `tutorial_skipped`).
    pub fn skip_tutorial(&mut self)
        requires
            old(self).wf(),
        ensures
            final(self).wf(),
            tutorial_skipped(*old(self), *final(self)),
    {
        let _ = self.session.mission.skip_tutorial();
        let complete = match &self.session.mission.tutorial {
            Some(tutorial) => tutorial.is_complete(),
            None => false,
        };
        if complete {
            self.session.simulation.set_sources_enabled(true);
            self.notice = "Tutorial skipped — L01 build kit unlocked; source enabled".to_owned();
        } else {
            self.notice = "Tutorial skip unavailable".to_owned();
        }
    }

    /// Record a checkpoint (see `checkpoint_taken`).
    pub fn take_checkpoint(&mut self)
        requires
            old(self).wf(),
        ensures
            final(self).wf(),
            checkpoint_taken(*old(self), *final(self)),
    {
        self.session.mission.checkpoint();
        let copy = self.session.snapshot();
        proof {
            crate::replay::snapshot::lemma_same_world_wf(self.session.simulation, copy.simulation);
        }
        self.checkpoint_session = Some(copy);
        let mut notice = "Mission checkpoint recorded at tick ".to_owned();
        push_decimal(&mut notice, self.session.mission.checkpoint_tick);
        self.notice = notice;
    }

    /// Fail an active mission on purpose (see `mission_failed`).
    pub fn fail_mission(&mut self)
        requires
            old(self).wf(),
        ensures
            final(self).wf(),
            mission_failed(*old(self), *final(self)),
    {
        self.session.mission.fail("manual failure-path check".to_owned());
        self.notice = "Mission failed — reset to checkpoint".to_owned();
    }

    /// Start a new campaign (see `campaign_started`).
    pub fn start_new_campaign(&mut self)
        requires
            old(self).wf(),
        ensures
            final(self).wf(),
            campaign_started(*old(self), *final(self)),
    {
        self.session.campaign = CampaignProgress::default();
        let ghost clean = self.session.campaign;
        self.checkpoint_session = None;
        self.saved_campaign_session = None;
        self.verification_mode = None;
        self.verification_returns_to_menu = false;
        let ghost g = *self;
        self.load_mission(MissionId::L01FirstFlow, "new campaign deployment");
        proof {
            assert(g == (Game {
                checkpoint_session: None,
                saved_campaign_session: None,
                verification_mode: None,
                verification_returns_to_menu: false,
                session: GameSession { campaign: clean, ..old(self).session },
                ..*old(self)
            }));
        }
    }

    /// The first end-of-mission choice (see `terminal_primary_done`).
    pub fn terminal_primary(&mut self)
        requires
            old(self).wf(),
        ensures
            final(self).wf(),
            terminal_primary_done(*old(self), *final(self)),
    {
        if self.session.mission.phase == MissionPhase::Success {
            self.select_next_campaign();
        } else {
            self.reset_mission();
        }
    }

    /// The second end-of-mission choice (see `terminal_secondary_done`).
    pub fn terminal_secondary(&mut self)
        requires
            old(self).wf(),
        ensures
            final(self).wf(),
            terminal_secondary_done(*old(self), *final(self)),
    {
        if self.session.mission.phase == MissionPhase::Success {
            self.frontend_mode = FrontendMode::CampaignSelect;
            self.notice = "Campaign board opened after mission success".to_owned();
        } else {
            self.checkpoint_session = None;
            let id = self.session.mission.id;
            self.load_mission(id, "restarted from failure");
        }
    }
}

} // verus!
