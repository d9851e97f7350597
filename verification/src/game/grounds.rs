//! The verification grounds: the fluids laboratory and the device showcases,
//! which stand in for the campaign session until the operator returns to it.

use vstd::prelude::*;

use super::flow::{centre, survey_of};
use super::{FrontendMode, Game, VerificationMode};
use crate::devices::showcase::{showcase_shape, showcase_world};
use crate::devices::DeviceId;
use crate::lab::lab_shape;
use crate::mission::state::{new_spec, shelf_measurable, shelf_rock, tick_spec, MissionState, MissionView};
use crate::mission::{MissionId, MissionPhase};
use crate::replay::snapshot::{lemma_same_world_wf, same_world, snapshot_world};
use crate::simulation::SimulationWorld;
use crate::state::session::{same_session, session_ticked};
use crate::state::{CellPos, GameSession, TimeControl, WorldState};
use crate::text::{decimal, push_decimal, push_signed, signed_decimal};

verus! {

/// `s1` is a verification session taken over from `s0`: its survey follows its
/// simulation, the second mission is running as its stand-in, its tick is the
/// simulation's, time is paused, and the campaign and pending time are kept.
pub open spec fn stand_in_session(s0: GameSession, s1: GameSession, content: crate::content::ContentRegistry) -> bool {
    &&& survey_of(s1.world, s1.simulation)
    &&& s1.mission@ == (MissionView { phase: MissionPhase::Active, ..new_spec(MissionId::L02HoldingLine, content) })
    &&& s1.tick == s1.simulation.tick
    &&& s1.time_control == TimeControl::Paused
    &&& s1.campaign == s0.campaign
    &&& s1.accumulator_us == s0.accumulator_us
}

/// A freshly built laboratory.
pub open spec fn fresh_lab(world: SimulationWorld) -> bool {
    &&& lab_shape(world)
    &&& world.tick == 0
    &&& world.room_for(1000)
}

/// `g1` is `g0` with the laboratory open at tick zero: a copy of the campaign
/// session put aside, the laboratory rebuilt and copied into the session, the
/// centre cell selected and the laboratory's grid framed.
pub open spec fn lab_entered(g0: Game, g1: Game) -> bool {
    let s = g1.session;
    &&& g1.saved_campaign_session matches Some(c) && same_session(g0.session, c)
    &&& fresh_lab(g1.lab.world)
    &&& same_world(g1.lab.world, s.simulation)
    &&& stand_in_session(g0.session, s, g0.content)
    &&& s.selected == centre(s.simulation.width, s.simulation.height)
    &&& g1 == (Game {
        session: s,
        saved_campaign_session: g1.saved_campaign_session,
        verification_mode: Some(VerificationMode::Lab),
        lab: g1.lab,
        camera_request: Some((s.simulation.width, s.simulation.height)),
        frontend_mode: FrontendMode::Playing,
        notice: g1.notice,
        ..g0
    })
    &&& g1.notice@ == "lab_fluids_all ready at tick 0 — use the visible time controls to observe transfers"@
}

/// `g1` is `g0` back from a verification map: to the verification grounds
/// screen when the map was entered from there (the stand-in session stays),
/// otherwise to the campaign session `c` that was put aside.
pub open spec fn returned(g0: Game, g1: Game, c: GameSession) -> bool {
    if g0.verification_returns_to_menu {
        &&& g1 == (Game {
            saved_campaign_session: None,
            verification_mode: None,
            verification_returns_to_menu: false,
            frontend_mode: FrontendMode::VerificationSelect,
            notice: g1.notice,
            ..g0
        })
        &&& g1.notice@ == "Returned to verification grounds"@
    } else {
        &&& g1 == (Game {
            session: c,
            saved_campaign_session: None,
            verification_mode: None,
            camera_request: Some((c.simulation.width, c.simulation.height)),
            notice: g1.notice,
            ..g0
        })
        &&& g1.notice@ == "Returned to campaign session"@
    }
}

/// `g1` is `g0` after toggling the laboratory: back from it when a campaign
/// session was put aside, into it otherwise.
pub open spec fn lab_toggled(g0: Game, g1: Game) -> bool {
    match g0.saved_campaign_session {
        Some(c) => returned(g0, g1, c),
        None => lab_entered(g0, g1),
    }
}

/// `g1` is `g0` with the showcase of `device` open: the campaign session put
/// aside unless one already is, the showcase world in the session, the cell
/// beside the device selected and the showcase grid framed.
pub open spec fn showcase_entered(g0: Game, g1: Game, device: DeviceId) -> bool {
    let s = g1.session;
    &&& match g0.saved_campaign_session {
        Some(c) => g1.saved_campaign_session == Some(c),
        None => g1.saved_campaign_session matches Some(c) && same_session(g0.session, c),
    }
    &&& showcase_shape(s.simulation, device)
    &&& s.simulation.tick == 1
    &&& stand_in_session(g0.session, s, g0.content)
    &&& s.selected == (CellPos { x: 16, y: 9 })
    &&& g1 == (Game {
        session: s,
        saved_campaign_session: g1.saved_campaign_session,
        verification_mode: Some(VerificationMode::Showcase(device)),
        camera_request: Some((32, 18)),
        frontend_mode: FrontendMode::Playing,
        notice: g1.notice,
        ..g0
    })
    &&& g1.notice@ == "device_"@ + device.name_spec() + " ready"@
}

/// `g1` is `g0` after asking to return to the campaign: as `returned` when a
/// campaign session was put aside, no change otherwise.
pub open spec fn campaign_restored(g0: Game, g1: Game) -> bool {
    match g0.saved_campaign_session {
        Some(c) => returned(g0, g1, c),
        None => g1 == g0,
    }
}

/// `g1` is `g0` with its verification map rebuilt: the laboratory from scratch,
/// or the showcase world; the survey follows, the session's tick is the map's
/// and time is paused. Nothing changes outside a verification map.
pub open spec fn grounds_reset(g0: Game, g1: Game) -> bool {
    let s = g1.session;
    match g0.verification_mode {
        None => g1 == g0,
        Some(mode) => {
            &&& match mode {
                VerificationMode::Lab => fresh_lab(g1.lab.world) && same_world(g1.lab.world, s.simulation),
                VerificationMode::Showcase(device) => g1.lab == g0.lab && showcase_shape(s.simulation, device)
                    && s.simulation.tick == 1,
            }
            &&& survey_of(s.world, s.simulation)
            &&& s.tick == s.simulation.tick
            &&& s == (GameSession {
                world: s.world,
                simulation: s.simulation,
                tick: s.tick,
                time_control: TimeControl::Paused,
                ..g0.session
            })
            &&& g1 == (Game { session: s, lab: g1.lab, notice: g1.notice, ..g0 })
            &&& g1.notice@ == "Verification map reset"@
        },
    }
}

/// The notice after a verification tick: the map's tick and its mass balance,
/// when the counters can be read.
pub open spec fn step_notice(w: SimulationWorld) -> Seq<char> {
    "Verification tick "@ + decimal(w.tick as nat) + if w.room_for(0) {
        " — balance "@ + signed_decimal(w.balance()) + " vU"@
    } else {
        " — balance out of range"@
    }
}

/// `g1` is `g0` after one tick of its verification map: the session ticks (see
/// `session_ticked`), the stand-in mission ticks when the reaction shelf can be
/// measured, and the notice reports the tick and balance. Nothing changes
/// outside a verification map.
pub open spec fn grounds_stepped(g0: Game, g1: Game) -> bool {
    if g0.verification_mode is None {
        g1 == g0
    } else {
        exists|s: GameSession|
            {
                &&& #[trigger] session_ticked(g0.session, s)
                &&& g1 == (Game { session: GameSession { mission: g1.session.mission, ..s }, notice: g1.notice, ..g0 })
                &&& g1.session.mission@ == if shelf_rock(s.simulation) <= u32::MAX {
                    tick_spec(s.mission@, s.simulation)
                } else {
                    s.mission@
                }
                &&& g1.notice@ == step_notice(s.simulation)
            }
    }
}

impl Game {
    /// Open the laboratory, or come back from it (see `lab_toggled`).
    pub fn toggle_lab_mode(&mut self)
        requires
            old(self).wf(),
        ensures
            final(self).wf(),
            lab_toggled(*old(self), *final(self)),
    {
        if self.saved_campaign_session.is_some() {
            self.return_from_grounds();
            return;
        }
        let campaign = self.session.snapshot();
        proof {
            lemma_same_world_wf(self.session.simulation, campaign.simulation);
        }
        self.lab.reset();
        let simulation = snapshot_world(&self.lab.world);
        proof {
            lemma_same_world_wf(self.lab.world, simulation);
        }
        self.enter_stand_in(simulation);
        self.session.selected = CellPos { x: self.session.simulation.width / 2, y: self.session.simulation.height / 2 };
        self.saved_campaign_session = Some(campaign);
        self.verification_mode = Some(VerificationMode::Lab);
        self.camera_request = Some((self.session.simulation.width, self.session.simulation.height));
        self.frontend_mode = FrontendMode::Playing;
        self.notice = "lab_fluids_all ready at tick 0 — use the visible time controls to observe transfers".to_owned();
    }

    /// Put `simulation` in the session with the stand-in mission (see
    /// `stand_in_session`).
    fn enter_stand_in(&mut self, simulation: SimulationWorld)
        requires
            simulation.wf(),
        ensures
            stand_in_session(old(self).session, final(self).session, old(self).content),
            final(self).session.simulation == simulation,
            final(self).session.selected == old(self).session.selected,
            *final(self) == (Game { session: final(self).session, ..*old(self) }),
    {
        self.session.simulation = simulation;
        self.session.world = WorldState::from_simulation(&self.session.simulation);
        let mut mission = MissionState::new(MissionId::L02HoldingLine, &self.content);
        mission.start();
        self.session.mission = mission;
        self.session.tick = self.session.simulation.tick;
        self.session.time_control = TimeControl::Paused;
    }

    /// Go back from a verification map (see `returned`); the campaign session
    /// put aside must be there.
    fn return_from_grounds(&mut self)
        requires
            old(self).wf(),
            old(self).saved_campaign_session is Some,
        ensures
            final(self).wf(),
            returned(*old(self), *final(self), old(self).saved_campaign_session->0),
    {
        let mut saved: Option<GameSession> = None;
        std::mem::swap(&mut saved, &mut self.saved_campaign_session);
        match saved {
            Some(campaign) => {
                if self.verification_returns_to_menu {
                    self.verification_mode = None;
                    self.verification_returns_to_menu = false;
                    self.frontend_mode = FrontendMode::VerificationSelect;
                    self.notice = "Returned to verification grounds".to_owned();
                } else {
                    let camera = (campaign.simulation.width, campaign.simulation.height);
                    self.session = campaign;
                    self.verification_mode = None;
                    self.camera_request = Some(camera);
                    self.notice = "Returned to campaign session".to_owned();
                }
            },
            None => {},
        }
    }

    /// Open the showcase of `device` (see `showcase_entered`).
    pub fn enter_showcase(&mut self, device: DeviceId)
        requires
            old(self).wf(),
        ensures
            final(self).wf(),
            showcase_entered(*old(self), *final(self), device),
    {
        if self.saved_campaign_session.is_none() {
            let campaign = self.session.snapshot();
            proof {
                lemma_same_world_wf(self.session.simulation, campaign.simulation);
            }
            self.saved_campaign_session = Some(campaign);
        }
        let world = showcase_world(device);
        self.enter_stand_in(world);
        self.session.selected = CellPos { x: 16, y: 9 };
        self.verification_mode = Some(VerificationMode::Showcase(device));
        self.camera_request = Some((32, 18));
        self.frontend_mode = FrontendMode::Playing;
        let mut notice = "device_".to_owned();
        notice.append(device.name());
        notice.append(" ready");
        self.notice = notice;
    }

    /// Go back to the campaign session, when one was put aside (see
    /// `campaign_restored`).
    pub fn restore_campaign_session(&mut self)
        requires
            old(self).wf(),
        ensures
            final(self).wf(),
            campaign_restored(*old(self), *final(self)),
    {
        if self.saved_campaign_session.is_some() {
            self.return_from_grounds();
        }
    }

    /// Rebuild the verification map (see `grounds_reset`).
    pub fn reset_verification(&mut self)
        requires
            old(self).wf(),
        ensures
            final(self).wf(),
            grounds_reset(*old(self), *final(self)),
    {
        match self.verification_mode {
            Some(VerificationMode::Lab) => {
                self.lab.reset();
                let simulation = snapshot_world(&self.lab.world);
                proof {
                    lemma_same_world_wf(self.lab.world, simulation);
                }
                self.session.simulation = simulation;
            },
            Some(VerificationMode::Showcase(device)) => {
                self.session.simulation = showcase_world(device);
            },
            None => {
                return;
            },
        }
        self.session.world = WorldState::from_simulation(&self.session.simulation);
        self.session.tick = self.session.simulation.tick;
        self.session.time_control = TimeControl::Paused;
        self.notice = "Verification map reset".to_owned();
    }

    /// Run one tick of the verification map (see `grounds_stepped`).
    pub fn step_verification(&mut self)
        requires
            old(self).wf(),
        ensures
            final(self).wf(),
            grounds_stepped(*old(self), *final(self)),
    {
        if self.verification_mode.is_none() {
            return;
        }
        self.session.tick();
        let ghost ticked = self.session;
        if shelf_measurable(&self.session.simulation) {
            self.session.mission.on_tick(&self.session.simulation);
        }
        let mut notice = "Verification tick ".to_owned();
        push_decimal(&mut notice, self.session.simulation.tick);
        if self.session.simulation.counters_in_range() {
            notice.append(" — balance ");
            let balance = self.session.simulation.mass_balance_error();
            push_signed(&mut notice, balance);
            notice.append(" vU");
        } else {
            notice.append(" — balance out of range");
        }
        self.notice = notice;
        proof {
            assert(session_ticked(old(self).session, ticked));
            assert(*self == (Game { session: GameSession { mission: self.session.mission, ..ticked }, notice: self.notice, ..*old(self) }));
            assert(self.session.mission@ == if shelf_rock(ticked.simulation) <= u32::MAX {
                tick_spec(ticked.mission@, ticked.simulation)
            } else {
                ticked.mission@
            });
            assert(self.notice@ == step_notice(ticked.simulation));
        }
    }
}

} // verus!
