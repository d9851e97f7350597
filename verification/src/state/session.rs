//! The fixed-tick game session: the survey grid, the simulation, the mission and
//! the campaign, advanced in whole ticks of a tenth of a second; its fingerprint;
//! and its save data and their checks.

use vstd::prelude::*;

use super::{CellPos, CellState, SaveData, TimeControl, WorldState, MAX_TICKS_PER_FRAME};
use crate::content::ContentRegistry;
use crate::data::GameConfig;
use crate::devices::runtime::saturating_inc;
use crate::mission::progress::CampaignProgress;
use crate::mission::state::{new_spec, MissionState, MissionView};
use crate::mission::{MissionId, MissionPhase};
use crate::replay::snapshot::{copy_list, lemma_same_world_fingerprint, same_world, snapshot_mission, snapshot_world};
use crate::replay::{scenario_fingerprint, state_fingerprint, text_words};
use crate::simulation::fingerprint::{flag, fnv_slice, fnv_words};
use crate::simulation::SimulationWorld;
use crate::simulation::step::authored_supply_spec;
use crate::devices::power::turbine_generation;
use crate::text::{decimal, push_decimal};

verus! {

/// Microseconds of simulated time in one tick (ten ticks a second).
pub const TICK_MICROS: u64 = 100_000;

/// The save schema this build writes and the newest it reads.
pub const SAVE_SCHEMA_VERSION: u32 = 3;

/// A running game session. `accumulator_us` holds simulated time, in
/// microseconds, not yet spent on whole ticks.
#[derive(Debug, Clone)]
pub struct GameSession {
    pub world: WorldState,
    pub simulation: SimulationWorld,
    pub mission: MissionState,
    pub campaign: CampaignProgress,
    pub tick: u64,
    pub selected: CellPos,
    pub time_control: TimeControl,
    pub accumulator_us: u64,
}

/// The words of one survey cell.
pub open spec fn survey_cell_words(c: CellState) -> Seq<u64> {
    seq![c.height_hu as u64, flag(c.sealed)]
}

/// The words of the survey cells, one after another.
pub open spec fn survey_cells_words(s: Seq<CellState>) -> Seq<u64>
    decreases s.len(),
{
    if s.len() == 0 {
        seq![]
    } else {
        survey_cells_words(s.drop_last()) + survey_cell_words(s.last())
    }
}

/// The words of the survey grid: its size, then its cells.
pub open spec fn survey_words(w: WorldState) -> Seq<u64> {
    seq![w.width as u64, w.height as u64, w.cells@.len() as u64] + survey_cells_words(w.cells@)
}

/// The words of a best time: a presence flag and the ticks.
pub open spec fn best_words(b: Option<u64>) -> Seq<u64> {
    match b {
        Some(t) => seq![1u64, t],
        None => seq![0u64, 0u64],
    }
}

/// The words of the campaign progress: unlocked and completed flags, best
/// times, then the content version.
pub open spec fn campaign_words(c: CampaignProgress) -> Seq<u64> {
    seq![
        flag(c.unlocked@[0]),
        flag(c.unlocked@[1]),
        flag(c.unlocked@[2]),
        flag(c.completed@[0]),
        flag(c.completed@[1]),
        flag(c.completed@[2]),
    ] + best_words(c.best_ticks@[0]) + best_words(c.best_ticks@[1]) + best_words(c.best_ticks@[2]) + text_words(
        c.content_version@,
    )
}

/// The words of a session's own state: its tick, survey grid, campaign and
/// selected cell.
pub open spec fn session_words(tick: u64, world: WorldState, campaign: CampaignProgress, selected: CellPos) -> Seq<u64> {
    seq![tick] + survey_words(world) + campaign_words(campaign) + seq![selected.x as u64, selected.y as u64]
}

/// The fingerprint of a session's state: the simulation and mission (see
/// `scenario_fingerprint`), then the session's own words (see `session_words`).
pub open spec fn session_fingerprint(
    tick: u64,
    world: WorldState,
    simulation: SimulationWorld,
    mission: MissionView,
    campaign: CampaignProgress,
    selected: CellPos,
) -> u64 {
    fnv_words(scenario_fingerprint(simulation, mission), session_words(tick, world, campaign, selected))
}

/// The fingerprint of the state a save holds.
pub open spec fn save_fingerprint(save: SaveData) -> u64 {
    session_fingerprint(save.tick, save.world, save.simulation, save.mission@, save.campaign, save.selected)
}

/// A save holds a session's state: its tick, survey grid, simulation (as a
/// copy), selected cell, mission and campaign, under `version`.
pub open spec fn saved_from(save: SaveData, session: GameSession, version: Seq<char>) -> bool {
    &&& save.schema_version == SAVE_SCHEMA_VERSION
    &&& save.version@ == version
    &&& save.tick == session.tick
    &&& save.world.width == session.world.width
    &&& save.world.height == session.world.height
    &&& save.world.cells@ == session.world.cells@
    &&& same_world(session.simulation, save.simulation)
    &&& save.selected == session.selected
    &&& save.mission@ == session.mission@
    &&& save.campaign == session.campaign
}

/// A session restored from a save: its state, paused, with no time pending.
pub open spec fn restored_from(session: GameSession, save: SaveData) -> bool {
    &&& session.world == save.world
    &&& session.simulation == save.simulation
    &&& session.mission == save.mission
    &&& session.campaign == save.campaign
    &&& session.tick == save.tick
    &&& session.selected == save.selected
    &&& session.time_control == TimeControl::Paused
    &&& session.accumulator_us == 0
}

/// Survey cells follow the simulation cells they overlap: same height and seal.
pub open spec fn survey_follows(world: WorldState, simulation: SimulationWorld) -> bool {
    forall|i: int|
        0 <= i < world.cells@.len() && i < simulation.cells@.len() ==> {
            &&& (#[trigger] world.cells@[i]).height_hu == simulation.cells@[i].height_hu
            &&& world.cells@[i].sealed == simulation.cells@[i].sealed
        }
}

/// Whether the simulation can take a tick: room for it and power that fits.
pub open spec fn tick_ready(simulation: SimulationWorld) -> bool {
    &&& simulation.room_for(1)
    &&& authored_supply_spec(simulation.power_sources@) + turbine_generation(simulation.devices.devices@) <= u32::MAX
}

/// Pending time plus a frame of `frame_us` scaled by the speed, saturating.
pub open spec fn pending_time(accumulator: u64, frame_us: u64, speed: TimeControl) -> int {
    let scaled = if frame_us * speed_factor(speed) > u64::MAX {
        u64::MAX as int
    } else {
        frame_us * speed_factor(speed)
    };
    if accumulator + scaled > u64::MAX {
        u64::MAX as int
    } else {
        accumulator + scaled
    }
}

/// Simulation ticks per real tick interval at a speed.
pub open spec fn speed_factor(speed: TimeControl) -> int {
    match speed {
        TimeControl::Paused => 0,
        TimeControl::OneX => 1,
        TimeControl::TwoX => 2,
        TimeControl::FourX => 4,
    }
}

/// Whole ticks due for pending time, at most `MAX_TICKS_PER_FRAME`.
pub open spec fn due_ticks(pending: int) -> int {
    if pending / (TICK_MICROS as int) < MAX_TICKS_PER_FRAME {
        pending / (TICK_MICROS as int)
    } else {
        MAX_TICKS_PER_FRAME as int
    }
}

/// `a` plus `n`, saturating at `u64::MAX`.
pub open spec fn saturating_plus(a: u64, n: int) -> u64 {
    if a + n > u64::MAX {
        u64::MAX
    } else {
        (a + n) as u64
    }
}

/// Splitting the time of one frame over two frames, neither of which reaches the
/// per-frame cap, gives the same ticks in all and leaves the same time pending.
pub proof fn lemma_partitioned_frames(pending: int, first: int, second: int)
    requires
        pending >= 0,
        first >= 0,
        second >= 0,
        (pending + first) / (TICK_MICROS as int) < MAX_TICKS_PER_FRAME,
        ((pending + first) % (TICK_MICROS as int) + second) / (TICK_MICROS as int) < MAX_TICKS_PER_FRAME,
    ensures
        (pending + first) / (TICK_MICROS as int) + ((pending + first) % (TICK_MICROS as int) + second) / (
        TICK_MICROS as int) == (pending + first + second) / (TICK_MICROS as int),
        ((pending + first) % (TICK_MICROS as int) + second) % (TICK_MICROS as int) == (pending + first + second) % (
        TICK_MICROS as int),
{
    let t = TICK_MICROS as int;
    let a = pending + first;
    assert(a == t * (a / t) + a % t) by (nonlinear_arith)
        requires t > 0;
    let r = a % t + second;
    assert(r == t * (r / t) + r % t) by (nonlinear_arith)
        requires t > 0;
    let total = a + second;
    assert(total == t * (a / t + r / t) + r % t) by (nonlinear_arith)
        requires a == t * (a / t) + a % t, r == a % t + second, r == t * (r / t) + r % t, total == a + second;
    assert(0 <= r % t < t) by (nonlinear_arith)
        requires t > 0;
    vstd::arithmetic::div_mod::lemma_fundamental_div_mod_converse(total, t, a / t + r / t, r % t);
}

/// `s1` is `s0` after one session tick (see `GameSession::tick`).
pub open spec fn session_ticked(s0: GameSession, s1: GameSession) -> bool {
    &&& s1.tick == saturating_inc(s0.tick)
    &&& tick_ready(s0.simulation) ==> s1.simulation.tick == saturating_inc(s0.simulation.tick)
    &&& tick_ready(s0.simulation) ==> crate::simulation::step::world_ticked(s0.simulation, s1.simulation)
    &&& !tick_ready(s0.simulation) ==> s1.simulation == s0.simulation
    &&& s1.world.width == s0.world.width
    &&& s1.world.height == s0.world.height
    &&& s1.world.cells@.len() == s0.world.cells@.len()
    &&& survey_follows(s1.world, s1.simulation)
    &&& forall|i: int|
        s1.simulation.cells@.len() <= i < s1.world.cells@.len()
            ==> #[trigger] s1.world.cells@[i] == s0.world.cells@[i]
    &&& s1.mission == s0.mission
    &&& s1.campaign == s0.campaign
    &&& s1.selected == s0.selected
    &&& s1.time_control == s0.time_control
    &&& s1.accumulator_us == s0.accumulator_us
}

/// `ss` is a run of session ticks (see `session_ticked`), each after the pending
/// time it uses was taken off.
pub open spec fn session_steps(ss: Seq<GameSession>) -> bool {
    forall|k: int| 0 <= k < ss.len() - 1 ==> session_ticked(
        GameSession { accumulator_us: ss[k + 1].accumulator_us, ..#[trigger] ss[k] },
        ss[k + 1],
    )
}

/// One more session tick extends a run of them.
proof fn lemma_session_push(ss: Seq<GameSession>, s: GameSession)
    requires
        session_steps(ss),
        ss.len() >= 1,
        session_ticked(GameSession { accumulator_us: s.accumulator_us, ..ss.last() }, s),
    ensures
        forall|k: int| 0 <= k < ss.len() ==> session_ticked(
            GameSession { accumulator_us: ss.push(s)[k + 1].accumulator_us, ..#[trigger] ss.push(s)[k] },
            ss.push(s)[k + 1],
        ),
{
    let ss2 = ss.push(s);
    assert forall|k: int| 0 <= k < ss.len() implies session_ticked(
        GameSession { accumulator_us: ss2[k + 1].accumulator_us, ..#[trigger] ss2[k] },
        ss2[k + 1],
    ) by {
        if k < ss.len() - 1 {
            assert(ss2[k] == ss[k] && ss2[k + 1] == ss[k + 1]);
        } else {
            assert(ss2[k] == ss.last() && ss2[k + 1] == s);
        }
    }
}

/// `s1` is `s0` after a frame of `frame_us` microseconds ran `ticks` ticks (see `GameSession::update`).
pub open spec fn session_advanced(s0: GameSession, s1: GameSession, frame_us: u64, ticks: u32) -> bool {
    &&& ({
        let pending = pending_time(s0.accumulator_us, frame_us, s0.time_control);
        &&& ticks == due_ticks(pending)
        &&& s1.accumulator_us == pending - ticks * TICK_MICROS
    })
    &&& s1.tick == saturating_plus(s0.tick, ticks as int)
    &&& exists|ss: Seq<GameSession>| {
        &&& #[trigger] session_steps(ss)
        &&& ss.len() == ticks + 1
        &&& ss[0].simulation == s0.simulation
        &&& ss[0].world == s0.world
        &&& ss.last() == s1
    }
    &&& s1.mission == s0.mission
    &&& s1.campaign == s0.campaign
    &&& s1.selected == s0.selected
    &&& s1.time_control == s0.time_control
}

impl GameSession {
    /// A new session on the configured grid: the survey ridge, a flat simulation of
    /// the same size, the first mission started, a clean campaign, the centre cell
    /// selected and time paused.
    pub fn new(config: &GameConfig, content: &ContentRegistry) -> (session: Self)
        requires
            config.world_width / 2 + config.world_height / 2 <= 254,
        ensures
            session.world.width == config.world_width,
            session.world.height == config.world_height,
            session.world.cells@.len() == config.world_width * config.world_height,
            session.simulation.wf(),
            session.simulation.width == config.world_width,
            session.simulation.height == config.world_height,
            session.simulation.tick == 0,
            session.simulation.balance() == 0,
            session.mission@ == (MissionView { phase: MissionPhase::Active, ..new_spec(MissionId::L01FirstFlow, *content) }),
            session.campaign.unlocked@ == seq![true, false, false],
            session.campaign.completed@ == seq![false, false, false],
            session.campaign.best_ticks@ == seq![None::<u64>, None, None],
            session.tick == 0,
            session.selected == (CellPos { x: (config.world_width / 2) as u16, y: (config.world_height / 2) as u16 }),
            session.time_control == TimeControl::Paused,
            session.accumulator_us == 0,
    {
        let mut mission = MissionState::new(MissionId::L01FirstFlow, content);
        mission.start();
        proof {
            assert(config.world_width <= 509 && config.world_height <= 509) by (nonlinear_arith)
                requires config.world_width / 2 + config.world_height / 2 <= 254;
            assert(config.world_width * config.world_height <= 509 * 509) by (nonlinear_arith)
                requires config.world_width <= 509, config.world_height <= 509;
        }
        let world = WorldState::new(config.world_width, config.world_height);
        let simulation = SimulationWorld::new(config.world_width as u16, config.world_height as u16);
        GameSession {
            world,
            simulation,
            mission,
            campaign: CampaignProgress::default(),
            tick: 0,
            selected: CellPos { x: (config.world_width / 2) as u16, y: (config.world_height / 2) as u16 },
            time_control: TimeControl::Paused,
            accumulator_us: 0,
        }
    }

    /// One session tick: count it, tick the simulation when it can take a tick
    /// (see `tick_ready`), and copy each simulation cell's height and seal onto the
    /// survey cell it overlaps.
    pub fn tick(&mut self)
        requires
            old(self).simulation.wf(),
        ensures
            final(self).simulation.wf(),
            session_ticked(*old(self), *final(self)),
    {
        self.tick = self.tick.saturating_add(1);
        if self.simulation.can_tick() {
            self.simulation.tick();
        }
        let n = if self.world.cells.len() < self.simulation.cells.len() {
            self.world.cells.len()
        } else {
            self.simulation.cells.len()
        };
        let ghost before = self.world.cells@;
        let ghost mid = *self;
        let mut i: usize = 0;
        while i < n
            invariant
                i <= n,
                self.simulation == mid.simulation,
                self.tick == mid.tick,
                self.mission == mid.mission,
                self.campaign == mid.campaign,
                self.selected == mid.selected,
                self.time_control == mid.time_control,
                self.accumulator_us == mid.accumulator_us,
                self.world.width == mid.world.width,
                self.world.height == mid.world.height,
                n <= self.world.cells@.len(),
                n <= self.simulation.cells@.len(),
                self.world.cells@.len() == before.len(),
                forall|j: int|
                    0 <= j < i ==> {
                        &&& (#[trigger] self.world.cells@[j]).height_hu == self.simulation.cells@[j].height_hu
                        &&& self.world.cells@[j].sealed == self.simulation.cells@[j].sealed
                    },
                forall|j: int| i <= j < self.world.cells@.len() ==> #[trigger] self.world.cells@[j] == before[j],
            decreases n - i,
        {
            let cell = CellState { height_hu: self.simulation.cells[i].height_hu, sealed: self.simulation.cells[i].sealed };
            self.world.cells.set(i, cell);
            i = i + 1;
        }
    }

    /// Advance by a frame of `frame_us` microseconds of real time: the frame,
    /// scaled by the speed, is added to the pending time, and whole ticks are run
    /// from it, at most `MAX_TICKS_PER_FRAME` per frame. Returns the ticks run.
    #[verifier::rlimit(60)]
    pub fn update(&mut self, frame_us: u64) -> (ticks: u32)
        requires
            old(self).simulation.wf(),
        ensures
            final(self).simulation.wf(),
            session_advanced(*old(self), *final(self), frame_us, ticks),
    {
        let factor = self.time_control.multiplier();
        proof {
            assert(frame_us * factor <= u64::MAX * 4) by (nonlinear_arith)
                requires factor <= 4;
        }
        let wide: u128 = frame_us as u128 * factor as u128;
        let scaled: u64 = if wide > u64::MAX as u128 {
            u64::MAX
        } else {
            wide as u64
        };
        self.accumulator_us = self.accumulator_us.saturating_add(scaled);
        let ghost pending = self.accumulator_us as int;
        let ghost start = self.tick;
        let mut ticks: u32 = 0;
        let ghost mut ss: Seq<GameSession> = seq![*self];
        while self.accumulator_us >= TICK_MICROS && ticks < MAX_TICKS_PER_FRAME
            invariant
                session_steps(ss),
                ss.len() == ticks + 1,
                ss[0].simulation == old(self).simulation,
                ss[0].world == old(self).world,
                ss.last() == *self,
                ticks <= MAX_TICKS_PER_FRAME,
                self.accumulator_us == pending - ticks * TICK_MICROS,
                pending >= ticks * TICK_MICROS,
                self.tick == saturating_plus(start, ticks as int),
                self.simulation.wf(),
                self.mission == old(self).mission,
                self.campaign == old(self).campaign,
                self.selected == old(self).selected,
                self.time_control == old(self).time_control,
            decreases MAX_TICKS_PER_FRAME - ticks,
        {
            let ghost s0 = *self;
            self.accumulator_us = self.accumulator_us - TICK_MICROS;
            self.tick();
            proof {
                lemma_session_push(ss, *self);
                ss = ss.push(*self);
            }
            ticks = ticks + 1;
        }
        proof {
            let t = TICK_MICROS as int;
            if ticks < MAX_TICKS_PER_FRAME {
                assert(pending - ticks * t < t);
                assert(pending / t == ticks as int) by (nonlinear_arith)
                    requires pending - ticks * t < t, pending >= ticks * t, t > 0;
            } else {
                assert(pending / t >= ticks as int) by (nonlinear_arith)
                    requires pending >= ticks * t, t > 0;
            }
        }
        ticks
    }

    /// Move the selection by `(dx, dy)`, held on the grid.
    pub fn move_selected(&mut self, dx: i16, dy: i16)
        requires
            1 <= old(self).world.width <= 32767,
            1 <= old(self).world.height <= 32767,
            old(self).selected.x <= 32767,
            old(self).selected.y <= 32767,
            old(self).selected.x + dx <= 32767,
            old(self).selected.y + dy <= 32767,
        ensures
            final(self).selected.x == clamp_axis(old(self).selected.x as int + dx, old(self).world.width as int),
            final(self).selected.y == clamp_axis(old(self).selected.y as int + dy, old(self).world.height as int),
            *final(self) == (GameSession { selected: final(self).selected, ..*old(self) }),
    {
        let x = step_axis(self.selected.x, dx, self.world.width);
        let y = step_axis(self.selected.y, dy, self.world.height);
        self.selected = CellPos { x, y };
    }

    /// The fingerprint of the session's state (see `session_fingerprint`). Equal
    /// states give equal fingerprints.
    pub fn state_hash(&self) -> (hash: u64)
        ensures
            hash == session_fingerprint(self.tick, self.world, self.simulation, self.mission@, self.campaign, self.selected),
    {
        let mut words: Vec<u64> = vec![self.tick];
        let mut survey = survey_word_list(&self.world);
        let mut campaign = campaign_word_list(&self.campaign);
        let mut tail: Vec<u64> = vec![self.selected.x as u64, self.selected.y as u64];
        let ghost parts = (words@, survey@, campaign@, tail@);
        words.append(&mut survey);
        words.append(&mut campaign);
        words.append(&mut tail);
        proof {
            assert(words@ =~= parts.0 + parts.1 + parts.2 + parts.3);
            assert(words@ == session_words(self.tick, self.world, self.campaign, self.selected));
        }
        let base = state_fingerprint(&self.simulation, &self.mission);
        fnv_slice(base, words.as_slice())
    }

    /// The session's save data under `version`, in the current schema.
    pub fn to_save(&self, version: &str) -> (save: SaveData)
        ensures
            saved_from(save, *self, version@),
            save_fingerprint(save) == session_fingerprint(
                self.tick,
                self.world,
                self.simulation,
                self.mission@,
                self.campaign,
                self.selected,
            ),
    {
        let world = WorldState { width: self.world.width, height: self.world.height, cells: copy_list(&self.world.cells) };
        let simulation = snapshot_world(&self.simulation);
        let campaign = CampaignProgress {
            unlocked: self.campaign.unlocked,
            completed: self.campaign.completed,
            best_ticks: self.campaign.best_ticks,
            content_version: self.campaign.content_version.clone(),
        };
        let save = SaveData {
            schema_version: SAVE_SCHEMA_VERSION,
            version: version.to_owned(),
            tick: self.tick,
            world,
            simulation,
            selected: self.selected,
            mission: snapshot_mission(&self.mission),
            campaign,
        };
        proof {
            lemma_same_world_fingerprint(self.simulation, save.simulation);
            assert(survey_words(save.world) == survey_words(self.world));
        }
        save
    }

    /// A session restored from save data: its state, paused, with no time pending.
    pub fn from_save(save: SaveData) -> (session: Self)
        ensures
            restored_from(session, save),
            session_fingerprint(
                session.tick,
                session.world,
                session.simulation,
                session.mission@,
                session.campaign,
                session.selected,
            ) == save_fingerprint(save),
    {
        GameSession {
            world: save.world,
            simulation: save.simulation,
            mission: save.mission,
            campaign: save.campaign,
            tick: save.tick,
            selected: save.selected,
            time_control: TimeControl::Paused,
            accumulator_us: 0,
        }
    }
}

/// Two sessions hold the same state: the same survey grid, the same simulation
/// (see `same_world`), mission, campaign, counters, selection and speed.
pub open spec fn same_session(a: GameSession, b: GameSession) -> bool {
    &&& a.world.width == b.world.width
    &&& a.world.height == b.world.height
    &&& a.world.cells@ == b.world.cells@
    &&& same_world(a.simulation, b.simulation)
    &&& a.mission@ == b.mission@
    &&& a.campaign == b.campaign
    &&& a.tick == b.tick
    &&& a.selected == b.selected
    &&& a.time_control == b.time_control
    &&& a.accumulator_us == b.accumulator_us
}

impl GameSession {
    /// A copy of the session (see `same_session`).
    pub fn snapshot(&self) -> (copy: Self)
        ensures
            same_session(*self, copy),
    {
        GameSession {
            world: WorldState { width: self.world.width, height: self.world.height, cells: copy_list(&self.world.cells) },
            simulation: snapshot_world(&self.simulation),
            mission: snapshot_mission(&self.mission),
            campaign: CampaignProgress {
                unlocked: self.campaign.unlocked,
                completed: self.campaign.completed,
                best_ticks: self.campaign.best_ticks,
                content_version: self.campaign.content_version.clone(),
            },
            tick: self.tick,
            selected: self.selected,
            time_control: self.time_control,
            accumulator_us: self.accumulator_us,
        }
    }
}

/// A save round trip is exact: a session restored from a session's save has the
/// same fingerprint, tick, selection, mission and campaign.
pub proof fn lemma_save_round_trip(session: GameSession, save: SaveData, restored: GameSession, version: Seq<char>)
    requires
        saved_from(save, session, version),
        restored_from(restored, save),
    ensures
        session_fingerprint(restored.tick, restored.world, restored.simulation, restored.mission@, restored.campaign, restored.selected)
            == session_fingerprint(session.tick, session.world, session.simulation, session.mission@, session.campaign, session.selected),
        restored.tick == session.tick,
        restored.selected == session.selected,
        restored.mission@ == session.mission@,
        restored.campaign == session.campaign,
{
    lemma_same_world_fingerprint(session.simulation, save.simulation);
    assert(survey_words(save.world) == survey_words(session.world));
}

/// The words of the survey grid (see `survey_words`).
fn survey_word_list(world: &WorldState) -> (words: Vec<u64>)
    ensures
        words@ == survey_words(*world),
{
    let mut words: Vec<u64> = vec![world.width as u64, world.height as u64, world.cells.len() as u64];
    let ghost head = words@;
    let mut i: usize = 0;
    while i < world.cells.len()
        invariant
            i <= world.cells@.len(),
            words@ == head + survey_cells_words(world.cells@.take(i as int)),
        decreases world.cells@.len() - i,
    {
        let c = world.cells[i];
        words.push(c.height_hu as u64);
        words.push(if c.sealed { 1 } else { 0 });
        proof {
            assert(world.cells@.take(i as int + 1).drop_last() =~= world.cells@.take(i as int));
            assert(words@ =~= head + survey_cells_words(world.cells@.take(i as int + 1)));
        }
        i = i + 1;
    }
    proof {
        assert(world.cells@.take(i as int) =~= world.cells@);
    }
    words
}

/// The words of the campaign progress (see `campaign_words`).
fn campaign_word_list(c: &CampaignProgress) -> (words: Vec<u64>)
    ensures
        words@ == campaign_words(*c),
{
    let mut words: Vec<u64> = vec![
        if c.unlocked[0] { 1 } else { 0 },
        if c.unlocked[1] { 1 } else { 0 },
        if c.unlocked[2] { 1 } else { 0 },
        if c.completed[0] { 1 } else { 0 },
        if c.completed[1] { 1 } else { 0 },
        if c.completed[2] { 1 } else { 0 },
    ];
    let ghost head = words@;
    let mut k: usize = 0;
    while k < 3
        invariant
            k <= 3,
            words@ == head + best_list(c.best_ticks@, k as int),
        decreases 3 - k,
    {
        match c.best_ticks[k] {
            Some(t) => {
                words.push(1);
                words.push(t);
            },
            None => {
                words.push(0);
                words.push(0);
            },
        }
        proof {
            assert(words@ =~= head + best_list(c.best_ticks@, k as int + 1));
        }
        k = k + 1;
    }
    let ghost mid = words@;
    crate::replay::push_text_words(&mut words, &c.content_version);
    proof {
        reveal_with_fuel(best_list, 4);
        assert(head =~= seq![
            flag(c.unlocked@[0]),
            flag(c.unlocked@[1]),
            flag(c.unlocked@[2]),
            flag(c.completed@[0]),
            flag(c.completed@[1]),
            flag(c.completed@[2]),
        ]);
        assert(best_list(c.best_ticks@, 3) =~= best_words(c.best_ticks@[0]) + best_words(c.best_ticks@[1])
            + best_words(c.best_ticks@[2]));
        assert(words@ =~= campaign_words(*c));
    }
    words
}

/// Why save data cannot be loaded, if it cannot: a schema newer than this build
/// reads, a content version other than the installed one, or a survey grid or
/// simulation of another size than the configured grid.
pub open spec fn save_error(save: SaveData, config: GameConfig) -> Option<Seq<char>> {
    if save.schema_version > SAVE_SCHEMA_VERSION {
        Some(
            "Save schema version "@ + decimal(save.schema_version as nat)
                + " is unsupported; this build reads version 3 or older"@,
        )
    } else if save.version@ != config.version@ {
        Some(
            "Save content version "@ + save.version@ + " does not match the installed content version "@
                + config.version@,
        )
    } else if save.world.width != config.world_width || save.world.height != config.world_height
        || save.simulation.width != config.world_width || save.simulation.height != config.world_height {
        Some("Save world dimensions do not match content"@)
    } else {
        None
    }
}

/// Check save data before it is loaded (see `save_error`).
pub fn check_save(save: &SaveData, config: &GameConfig) -> (result: Result<(), String>)
    ensures
        match result {
            Ok(()) => save_error(*save, *config) is None,
            Err(message) => save_error(*save, *config) == Some(message@),
        },
{
    if save.schema_version > SAVE_SCHEMA_VERSION {
        let mut message = "Save schema version ".to_owned();
        push_decimal(&mut message, save.schema_version as u64);
        message.append(" is unsupported; this build reads version 3 or older");
        return Err(message);
    }
    if save.version != config.version {
        let mut message = "Save content version ".to_owned();
        message.append(save.version.as_str());
        message.append(" does not match the installed content version ");
        message.append(config.version.as_str());
        return Err(message);
    }
    if save.world.width as usize != config.world_width || save.world.height as usize != config.world_height
        || save.simulation.width as usize != config.world_width || save.simulation.height as usize
        != config.world_height {
        return Err("Save world dimensions do not match content".to_owned());
    }
    Ok(())
}

/// The best-time words of the first `k` missions.
pub open spec fn best_list(best: Seq<Option<u64>>, k: int) -> Seq<u64>
    decreases k,
{
    if k <= 0 {
        seq![]
    } else {
        best_list(best, k - 1) + best_words(best[k - 1])
    }
}

/// A coordinate moved by a step and held within `0..size`.
pub open spec fn clamp_axis(v: int, size: int) -> int {
    if v > size - 1 {
        size - 1
    } else if v < 0 {
        0
    } else {
        v
    }
}

/// One coordinate of a moved selection (see `clamp_axis`).
fn step_axis(v: u16, d: i16, size: u16) -> (r: u16)
    requires
        1 <= size <= 32767,
    ensures
        r == clamp_axis(v as int + d, size as int),
{
    let moved: i32 = v as i32 + d as i32;
    let top: i32 = size as i32 - 1;
    if moved > top {
        top as u16
    } else if moved < 0 {
        0
    } else {
        moved as u16
    }
}

} // verus!
