//! A mission's state: admission of commands, tutorial progress, and the per-tick
//! objective, hazard and alert rules.

use vstd::prelude::*;

use super::{
    advance_spec, advance_tutorial, allows, complete_spec, completes_on, skip_spec, texts, tutorial_allows, Admission,
    AlertLevel, CommandKind, MissionId, MissionPhase, TutorialState, TutorialView,
};
use crate::content::{first_mission, first_tutorial, ContentRegistry, MissionRecord};
use crate::devices::{DeviceId, DeviceState};
use crate::simulation::entries::fluid_volume;
use crate::simulation::{cell_products, FluidId, SimulationWorld};
use crate::state::{lemma_grid_index_bound, CellPos};
use crate::text::same_text;

verus! {

/// The authored objective and hazard rules of a mission.
#[derive(Debug, Clone)]
pub struct MissionRules {
    pub objective_min_vu: u32,
    pub objective_max_vu: u32,
    pub stability_ticks: u32,
    pub failure_ticks: u32,
    pub advisory_tick: u64,
    pub warning_tick: u64,
    pub hazard_threshold_vu: u32,
    pub hazard_reason: String,
}

/// Mission rules with the hazard reason read as characters.
pub struct RulesView {
    pub objective_min_vu: u32,
    pub objective_max_vu: u32,
    pub stability_ticks: u32,
    pub failure_ticks: u32,
    pub advisory_tick: u64,
    pub warning_tick: u64,
    pub hazard_threshold_vu: u32,
    pub hazard_reason: Seq<char>,
}

impl View for MissionRules {
    type V = RulesView;

    open spec fn view(&self) -> RulesView {
        RulesView {
            objective_min_vu: self.objective_min_vu,
            objective_max_vu: self.objective_max_vu,
            stability_ticks: self.stability_ticks,
            failure_ticks: self.failure_ticks,
            advisory_tick: self.advisory_tick,
            warning_tick: self.warning_tick,
            hazard_threshold_vu: self.hazard_threshold_vu,
            hazard_reason: self.hazard_reason@,
        }
    }
}

/// All-zero rules with an empty hazard reason.
pub open spec fn default_rules() -> RulesView {
    RulesView {
        objective_min_vu: 0,
        objective_max_vu: 0,
        stability_ticks: 0,
        failure_ticks: 0,
        advisory_tick: 0,
        warning_tick: 0,
        hazard_threshold_vu: 0,
        hazard_reason: seq![],
    }
}

impl Default for MissionRules {
    fn default() -> (rules: Self)
        ensures
            rules@ == default_rules(),
    {
        MissionRules {
            objective_min_vu: 0,
            objective_max_vu: 0,
            stability_ticks: 0,
            failure_ticks: 0,
            advisory_tick: 0,
            warning_tick: 0,
            hazard_threshold_vu: 0,
            hazard_reason: String::new(),
        }
    }
}

/// The rules a mission record authors.
pub open spec fn record_rules(r: MissionRecord) -> RulesView {
    RulesView {
        objective_min_vu: r.objective_min_vu,
        objective_max_vu: r.objective_max_vu,
        stability_ticks: r.stability_ticks,
        failure_ticks: r.failure_ticks,
        advisory_tick: r.advisory_tick,
        warning_tick: r.warning_tick,
        hazard_threshold_vu: r.hazard_threshold_vu,
        hazard_reason: r.hazard_reason@,
    }
}

/// The rules of mission `id` in `content`: those of its first record, or all-zero
/// rules when it has none.
pub open spec fn rules_spec(content: ContentRegistry, id: MissionId) -> RulesView {
    if exists|i: int| first_mission(content.missions@, id.content_id_spec(), i) {
        record_rules(content.missions@[choose|i: int| first_mission(content.missions@, id.content_id_spec(), i)])
    } else {
        default_rules()
    }
}

/// The authored steps of the first mission's tutorial, or none.
pub open spec fn l01_steps_spec(content: ContentRegistry) -> Seq<Seq<char>> {
    if exists|i: int| first_tutorial(content.tutorials@, "tutorial_l01"@, i) {
        texts(content.tutorials@[choose|i: int| first_tutorial(content.tutorials@, "tutorial_l01"@, i)].steps@)
    } else {
        seq![]
    }
}

/// A mission's progress through its lifecycle.
#[derive(Debug, Clone)]
pub struct MissionState {
    pub id: MissionId,
    pub phase: MissionPhase,
    pub tick: u64,
    pub stability_ticks: u32,
    pub objective_progress: u32,
    pub command_count: u32,
    pub failure_reason: Option<String>,
    pub tutorial: Option<TutorialState>,
    pub checkpoint_tick: u64,
    pub failure_ticks: u32,
    pub alert_level: AlertLevel,
    pub rules: MissionRules,
}

/// A mission state with its texts read as characters.
pub struct MissionView {
    pub id: MissionId,
    pub phase: MissionPhase,
    pub tick: u64,
    pub stability_ticks: u32,
    pub objective_progress: u32,
    pub command_count: u32,
    pub failure_reason: Option<Seq<char>>,
    pub tutorial: Option<TutorialView>,
    pub checkpoint_tick: u64,
    pub failure_ticks: u32,
    pub alert_level: AlertLevel,
    pub rules: RulesView,
}

impl View for MissionState {
    type V = MissionView;

    open spec fn view(&self) -> MissionView {
        MissionView {
            id: self.id,
            phase: self.phase,
            tick: self.tick,
            stability_ticks: self.stability_ticks,
            objective_progress: self.objective_progress,
            command_count: self.command_count,
            failure_reason: match self.failure_reason {
                Some(r) => Some(r@),
                None => None,
            },
            tutorial: match self.tutorial {
                Some(t) => Some(t@),
                None => None,
            },
            checkpoint_tick: self.checkpoint_tick,
            failure_ticks: self.failure_ticks,
            alert_level: self.alert_level,
            rules: self.rules@,
        }
    }
}

/// A new mission in its briefing, with its authored rules and, for the first
/// mission, its tutorial at the welcome step.
pub open spec fn new_spec(id: MissionId, content: ContentRegistry) -> MissionView {
    MissionView {
        id,
        phase: MissionPhase::Briefing,
        tick: 0,
        stability_ticks: 0,
        objective_progress: 0,
        command_count: 0,
        failure_reason: None,
        tutorial: if id == MissionId::L01FirstFlow {
            Some(
                TutorialView {
                    tutorial_id: "tutorial_l01"@,
                    current: "tutorial_l01_welcome"@,
                    completed: seq![],
                    hint_level: 0,
                    ticks_in_step: 0,
                    dismissed_prompt: false,
                    skip_confirmed: false,
                    actions_in_step: 0,
                    steps: l01_steps_spec(content),
                },
            )
        } else {
            None
        },
        checkpoint_tick: 0,
        failure_ticks: 0,
        alert_level: AlertLevel::Clear,
        rules: rules_spec(content, id),
    }
}

/// What a command gets: a mission that is not active refuses it as complete (after
/// success or failure) or not started; an unskipped tutorial locks commands its
/// current step does not allow; otherwise it is accepted.
pub open spec fn admission_spec(m: MissionView, command: CommandKind) -> Admission {
    if m.phase != MissionPhase::Active {
        if m.phase == MissionPhase::Success || m.phase == MissionPhase::Failure || m.phase == MissionPhase::Debrief {
            Admission::AlreadyComplete
        } else {
            Admission::MissionNotActive
        }
    } else {
        match m.tutorial {
            Some(t) => if !t.skip_confirmed && !allows(t.current, command) {
                Admission::TutorialLocked
            } else {
                Admission::Accepted
            },
            None => Admission::Accepted,
        }
    }
}

/// An accepted command moves the tutorial and counts; a refused one changes nothing.
pub open spec fn admit_spec(m: MissionView, command: CommandKind) -> MissionView {
    if admission_spec(m, command) == Admission::Accepted {
        MissionView {
            tutorial: match m.tutorial {
                Some(t) => Some(advance_spec(t, command)),
                None => None,
            },
            command_count: (m.command_count + 1) as u32,
            ..m
        }
    } else {
        m
    }
}

/// A mission fails with `reason` only while active.
pub open spec fn fail_spec(m: MissionView, reason: Seq<char>) -> MissionView {
    if m.phase == MissionPhase::Active {
        MissionView { failure_reason: Some(reason), phase: MissionPhase::Failure, ..m }
    } else {
        m
    }
}

/// The amounts a mission measures over zones of the map.
#[derive(Debug, Clone, Copy, PartialEq, Eq, Structural)]
pub enum ZoneMetric {
    Water,
    Lava,
    Rock,
}

/// What a cell contributes to a zone measure: surface water, surface lava, or
/// pending and formed rock and vitrified ground. Cells off the grid contribute
/// nothing.
pub open spec fn metric_at(world: SimulationWorld, pos: CellPos, metric: ZoneMetric) -> int {
    match world.index_of(pos) {
        Some(i) => match metric {
            ZoneMetric::Water => fluid_volume(world.cells@[i as int].surface@, FluidId::Water) as int,
            ZoneMetric::Lava => fluid_volume(world.cells@[i as int].surface@, FluidId::Lava) as int,
            ZoneMetric::Rock => cell_products(world.cells@[i as int]),
        },
        None => 0,
    }
}

/// Cell `k` of a zone whose columns start at `x0` and rows at `y0`, `rows` rows
/// tall, walked column by column.
pub open spec fn zone_pos(x0: u16, y0: u16, rows: u16, k: int) -> CellPos {
    CellPos { x: (x0 + k / rows as int) as u16, y: (y0 + k % rows as int) as u16 }
}

/// The measure summed over the first `k` cells of a zone.
pub open spec fn zone_total(world: SimulationWorld, x0: u16, y0: u16, rows: u16, k: int, metric: ZoneMetric) -> int
    decreases k,
{
    if k <= 0 {
        0
    } else {
        zone_total(world, x0, y0, rows, k - 1, metric) + metric_at(world, zone_pos(x0, y0, rows, k - 1), metric)
    }
}

/// The measure over the zone of columns `x0..=x1` and rows `y0..=y1`.
pub open spec fn zone(world: SimulationWorld, x0: u16, x1: u16, y0: u16, y1: u16, metric: ZoneMetric) -> int {
    zone_total(world, x0, y0, (y1 - y0 + 1) as u16, (x1 - x0 + 1) * (y1 - y0 + 1), metric)
}

/// Water in the first mission's dam basin.
pub open spec fn basin_water(world: SimulationWorld) -> int {
    zone(world, 26, 30, 7, 11, ZoneMetric::Water)
}

/// Water in the second mission's trench.
pub open spec fn trench_water(world: SimulationWorld) -> int {
    zone(world, 31, 36, 7, 9, ZoneMetric::Water)
}

/// Rock and vitrified ground on the third mission's reaction shelf.
pub open spec fn shelf_rock(world: SimulationWorld) -> int {
    zone(world, 20, 25, 12, 16, ZoneMetric::Rock)
}

/// The objective measure of a mission.
pub open spec fn objective_spec(id: MissionId, world: SimulationWorld) -> int {
    match id {
        MissionId::L01FirstFlow => basin_water(world),
        MissionId::L02HoldingLine => trench_water(world),
        MissionId::L03Firebreak => shelf_rock(world),
    }
}

/// Whether a mission's authored hazard is present: water on the first mission's
/// beacon at the threshold, water in the second mission's camp at the threshold,
/// any lava in the third mission's protected works.
pub open spec fn hazard_spec(id: MissionId, world: SimulationWorld, rules: RulesView) -> bool {
    match id {
        MissionId::L01FirstFlow => metric_at(world, CellPos { x: 24, y: 8 }, ZoneMetric::Water) >= rules.hazard_threshold_vu,
        MissionId::L02HoldingLine => zone(world, 24, 28, 14, 18, ZoneMetric::Water) >= rules.hazard_threshold_vu,
        MissionId::L03Firebreak => zone(world, 35, 40, 12, 18, ZoneMetric::Lava) > 0,
    }
}

/// `a` plus one, saturating at `u32::MAX`.
pub open spec fn inc_u32(a: u32) -> u32 {
    if a == u32::MAX { a } else { (a + 1) as u32 }
}

/// `a + b`, saturating at `u64::MAX`.
pub open spec fn add_u64(a: u64, b: u64) -> u64 {
    if a + b > u64::MAX { u64::MAX } else { (a + b) as u64 }
}

/// The alert level after a tick's hazard reading.
pub open spec fn alert_spec(m: MissionView, hazard: bool) -> AlertLevel {
    if hazard {
        AlertLevel::Critical
    } else {
        match m.id {
            MissionId::L01FirstFlow => if m.objective_progress > 0 {
                AlertLevel::Advisory
            } else {
                AlertLevel::Clear
            },
            MissionId::L02HoldingLine => if m.rules.warning_tick > 0 && m.tick >= m.rules.warning_tick {
                AlertLevel::Warning
            } else if m.rules.advisory_tick > 0 && m.tick >= m.rules.advisory_tick {
                AlertLevel::Advisory
            } else {
                AlertLevel::Clear
            },
            MissionId::L03Firebreak => if m.objective_progress > 0 {
                AlertLevel::Warning
            } else if m.rules.advisory_tick > 0 && m.tick >= m.rules.advisory_tick {
                AlertLevel::Advisory
            } else {
                AlertLevel::Clear
            },
        }
    }
}

/// Some reservoir holds at least 2000 vU.
pub open spec fn reserve_held(devices: Seq<DeviceState>) -> bool {
    exists|i: int| 0 <= i < devices.len() && (#[trigger] devices[i]).device == DeviceId::Reservoir && devices[i].stored_vu >= 2_000
}

/// Some flow turbine has generated at least 40 eU in all.
pub open spec fn turbine_proven(devices: Seq<DeviceState>) -> bool {
    exists|i: int| 0 <= i < devices.len() && (#[trigger] devices[i]).device == DeviceId::FlowTurbine && devices[i].cumulative_power >= 40
}

/// Some rune relay is active.
pub open spec fn relay_running(devices: Seq<DeviceState>) -> bool {
    exists|i: int| 0 <= i < devices.len() && (#[trigger] devices[i]).device == DeviceId::RuneRelay && devices[i].active
}

/// Whether a mission's objectives hold this tick: the first mission's basin holds
/// its target; the second mission's trench is within its band, a reservoir holds
/// a reserve and 650 ticks have passed since the advisory; the third mission's
/// shelf has its rock, a turbine has proven itself, a relay runs and 550 ticks
/// have passed since the advisory.
pub open spec fn objectives_spec(m: MissionView, world: SimulationWorld) -> bool {
    match m.id {
        MissionId::L01FirstFlow => basin_water(world) >= m.rules.objective_max_vu,
        MissionId::L02HoldingLine => {
            &&& m.rules.objective_min_vu <= trench_water(world) <= m.rules.objective_max_vu
            &&& reserve_held(world.devices.devices@)
            &&& m.tick >= add_u64(m.rules.advisory_tick, 650)
        },
        MissionId::L03Firebreak => {
            &&& shelf_rock(world) >= m.rules.objective_min_vu
            &&& turbine_proven(world.devices.devices@)
            &&& relay_running(world.devices.devices@)
            &&& m.tick >= add_u64(m.rules.advisory_tick, 550)
        },
    }
}

/// The tutorial's tick: the step timer advances, and the beacon-warning step
/// completes once any alert is raised.
pub open spec fn tutorial_tick_spec(t: Option<TutorialView>, alert: AlertLevel) -> Option<TutorialView> {
    match t {
        Some(t) => {
            let timed = TutorialView { ticks_in_step: inc_u32(t.ticks_in_step), ..t };
            Some(
                if timed.current == "tutorial_l01_beacon_warning"@ && alert.severity() >= 1 {
                    complete_spec(timed)
                } else {
                    timed
                },
            )
        },
        None => None,
    }
}

/// One mission tick against the world. Nothing happens unless the mission is
/// active. Otherwise the mission takes the world's tick, advances its tutorial,
/// measures its objective, reads its hazard and sets its alert; a hazard that
/// has lasted the authored number of ticks fails it with the authored reason;
/// else its stability count grows while objectives hold (and resets when they
/// do not), and reaching the authored count is success.
pub open spec fn tick_spec(m: MissionView, world: SimulationWorld) -> MissionView {
    if m.phase != MissionPhase::Active {
        m
    } else {
        let timed = MissionView {
            tick: world.tick,
            tutorial: tutorial_tick_spec(m.tutorial, m.alert_level),
            objective_progress: objective_spec(m.id, world) as u32,
            ..m
        };
        let hazard = hazard_spec(m.id, world, m.rules);
        let alerted = MissionView {
            failure_ticks: if hazard { inc_u32(m.failure_ticks) } else { 0 },
            alert_level: alert_spec(timed, hazard),
            ..timed
        };
        if alerted.failure_ticks >= m.rules.failure_ticks {
            fail_spec(alerted, m.rules.hazard_reason)
        } else {
            let stability = if objectives_spec(alerted, world) { inc_u32(m.stability_ticks) } else { 0 };
            let counted = MissionView { stability_ticks: stability, ..alerted };
            if stability >= m.rules.stability_ticks {
                MissionView { phase: MissionPhase::Success, ..counted }
            } else {
                counted
            }
        }
    }
}

/// The first record with an identifier is unique.
pub proof fn lemma_first_mission_unique(missions: Seq<MissionRecord>, id: Seq<char>, i: int, j: int)
    requires
        first_mission(missions, id, i),
        first_mission(missions, id, j),
    ensures
        i == j,
{
    if i < j {
        assert(missions[i].id@ == id);
    } else if j < i {
        assert(missions[j].id@ == id);
    }
}

/// The first tutorial with an identifier is unique.
proof fn lemma_first_tutorial_unique(tutorials: Seq<crate::content::TutorialRecord>, id: Seq<char>, i: int, j: int)
    requires
        first_tutorial(tutorials, id, i),
        first_tutorial(tutorials, id, j),
    ensures
        i == j,
{
    if i < j {
        assert(tutorials[i].id@ == id);
    } else if j < i {
        assert(tutorials[j].id@ == id);
    }
}

/// The rules of mission `id` as authored in `content`.
fn rules_for(id: MissionId, content: &ContentRegistry) -> (rules: MissionRules)
    ensures
        rules@ == rules_spec(*content, id),
{
    match content.mission(id.content_id()) {
        Some(record) => {
            proof {
                let i = choose|i: int| first_mission(content.missions@, id.content_id_spec(), i) && *record == content.missions@[i];
                let k = choose|k: int| first_mission(content.missions@, id.content_id_spec(), k);
                lemma_first_mission_unique(content.missions@, id.content_id_spec(), i, k);
            }
            MissionRules {
                objective_min_vu: record.objective_min_vu,
                objective_max_vu: record.objective_max_vu,
                stability_ticks: record.stability_ticks,
                failure_ticks: record.failure_ticks,
                advisory_tick: record.advisory_tick,
                warning_tick: record.warning_tick,
                hazard_threshold_vu: record.hazard_threshold_vu,
                hazard_reason: record.hazard_reason.clone(),
            }
        },
        None => MissionRules::default(),
    }
}

/// The authored steps of the first mission's tutorial.
fn l01_steps(content: &ContentRegistry) -> (steps: Vec<String>)
    ensures
        texts(steps@) == l01_steps_spec(*content),
{
    match content.tutorial("tutorial_l01") {
        Some(record) => {
            proof {
                reveal_strlit("tutorial_l01");
                let i = choose|i: int| first_tutorial(content.tutorials@, "tutorial_l01"@, i) && *record == content.tutorials@[i];
                let k = choose|k: int| first_tutorial(content.tutorials@, "tutorial_l01"@, k);
                lemma_first_tutorial_unique(content.tutorials@, "tutorial_l01"@, i, k);
            }
            super::copy_texts(&record.steps)
        },
        None => {
            let steps: Vec<String> = Vec::new();
            proof {
                assert(texts(steps@) =~= seq![]);
            }
            steps
        },
    }
}

/// Whether any cell's measure is needed: the water, lava or rock of one cell.
fn measure_cell(world: &SimulationWorld, pos: CellPos, metric: ZoneMetric) -> (v: u64)
    requires
        world.wf(),
    ensures
        v == metric_at(*world, pos, metric),
        v <= 4 * u32::MAX,
{
    match world.index(pos) {
        Some(i) => {
            proof {
                lemma_grid_index_bound(world.width, world.height, pos);
                assert(world.cells@[i as int].wf());
                crate::simulation::entries::lemma_volume_by_fluid(world.cells@[i as int].surface@);
            }
            match metric {
                ZoneMetric::Water => crate::simulation::volume(&world.cells[i].surface, FluidId::Water) as u64,
                ZoneMetric::Lava => crate::simulation::volume(&world.cells[i].surface, FluidId::Lava) as u64,
                ZoneMetric::Rock => {
                    let c = &world.cells[i];
                    c.pending_rock_vu as u64 + c.pending_vitrified_vu as u64 + c.formed_rock_vu as u64
                        + c.formed_vitrified_vu as u64
                },
            }
        },
        None => 0,
    }
}

/// The measure over the zone of columns `x0..=x1` and rows `y0..=y1`, walked
/// column by column. A total beyond `u32::MAX` is refused.
fn measure_zone(world: &SimulationWorld, x0: u16, x1: u16, y0: u16, y1: u16, metric: ZoneMetric) -> (total: Option<u32>)
    requires
        world.wf(),
        x0 <= x1 <= 100,
        y0 <= y1 <= 100,
    ensures
        total matches Some(t) ==> t == zone(*world, x0, x1, y0, y1, metric),
        total is None <==> zone(*world, x0, x1, y0, y1, metric) > u32::MAX,
{
    let rows: u16 = y1 - y0 + 1;
    proof {
        assert((x1 - x0 + 1) * (y1 - y0 + 1) <= 10201) by (nonlinear_arith)
            requires
                0 <= x1 - x0 <= 100,
                0 <= y1 - y0 <= 100,
        ;
    }
    let count: u32 = (x1 - x0 + 1) as u32 * rows as u32;
    let mut total: u64 = 0;
    let mut k: u32 = 0;
    while k < count
        invariant
            world.wf(),
            x0 <= x1 <= 100,
            y0 <= y1 <= 100,
            rows == y1 - y0 + 1,
            count == (x1 - x0 + 1) * (y1 - y0 + 1),
            count <= 10201,
            k <= count,
            total == zone_total(*world, x0, y0, rows, k as int, metric),
            total <= k * (4 * u32::MAX),
        decreases count - k,
    {
        proof {
            assert((k as int) / (rows as int) <= x1 - x0) by (nonlinear_arith)
                requires
                    k < (x1 - x0 + 1) * rows,
                    rows >= 1,
            ;
            assert(((k as int) % (rows as int)) < rows) by (nonlinear_arith)
                requires
                    rows >= 1,
            ;
            assert((k + 1) * (4 * u32::MAX) == k * (4 * u32::MAX) + 4 * u32::MAX) by (nonlinear_arith);
            assert(k * (4 * u32::MAX) <= 10201 * (4 * u32::MAX)) by (nonlinear_arith)
                requires
                    k <= 10201,
            ;
        }
        let pos = CellPos { x: x0 + (k / rows as u32) as u16, y: y0 + (k % rows as u32) as u16 };
        proof {
            assert(pos == zone_pos(x0, y0, rows, k as int));
        }
        total = total + measure_cell(world, pos, metric);
        k = k + 1;
    }
    proof {
        assert(zone(*world, x0, x1, y0, y1, metric) == zone_total(*world, x0, y0, rows, count as int, metric));
    }
    if total <= u32::MAX as u64 {
        Some(total as u32)
    } else {
        None
    }
}

/// Water and lava zones hold at most a cell's capacity per cell.
proof fn lemma_zone_fluid_bound(world: SimulationWorld, x0: u16, y0: u16, rows: u16, k: int, metric: ZoneMetric)
    requires
        world.wf(),
        metric != ZoneMetric::Rock,
        k >= 0,
    ensures
        0 <= zone_total(world, x0, y0, rows, k, metric) <= 8000 * k,
    decreases k,
{
    if k > 0 {
        lemma_zone_fluid_bound(world, x0, y0, rows, k - 1, metric);
        let pos = zone_pos(x0, y0, rows, k - 1);
        if let Some(i) = world.index_of(pos) {
            lemma_grid_index_bound(world.width, world.height, pos);
            assert(world.cells@[i as int].wf());
            crate::simulation::entries::lemma_volume_by_fluid(world.cells@[i as int].surface@);
        }
    }
}

/// A fluid zone's measure, which always fits.
pub(crate) fn fluid_zone(world: &SimulationWorld, x0: u16, x1: u16, y0: u16, y1: u16, metric: ZoneMetric) -> (total: u32)
    requires
        world.wf(),
        metric != ZoneMetric::Rock,
        x0 <= x1 <= 100,
        y0 <= y1 <= 100,
        x1 - x0 < 10,
        y1 - y0 < 10,
    ensures
        total == zone(*world, x0, x1, y0, y1, metric),
{
    proof {
        assert((x1 - x0 + 1) * (y1 - y0 + 1) <= 100) by (nonlinear_arith)
            requires
                0 <= x1 - x0 < 10,
                0 <= y1 - y0 < 10,
        ;
        lemma_zone_fluid_bound(*world, x0, y0, (y1 - y0 + 1) as u16, (x1 - x0 + 1) * (y1 - y0 + 1), metric);
    }
    match measure_zone(world, x0, x1, y0, y1, metric) {
        Some(t) => t,
        None => 0,
    }
}

/// Whether the reaction shelf's rock can be measured, as a mission tick needs.
pub fn shelf_measurable(world: &SimulationWorld) -> (ok: bool)
    requires
        world.wf(),
    ensures
        ok == (shelf_rock(*world) <= u32::MAX),
{
    measure_zone(world, 20, 25, 12, 16, ZoneMetric::Rock).is_some()
}

impl MissionState {
    /// A new mission in its briefing, with the rules its content record authors
    /// and, for the first mission, the tutorial at its welcome step.
    pub fn new(id: MissionId, content: &ContentRegistry) -> (mission: Self)
        ensures
            mission@ == new_spec(id, *content),
    {
        let rules = rules_for(id, content);
        let tutorial = if id == MissionId::L01FirstFlow {
            Some(TutorialState::l01(l01_steps(content)))
        } else {
            None
        };
        MissionState {
            id,
            phase: MissionPhase::Briefing,
            tick: 0,
            stability_ticks: 0,
            objective_progress: 0,
            command_count: 0,
            failure_reason: None,
            tutorial,
            checkpoint_tick: 0,
            failure_ticks: 0,
            alert_level: AlertLevel::Clear,
            rules,
        }
    }

    /// Reload the authored rules when the state carries none (a stability count of
    /// zero marks rules that were never loaded).
    pub(crate) fn ensure_current_rules(&mut self, content: &ContentRegistry)
        ensures
            final(self)@ == if old(self).rules.stability_ticks == 0 {
                (MissionView { rules: rules_spec(*content, old(self).id), ..old(self)@ })
            } else {
                old(self)@
            },
    {
        if self.rules.stability_ticks == 0 {
            self.rules = rules_for(self.id, content);
        }
    }

    /// Leave the briefing and start the mission.
    pub fn start(&mut self)
        ensures
            final(self)@ == if old(self).phase == MissionPhase::Briefing {
                (MissionView { phase: MissionPhase::Active, ..old(self)@ })
            } else {
                old(self)@
            },
    {
        if self.phase == MissionPhase::Briefing {
            self.phase = MissionPhase::Active;
        }
    }

    /// Admit or refuse a command, advancing the tutorial on admitted ones.
    pub fn admit_command(&mut self, command: CommandKind) -> (admission: Admission)
        requires
            admission_spec(old(self)@, command) == Admission::Accepted ==> old(self).command_count < u32::MAX,
        ensures
            admission == admission_spec(old(self)@, command),
            final(self)@ == admit_spec(old(self)@, command),
    {
        if self.phase != MissionPhase::Active {
            return if self.phase == MissionPhase::Success || self.phase == MissionPhase::Failure
                || self.phase == MissionPhase::Debrief {
                Admission::AlreadyComplete
            } else {
                Admission::MissionNotActive
            };
        }
        match self.tutorial.take() {
            Some(mut tutorial) => {
                if !tutorial.skip_confirmed && !tutorial_allows(&tutorial.current_step_id, command) {
                    self.tutorial = Some(tutorial);
                    return Admission::TutorialLocked;
                }
                advance_tutorial(&mut tutorial, command);
                self.tutorial = Some(tutorial);
            },
            None => {},
        }
        self.command_count = self.command_count + 1;
        Admission::Accepted
    }

    /// Skip the tutorial of an active mission.
    pub fn skip_tutorial(&mut self) -> (admission: Admission)
        ensures
            admission == if old(self).phase == MissionPhase::Active {
                Admission::Accepted
            } else {
                Admission::MissionNotActive
            },
            final(self)@ == if old(self).phase == MissionPhase::Active {
                (MissionView {
                    tutorial: match old(self)@.tutorial {
                        Some(t) => Some(skip_spec(t)),
                        None => None,
                    },
                    ..old(self)@
                })
            } else {
                old(self)@
            },
    {
        if self.phase != MissionPhase::Active {
            return Admission::MissionNotActive;
        }
        match self.tutorial.take() {
            Some(mut tutorial) => {
                tutorial.skip();
                self.tutorial = Some(tutorial);
            },
            None => {},
        }
        Admission::Accepted
    }

    /// Remember the current tick as the checkpoint.
    pub fn checkpoint(&mut self)
        ensures
            final(self)@ == (MissionView { checkpoint_tick: old(self).tick, ..old(self)@ }),
    {
        self.checkpoint_tick = self.tick;
    }

    /// Fail an active mission with a reason.
    pub fn fail(&mut self, reason: String)
        ensures
            final(self)@ == fail_spec(old(self)@, reason@),
    {
        if self.phase == MissionPhase::Active {
            self.failure_reason = Some(reason);
            self.phase = MissionPhase::Failure;
        }
    }

    /// The tutorial's tick.
    fn tick_tutorial(&mut self)
        ensures
            final(self)@ == (MissionView {
                tutorial: tutorial_tick_spec(old(self)@.tutorial, old(self).alert_level),
                ..old(self)@
            }),
    {
        let alert = self.alert_level;
        match self.tutorial.take() {
            Some(mut tutorial) => {
                tutorial.ticks_in_step = tutorial.ticks_in_step.saturating_add(1);
                if same_text(&tutorial.current_step_id, "tutorial_l01_beacon_warning") && alert != AlertLevel::Clear {
                    tutorial.complete_current();
                }
                self.tutorial = Some(tutorial);
            },
            None => {},
        }
    }

    /// Whether the mission's authored hazard is present.
    fn hazard_active(&self, world: &SimulationWorld) -> (hazard: bool)
        requires
            world.wf(),
        ensures
            hazard == hazard_spec(self.id, *world, self.rules@),
    {
        match self.id {
            MissionId::L01FirstFlow => {
                measure_cell(world, CellPos { x: 24, y: 8 }, ZoneMetric::Water) >= self.rules.hazard_threshold_vu as u64
            },
            MissionId::L02HoldingLine => {
                fluid_zone(world, 24, 28, 14, 18, ZoneMetric::Water) >= self.rules.hazard_threshold_vu
            },
            MissionId::L03Firebreak => fluid_zone(world, 35, 40, 12, 18, ZoneMetric::Lava) > 0,
        }
    }

    /// The alert level after this tick's hazard reading.
    fn alert_for(&self, hazard: bool) -> (level: AlertLevel)
        ensures
            level == alert_spec(self@, hazard),
    {
        if hazard {
            return AlertLevel::Critical;
        }
        match self.id {
            MissionId::L01FirstFlow => if self.objective_progress > 0 {
                AlertLevel::Advisory
            } else {
                AlertLevel::Clear
            },
            MissionId::L02HoldingLine => if self.rules.warning_tick > 0 && self.tick >= self.rules.warning_tick {
                AlertLevel::Warning
            } else if self.rules.advisory_tick > 0 && self.tick >= self.rules.advisory_tick {
                AlertLevel::Advisory
            } else {
                AlertLevel::Clear
            },
            MissionId::L03Firebreak => if self.objective_progress > 0 {
                AlertLevel::Warning
            } else if self.rules.advisory_tick > 0 && self.tick >= self.rules.advisory_tick {
                AlertLevel::Advisory
            } else {
                AlertLevel::Clear
            },
        }
    }

    /// Whether this tick's objectives hold.
    fn objectives_met(&self, world: &SimulationWorld, trench: u32, shelf: u32) -> (met: bool)
        requires
            world.wf(),
            trench == trench_water(*world),
            shelf == shelf_rock(*world),
            self.id == MissionId::L01FirstFlow ==> self.objective_progress == basin_water(*world),
        ensures
            met == objectives_spec(self@, *world),
    {
        match self.id {
            MissionId::L01FirstFlow => self.objective_progress >= self.rules.objective_max_vu,
            MissionId::L02HoldingLine => {
                let devices = &world.devices.devices;
                let mut reserve = false;
                let mut i: usize = 0;
                while i < devices.len()
                    invariant
                        i <= devices@.len(),
                        reserve == exists|j: int| 0 <= j < i && (#[trigger] devices@[j]).device == DeviceId::Reservoir
                            && devices@[j].stored_vu >= 2_000,
                    decreases devices@.len() - i,
                {
                    if devices[i].device == DeviceId::Reservoir && devices[i].stored_vu >= 2_000 {
                        reserve = true;
                    }
                    i = i + 1;
                }
                self.rules.objective_min_vu <= trench && trench <= self.rules.objective_max_vu && reserve && self.tick
                    >= self.rules.advisory_tick.saturating_add(650)
            },
            MissionId::L03Firebreak => {
                let devices = &world.devices.devices;
                let mut proven = false;
                let mut running = false;
                let mut i: usize = 0;
                while i < devices.len()
                    invariant
                        i <= devices@.len(),
                        proven == exists|j: int| 0 <= j < i && (#[trigger] devices@[j]).device == DeviceId::FlowTurbine
                            && devices@[j].cumulative_power >= 40,
                        running == exists|j: int| 0 <= j < i && (#[trigger] devices@[j]).device == DeviceId::RuneRelay
                            && devices@[j].active,
                    decreases devices@.len() - i,
                {
                    if devices[i].device == DeviceId::FlowTurbine && devices[i].cumulative_power >= 40 {
                        proven = true;
                    }
                    if devices[i].device == DeviceId::RuneRelay && devices[i].active {
                        running = true;
                    }
                    i = i + 1;
                }
                shelf >= self.rules.objective_min_vu && proven && running && self.tick
                    >= self.rules.advisory_tick.saturating_add(550)
            },
        }
    }

    /// Advance an active mission by one world tick (see `tick_spec`).
    pub fn on_tick(&mut self, world: &SimulationWorld)
        requires
            world.wf(),
            old(self).phase == MissionPhase::Active ==> shelf_rock(*world) <= u32::MAX,
        ensures
            final(self)@ == tick_spec(old(self)@, *world),
    {
        if self.phase != MissionPhase::Active {
            return;
        }
        self.tick = world.tick;
        self.tick_tutorial();
        let basin = fluid_zone(world, 26, 30, 7, 11, ZoneMetric::Water);
        let trench = fluid_zone(world, 31, 36, 7, 9, ZoneMetric::Water);
        let shelf = match measure_zone(world, 20, 25, 12, 16, ZoneMetric::Rock) {
            Some(t) => t,
            None => 0,
        };
        self.objective_progress = match self.id {
            MissionId::L01FirstFlow => basin,
            MissionId::L02HoldingLine => trench,
            MissionId::L03Firebreak => shelf,
        };
        let hazard = self.hazard_active(world);
        self.failure_ticks = if hazard {
            self.failure_ticks.saturating_add(1)
        } else {
            0
        };
        self.alert_level = self.alert_for(hazard);
        if self.failure_ticks >= self.rules.failure_ticks {
            let reason = self.rules.hazard_reason.clone();
            self.fail(reason);
            return;
        }
        if self.objectives_met(world, trench, shelf) {
            self.stability_ticks = self.stability_ticks.saturating_add(1);
        } else {
            self.stability_ticks = 0;
        }
        if self.stability_ticks >= self.rules.stability_ticks {
            self.phase = MissionPhase::Success;
        }
    }
}

/// The third mission needs an active rune relay: while no rune relay in the world
/// is active, a mission tick never brings success, and a mission still in play
/// afterwards has its stability count back at zero (for an authored stability
/// count above zero; with a count of zero success needs no objective at all).
pub proof fn law_firebreak_needs_active_relay(m: MissionView, world: SimulationWorld)
    requires
        m.id == MissionId::L03Firebreak,
        m.rules.stability_ticks > 0,
        forall|k: int|
            0 <= k < world.devices.devices@.len() && (#[trigger] world.devices.devices@[k]).device == DeviceId::RuneRelay
                ==> !world.devices.devices@[k].active,
    ensures
        tick_spec(m, world).phase == MissionPhase::Success ==> m.phase == MissionPhase::Success,
        m.phase == MissionPhase::Active && tick_spec(m, world).phase == MissionPhase::Active ==> tick_spec(m, world).stability_ticks == 0,
{
    if m.phase == MissionPhase::Active {
        let timed = MissionView {
            tick: world.tick,
            tutorial: tutorial_tick_spec(m.tutorial, m.alert_level),
            objective_progress: objective_spec(m.id, world) as u32,
            ..m
        };
        let hazard = hazard_spec(m.id, world, m.rules);
        let alerted = MissionView {
            failure_ticks: if hazard { inc_u32(m.failure_ticks) } else { 0 },
            alert_level: alert_spec(timed, hazard),
            ..timed
        };
        assert(!objectives_spec(alerted, world));
    }
}

/// The first tutorial's cursor step lets the operator both move the cursor and
/// move the camera: an active mission at that step admits Select and Camera.
pub proof fn law_cursor_step_admits_select_and_camera(m: MissionView)
    requires
        m.phase == MissionPhase::Active,
        m.tutorial matches Some(t) && t.current == "tutorial_l01_move_cursor"@,
    ensures
        admission_spec(m, CommandKind::Camera) == Admission::Accepted,
        admission_spec(m, CommandKind::Select) == Admission::Accepted,
{
    reveal_strlit("tutorial_l01_welcome");
    reveal_strlit("tutorial_l01_move_camera");
    reveal_strlit("tutorial_l01_move_cursor");
    reveal_strlit("tutorial_l01_inspect_grade");
    reveal_strlit("tutorial_l01_pause_plan");
    reveal_strlit("tutorial_l01_raise_first");
    reveal_strlit("tutorial_l01_raise_remaining");
    reveal_strlit("tutorial_l01_select_deposit");
    reveal_strlit("tutorial_l01_recover_deposit");
    reveal_strlit("tutorial_l01_place_channel");
    reveal_strlit("tutorial_l01_run_and_observe");
    reveal_strlit("tutorial_l01_beacon_warning");
    reveal_strlit("tutorial_l01_open_gate");
    reveal_strlit("tutorial_l01_stabilize");
    assert("tutorial_l01_move_camera"@[19] != "tutorial_l01_move_cursor"@[19]);
    assert("tutorial_l01_move_camera"@[13] != "tutorial_l01_raise_first"@[13]);
    assert("tutorial_l01_move_cursor"@[13] != "tutorial_l01_raise_first"@[13]);
    assert("tutorial_l01_inspect_grade"@[13] != "tutorial_l01_place_channel"@[13]);
    assert("tutorial_l01_raise_remaining"@[14] != "tutorial_l01_recover_deposit"@[14]);
    assert("tutorial_l01_raise_remaining"@[14] != "tutorial_l01_run_and_observe"@[14]);
    assert("tutorial_l01_select_deposit"@[13] != "tutorial_l01_beacon_warning"@[13]);
    assert("tutorial_l01_recover_deposit"@[14] != "tutorial_l01_run_and_observe"@[14]);
    assert("tutorial_l01_open_gate"@[13] != "tutorial_l01_stabilize"@[13]);
    assert(allows("tutorial_l01_move_cursor"@, CommandKind::Select));
    assert(allows("tutorial_l01_move_cursor"@, CommandKind::Camera));
}

/// A tutorial step never refuses the command that completes it: at every step, an
/// active mission admits the command that finishes the step.
pub proof fn law_step_admits_its_completion(m: MissionView, command: CommandKind)
    requires
        m.phase == MissionPhase::Active,
        m.tutorial matches Some(t) && completes_on(t.current, command),
    ensures
        admission_spec(m, command) == Admission::Accepted,
{
    reveal_strlit("tutorial_l01_welcome");
    reveal_strlit("tutorial_l01_move_camera");
    reveal_strlit("tutorial_l01_move_cursor");
    reveal_strlit("tutorial_l01_inspect_grade");
    reveal_strlit("tutorial_l01_pause_plan");
    reveal_strlit("tutorial_l01_raise_first");
    reveal_strlit("tutorial_l01_raise_remaining");
    reveal_strlit("tutorial_l01_select_deposit");
    reveal_strlit("tutorial_l01_recover_deposit");
    reveal_strlit("tutorial_l01_place_channel");
    reveal_strlit("tutorial_l01_run_and_observe");
    reveal_strlit("tutorial_l01_beacon_warning");
    reveal_strlit("tutorial_l01_open_gate");
    reveal_strlit("tutorial_l01_stabilize");
    assert("tutorial_l01_move_camera"@[19] != "tutorial_l01_move_cursor"@[19]);
    assert("tutorial_l01_move_camera"@[13] != "tutorial_l01_raise_first"@[13]);
    assert("tutorial_l01_move_cursor"@[13] != "tutorial_l01_raise_first"@[13]);
    assert("tutorial_l01_inspect_grade"@[13] != "tutorial_l01_place_channel"@[13]);
    assert("tutorial_l01_raise_remaining"@[14] != "tutorial_l01_recover_deposit"@[14]);
    assert("tutorial_l01_raise_remaining"@[14] != "tutorial_l01_run_and_observe"@[14]);
    assert("tutorial_l01_select_deposit"@[13] != "tutorial_l01_beacon_warning"@[13]);
    assert("tutorial_l01_recover_deposit"@[14] != "tutorial_l01_run_and_observe"@[14]);
    assert("tutorial_l01_open_gate"@[13] != "tutorial_l01_stabilize"@[13]);
    let t = m.tutorial->0;
    assert(allows(t.current, command));
}

/// A mission's stability count grows only on a tick whose objectives hold: the
/// first mission's basin (26..30, 7..11) holds its water target; the second
/// mission's trench (31..36, 7..9) is within its band, some reservoir stores at
/// least 2000 vU and 650 ticks have passed since the advisory; the third mission's
/// shelf (20..25, 12..16) holds its rock, some flow turbine has generated at least
/// 40 eU, some rune relay is active and 550 ticks have passed since the advisory.
/// Any other tick that leaves the mission in play resets the count to zero.
pub proof fn law_stability_needs_objectives(m: MissionView, world: SimulationWorld)
    requires
        m.phase == MissionPhase::Active,
        tick_spec(m, world).phase != MissionPhase::Failure,
        tick_spec(m, world).stability_ticks > 0 || (tick_spec(m, world).phase == MissionPhase::Success && m.rules.stability_ticks > 0),
    ensures
        m.id == MissionId::L01FirstFlow ==> zone(world, 26, 30, 7, 11, ZoneMetric::Water) >= m.rules.objective_max_vu,
        m.id == MissionId::L02HoldingLine ==> {
            &&& m.rules.objective_min_vu <= zone(world, 31, 36, 7, 9, ZoneMetric::Water) <= m.rules.objective_max_vu
            &&& exists|k: int|
                0 <= k < world.devices.devices@.len() && (#[trigger] world.devices.devices@[k]).device == DeviceId::Reservoir
                    && world.devices.devices@[k].stored_vu >= 2_000
            &&& world.tick >= m.rules.advisory_tick + 650 || m.rules.advisory_tick + 650 > u64::MAX
        },
        m.id == MissionId::L03Firebreak ==> {
            &&& zone(world, 20, 25, 12, 16, ZoneMetric::Rock) >= m.rules.objective_min_vu
            &&& exists|k: int|
                0 <= k < world.devices.devices@.len() && (#[trigger] world.devices.devices@[k]).device == DeviceId::FlowTurbine
                    && world.devices.devices@[k].cumulative_power >= 40
            &&& exists|k: int|
                0 <= k < world.devices.devices@.len() && (#[trigger] world.devices.devices@[k]).device == DeviceId::RuneRelay
                    && world.devices.devices@[k].active
            &&& world.tick >= m.rules.advisory_tick + 550 || m.rules.advisory_tick + 550 > u64::MAX
        },
{
    let timed = MissionView {
        tick: world.tick,
        tutorial: tutorial_tick_spec(m.tutorial, m.alert_level),
        objective_progress: objective_spec(m.id, world) as u32,
        ..m
    };
    let hazard = hazard_spec(m.id, world, m.rules);
    let alerted = MissionView {
        failure_ticks: if hazard { inc_u32(m.failure_ticks) } else { 0 },
        alert_level: alert_spec(timed, hazard),
        ..timed
    };
    assert(objectives_spec(alerted, world));
}

} // verus!
