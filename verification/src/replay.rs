//! Deterministic campaign replays: scripted reference, alternate, failure and
//! recovery runs of each mission, with fingerprints, a continuation resumed from a
//! midpoint snapshot and a report of the final state.

use vstd::prelude::*;

use crate::devices::power::turbine_generation;
use crate::devices::runtime::{conserving, saturating_inc};
use crate::devices::{DeviceId, DeviceState, DeviceSystem};
use crate::economy::FabricationState;
use crate::mission::state::{
    admission_spec, admit_spec, fluid_zone, metric_at, shelf_rock, tick_spec, trench_water, zone_pos, zone_total,
    MissionState, MissionView, ZoneMetric,
};
use crate::mission::{Admission, AlertLevel, CommandKind, MissionId, MissionPhase};
use crate::simulation::world::{injected_into, injection_accepted};
use crate::simulation::{FluidId, TerrainAction};
use crate::state::CellPos;
use crate::simulation::fingerprint::{flag, fnv_slice, fnv_words, world_fingerprint};
use crate::simulation::{
    cell_material, cell_products, cells_material, devices_stored, SimCell, SimulationWorld, CELL_CAPACITY_VU, ENTITY_LIMIT,
    LEDGER_LIMIT_VU, PRODUCT_GROWTH_PER_TICK, PRODUCT_LIMIT_VU,
};
use crate::simulation::step::authored_supply_spec;
use crate::campaign::{campaign_loadable, campaign_record, campaign_world, load_campaign};
use self::snapshot::same_world;
use crate::content::{first_mission, ContentRegistry};
use crate::mission::state::{lemma_first_mission_unique, new_spec};
use crate::text::{chars_of, decimal, push_decimal};

pub mod snapshot;

verus! {

/// The scripted runs a replay can make.
#[derive(Debug, Clone, Copy, PartialEq, Eq, Structural)]
pub enum ScenarioKind {
    Reference,
    Alternate,
    Failure,
    InsufficientWaterRecovery,
}

/// What a replay reports: its fingerprints, how it ended, and the final mass,
/// device, fabrication and power accounts.
#[derive(Debug, Clone, Copy, PartialEq, Eq, Structural)]
pub struct ScenarioReport {
    pub id: MissionId,
    pub kind: ScenarioKind,
    pub initial_hash: u64,
    pub midpoint_hash: u64,
    pub final_hash: u64,
    pub ticks: u64,
    pub continuation_matches: bool,
    pub terminal_success: bool,
    pub terminal_failure: bool,
    pub objective_incomplete: bool,
    pub objective_progress: u32,
    pub mass_balance_error: i64,
    pub injected_vu: u64,
    pub drained_vu: u64,
    pub reacted_vu: u64,
    pub products_vu: u64,
    pub admitted_commands: u32,
    pub placed_devices: usize,
    pub reservoir_vu: u32,
    pub turbine_power: u64,
    pub relay_active: bool,
    pub relay_present: bool,
    pub relay_stored_vu: u32,
    pub relay_powered: bool,
    pub total_material_vu: u64,
    pub fabrication_available_fu: u32,
    pub fabrication_reserved_fu: u32,
    pub fabrication_spent_fu: u32,
    pub fabrication_refunded_fu: u32,
    pub fabrication_recovered_fu: u32,
    pub fabrication_balance_error: i64,
    pub power_authored_eu: u32,
    pub power_turbine_eu: u32,
    pub power_allocated_eu: u32,
    pub power_curtailed_eu: u32,
    pub power_deficit_eu: u32,
}

/// `v` capped at `cap`.
pub open spec fn capped(v: int, cap: int) -> int {
    if v > cap { cap } else { v }
}

/// `v` held within the range of `i64`.
pub open spec fn clamped_i64(v: int) -> int {
    if v > i64::MAX { i64::MAX as int } else if v < i64::MIN { i64::MIN as int } else { v }
}

/// Material stored in devices of one kind, summed in order and saturating at
/// `u32::MAX`.
pub open spec fn kind_stored(devices: Seq<DeviceState>, kind: DeviceId) -> int
    decreases devices.len(),
{
    if devices.len() == 0 {
        0
    } else {
        let rest = kind_stored(devices.drop_last(), kind);
        if devices.last().device == kind {
            capped(rest + devices.last().stored_vu, u32::MAX as int)
        } else {
            rest
        }
    }
}

/// Cumulative power of devices of one kind, summed in order and saturating at
/// `u64::MAX`.
pub open spec fn kind_power(devices: Seq<DeviceState>, kind: DeviceId) -> int
    decreases devices.len(),
{
    if devices.len() == 0 {
        0
    } else {
        let rest = kind_power(devices.drop_last(), kind);
        if devices.last().device == kind {
            capped(rest + devices.last().cumulative_power, u64::MAX as int)
        } else {
            rest
        }
    }
}

/// Some device is of the kind.
pub open spec fn has_kind(devices: Seq<DeviceState>, kind: DeviceId) -> bool {
    exists|i: int| 0 <= i < devices.len() && (#[trigger] devices[i]).device == kind
}

/// Some device of the kind is active.
pub open spec fn kind_active(devices: Seq<DeviceState>, kind: DeviceId) -> bool {
    exists|i: int| 0 <= i < devices.len() && (#[trigger] devices[i]).device == kind && devices[i].active
}

/// Some device of the kind is powered.
pub open spec fn kind_powered(devices: Seq<DeviceState>, kind: DeviceId) -> bool {
    exists|i: int| 0 <= i < devices.len() && (#[trigger] devices[i]).device == kind && devices[i].powered
}

/// Whether some rune relay is active.
pub(crate) fn relay_is_active(devices: &Vec<DeviceState>) -> (active: bool)
    ensures
        active == kind_active(devices@, DeviceId::RuneRelay),
{
    let (_, active, _) = kind_flags(devices, DeviceId::RuneRelay);
    active
}

/// Material stored in devices of a kind (see `kind_stored`).
pub(crate) fn stored_of(devices: &Vec<DeviceState>, kind: DeviceId) -> (total: u32)
    ensures
        total == kind_stored(devices@, kind),
{
    let mut total: u32 = 0;
    let mut i: usize = 0;
    while i < devices.len()
        invariant
            i <= devices@.len(),
            total == kind_stored(devices@.take(i as int), kind),
        decreases devices@.len() - i,
    {
        proof {
            assert(devices@.take(i as int + 1).drop_last() =~= devices@.take(i as int));
        }
        if devices[i].device == kind {
            total = total.saturating_add(devices[i].stored_vu);
        }
        i = i + 1;
    }
    proof {
        assert(devices@.take(i as int) =~= devices@);
    }
    total
}

/// Cumulative power of devices of a kind (see `kind_power`).
pub(crate) fn power_of(devices: &Vec<DeviceState>, kind: DeviceId) -> (total: u64)
    ensures
        total == kind_power(devices@, kind),
{
    let mut total: u64 = 0;
    let mut i: usize = 0;
    while i < devices.len()
        invariant
            i <= devices@.len(),
            total == kind_power(devices@.take(i as int), kind),
        decreases devices@.len() - i,
    {
        proof {
            assert(devices@.take(i as int + 1).drop_last() =~= devices@.take(i as int));
        }
        if devices[i].device == kind {
            total = total.saturating_add(devices[i].cumulative_power);
        }
        i = i + 1;
    }
    proof {
        assert(devices@.take(i as int) =~= devices@);
    }
    total
}

/// Whether a device of the kind is present, whether one is active and whether one
/// is powered.
fn kind_flags(devices: &Vec<DeviceState>, kind: DeviceId) -> (flags: (bool, bool, bool))
    ensures
        flags.0 == has_kind(devices@, kind),
        flags.1 == kind_active(devices@, kind),
        flags.2 == kind_powered(devices@, kind),
{
    let mut present = false;
    let mut active = false;
    let mut powered = false;
    let mut i: usize = 0;
    while i < devices.len()
        invariant
            i <= devices@.len(),
            present == exists|j: int| 0 <= j < i && (#[trigger] devices@[j]).device == kind,
            active == exists|j: int| 0 <= j < i && (#[trigger] devices@[j]).device == kind && devices@[j].active,
            powered == exists|j: int| 0 <= j < i && (#[trigger] devices@[j]).device == kind && devices@[j].powered,
        decreases devices@.len() - i,
    {
        let d = devices[i];
        if d.device == kind {
            present = true;
            if d.active {
                active = true;
            }
            if d.powered {
                powered = true;
            }
        }
        i = i + 1;
    }
    (present, active, powered)
}

/// The material of a world, counted without bound.
fn material_wide(world: &SimulationWorld) -> (total: u128)
    requires
        world.wf(),
    ensures
        total == world.material(),
        total <= 0xFFFF_FFFF_FFFF_FFFF_FFFF,
{
    let ghost per_cell: int = 16_000 + 4 * (u32::MAX as int);
    let mut sum: u128 = 0;
    let mut i: usize = 0;
    proof {
        crate::state::lemma_grid_index_bound(world.width, world.height, crate::state::CellPos { x: 0, y: 0 });
    }
    while i < world.cells.len()
        invariant
            i <= world.cells@.len(),
            world.wf(),
            world.cells@.len() <= 4294836225,
            sum == cells_material(world.cells@.take(i as int)),
            sum <= i * per_cell,
            per_cell == 16_000 + 4 * (u32::MAX as int),
        decreases world.cells@.len() - i,
    {
        let cell = &world.cells[i];
        proof {
            assert(cell.wf());
            assert(world.cells@.take(i as int + 1).drop_last() =~= world.cells@.take(i as int));
            assert(i * per_cell + per_cell <= 4294836225 * per_cell) by (nonlinear_arith)
                requires i < 4294836225, per_cell >= 0;
        }
        let cell_total: u128 = cell.surface_volume() as u128 + cell.airborne_volume() as u128
            + cell.pending_rock_vu as u128 + cell.pending_vitrified_vu as u128
            + cell.formed_rock_vu as u128 + cell.formed_vitrified_vu as u128;
        sum = sum + cell_total;
        proof {
            assert((i + 1) * per_cell == i * per_cell + per_cell) by (nonlinear_arith);
        }
        i = i + 1;
    }
    proof {
        assert(world.cells@.take(i as int) =~= world.cells@);
    }
    let mut j: usize = 0;
    let mut stored: u128 = 0;
    while j < world.devices.devices.len()
        invariant
            j <= world.devices.devices@.len(),
            world.devices.devices@.len() <= ENTITY_LIMIT,
            stored == devices_stored(world.devices.devices@.take(j as int)),
            stored <= j * 4294967295,
        decreases world.devices.devices@.len() - j,
    {
        proof {
            assert(world.devices.devices@.take(j as int + 1).drop_last() =~= world.devices.devices@.take(j as int));
        }
        stored = stored + world.devices.devices[j].stored_vu as u128;
        j = j + 1;
    }
    proof {
        assert(world.devices.devices@.take(j as int) =~= world.devices.devices@);
        assert(stored <= 16_777_216 * 4294967295) by (nonlinear_arith)
            requires stored <= j * 4294967295, j <= 16_777_216;
        assert(sum <= 4294836225 * per_cell) by (nonlinear_arith)
            requires sum <= i * per_cell, i <= 4294836225, per_cell >= 0;
    }
    sum + stored
}

/// The words of a text: its length, then each character's code.
pub open spec fn text_words(s: Seq<char>) -> Seq<u64> {
    seq![s.len() as u64] + s.map_values(|c: char| c as u64)
}

/// Position of a phase in the lifecycle.
pub open spec fn phase_code(p: MissionPhase) -> u64 {
    match p {
        MissionPhase::Briefing => 0,
        MissionPhase::Active => 1,
        MissionPhase::Success => 2,
        MissionPhase::Failure => 3,
        MissionPhase::Debrief => 4,
    }
}

/// The words of a failure reason: a presence flag, then the text.
pub open spec fn reason_words(reason: Option<Seq<char>>) -> Seq<u64> {
    match reason {
        Some(r) => seq![1u64] + text_words(r),
        None => seq![0u64],
    }
}

/// The words of a tutorial position: a presence flag, the completed count, the
/// step counters and flags, then the current step.
pub open spec fn tutorial_words(tutorial: Option<crate::mission::TutorialView>) -> Seq<u64> {
    match tutorial {
        Some(t) => seq![
            1u64,
            t.completed.len() as u64,
            t.ticks_in_step as u64,
            t.actions_in_step as u64,
            flag(t.dismissed_prompt),
            flag(t.skip_confirmed),
        ] + text_words(t.current),
        None => seq![0u64],
    }
}

/// The words of a mission's progress: its mission, phase, ticks and counters,
/// alert, failure reason and tutorial position.
pub open spec fn mission_words(m: MissionView) -> Seq<u64> {
    seq![
        m.id.sequence_spec() as u64,
        phase_code(m.phase),
        m.tick,
        m.stability_ticks as u64,
        m.objective_progress as u64,
        m.command_count as u64,
        m.checkpoint_tick,
        m.failure_ticks as u64,
        m.alert_level.severity() as u64,
    ] + reason_words(m.failure_reason) + tutorial_words(m.tutorial)
}

/// The fingerprint of a replay state: the world's fingerprint with the mission's
/// words mixed in.
pub open spec fn scenario_fingerprint(world: SimulationWorld, mission: MissionView) -> u64 {
    fnv_words(world_fingerprint(world), mission_words(mission))
}

/// Append the words of a text.
pub(crate) fn push_text_words(words: &mut Vec<u64>, text: &String)
    ensures
        final(words)@ == old(words)@ + text_words(text@),
{
    let chars = chars_of(text.as_str());
    words.push(chars.len() as u64);
    let ghost start = words@;
    let mut i: usize = 0;
    while i < chars.len()
        invariant
            i <= chars@.len(),
            chars@ == text@,
            words@ == start + chars@.take(i as int).map_values(|c: char| c as u64),
        decreases chars@.len() - i,
    {
        let c = chars[i];
        words.push(c as u64);
        proof {
            assert(chars@.take(i as int + 1).map_values(|c: char| c as u64) =~= chars@.take(i as int).map_values(
                |c: char| c as u64,
            ).push(c as u64));
        }
        i = i + 1;
    }
    proof {
        assert(chars@.take(i as int) =~= chars@);
        assert(final(words)@ =~= old(words)@ + text_words(text@));
    }
}

/// The words of a failure reason (see `reason_words`).
fn reason_word_list(reason: &Option<String>) -> (words: Vec<u64>)
    ensures
        words@ == reason_words(match reason {
            Some(r) => Some(r@),
            None => None,
        }),
{
    let mut words: Vec<u64> = Vec::new();
    match reason {
        Some(r) => {
            words.push(1);
            push_text_words(&mut words, r);
            proof {
                assert(words@ =~= seq![1u64] + text_words(r@));
            }
        },
        None => {
            words.push(0);
            proof {
                assert(words@ =~= seq![0u64]);
            }
        },
    }
    words
}

/// The words of a tutorial position (see `tutorial_words`).
fn tutorial_word_list(tutorial: &Option<crate::mission::TutorialState>) -> (words: Vec<u64>)
    ensures
        words@ == tutorial_words(match tutorial {
            Some(t) => Some(t@),
            None => None,
        }),
{
    match tutorial {
        Some(t) => {
            let mut words: Vec<u64> = vec![
                1,
                t.completed_step_ids.len() as u64,
                t.ticks_in_step as u64,
                t.actions_in_step as u64,
                if t.dismissed_prompt { 1 } else { 0 },
                if t.skip_confirmed { 1 } else { 0 },
            ];
            let ghost head = words@;
            push_text_words(&mut words, &t.current_step_id);
            proof {
                assert(head =~= seq![
                    1u64,
                    t@.completed.len() as u64,
                    t@.ticks_in_step as u64,
                    t@.actions_in_step as u64,
                    flag(t@.dismissed_prompt),
                    flag(t@.skip_confirmed),
                ]);
            }
            words
        },
        None => {
            let words: Vec<u64> = vec![0];
            proof {
                assert(words@ =~= seq![0u64]);
            }
            words
        },
    }
}

/// The words of a mission (see `mission_words`).
fn mission_word_list(mission: &MissionState) -> (words: Vec<u64>)
    ensures
        words@ == mission_words(mission@),
{
    let alert: u64 = match mission.alert_level {
        AlertLevel::Clear => 0,
        AlertLevel::Advisory => 1,
        AlertLevel::Warning => 2,
        AlertLevel::Critical => 3,
    };
    let phase: u64 = match mission.phase {
        MissionPhase::Briefing => 0,
        MissionPhase::Active => 1,
        MissionPhase::Success => 2,
        MissionPhase::Failure => 3,
        MissionPhase::Debrief => 4,
    };
    let mut words: Vec<u64> = vec![
        mission.id.sequence() as u64,
        phase,
        mission.tick,
        mission.stability_ticks as u64,
        mission.objective_progress as u64,
        mission.command_count as u64,
        mission.checkpoint_tick,
        mission.failure_ticks as u64,
        alert,
    ];
    let mut reason = reason_word_list(&mission.failure_reason);
    let mut tutorial = tutorial_word_list(&mission.tutorial);
    let ghost head = words@;
    let ghost r = reason@;
    let ghost t = tutorial@;
    words.append(&mut reason);
    words.append(&mut tutorial);
    proof {
        assert(words@ =~= head + r + t);
    }
    words
}

/// The fingerprint of a replay state (see `scenario_fingerprint`).
pub fn state_fingerprint(world: &SimulationWorld, mission: &MissionState) -> (hash: u64)
    ensures
        hash == scenario_fingerprint(*world, mission@),
{
    let words = mission_word_list(mission);
    fnv_slice(world.fingerprint(), words.as_slice())
}

/// A bound on each cell's terrain products under which a zone of thirty cells
/// still fits a `u32` after one more tick.
pub const SCENARIO_PRODUCT_LIMIT: u32 = 143_000_000;

/// A replay step has room: one more tick, one extra injection of a cell's
/// capacity, products that keep the reaction shelf measurable, and authored power
/// that cannot overflow together with the turbines' output.
pub open spec fn scenario_room(w: SimulationWorld) -> bool {
    &&& forall|i: int|
        0 <= i < w.cells@.len() ==> cell_products(#[trigger] w.cells@[i]) + PRODUCT_GROWTH_PER_TICK
            <= SCENARIO_PRODUCT_LIMIT
    &&& w.ledger.injected + CELL_CAPACITY_VU * (w.sources@.len() + 1) <= LEDGER_LIMIT_VU
    &&& w.ledger.drained + CELL_CAPACITY_VU * w.cells@.len() <= LEDGER_LIMIT_VU
    &&& w.ledger.reacted + 740 * w.cells@.len() <= LEDGER_LIMIT_VU
    &&& w.ledger.products + 250 * w.cells@.len() <= LEDGER_LIMIT_VU
    &&& authored_supply_spec(w.power_sources@) + 4 * w.devices.devices@.len() <= u32::MAX
}

/// Turbines make at most four units of power each.
proof fn lemma_turbine_generation_bound(devices: Seq<DeviceState>)
    requires
        forall|i: int| 0 <= i < devices.len() ==> (#[trigger] devices[i]).power_generated <= 4,
    ensures
        0 <= turbine_generation(devices) <= 4 * devices.len(),
    decreases devices.len(),
{
    if devices.len() > 0 {
        lemma_turbine_generation_bound(devices.drop_last());
        assert(devices.last() == devices[devices.len() - 1]);
    }
}

/// Rock zones of cells with bounded products have a bounded measure.
proof fn lemma_zone_rock_bound(world: SimulationWorld, x0: u16, y0: u16, rows: u16, k: int)
    requires
        world.wf(),
        k >= 0,
        forall|i: int| 0 <= i < world.cells@.len() ==> cell_products(#[trigger] world.cells@[i]) <= SCENARIO_PRODUCT_LIMIT,
    ensures
        0 <= zone_total(world, x0, y0, rows, k, ZoneMetric::Rock) <= SCENARIO_PRODUCT_LIMIT * k,
    decreases k,
{
    if k > 0 {
        lemma_zone_rock_bound(world, x0, y0, rows, k - 1);
        let pos = zone_pos(x0, y0, rows, k - 1);
        if let Some(i) = world.index_of(pos) {
            crate::state::lemma_grid_index_bound(world.width, world.height, pos);
            assert(cell_products(world.cells@[i as int]) <= SCENARIO_PRODUCT_LIMIT);
        }
        assert(metric_at(world, pos, ZoneMetric::Rock) <= SCENARIO_PRODUCT_LIMIT);
    }
}

/// Whether a replay step has room (see `scenario_room`).
fn scenario_ready(world: &SimulationWorld) -> (ready: bool)
    requires
        world.wf(),
    ensures
        ready == scenario_room(*world),
{
    let mut i: usize = 0;
    while i < world.cells.len()
        invariant
            i <= world.cells@.len(),
            forall|j: int|
                0 <= j < i ==> cell_products(#[trigger] world.cells@[j]) + PRODUCT_GROWTH_PER_TICK
                    <= SCENARIO_PRODUCT_LIMIT,
        decreases world.cells@.len() - i,
    {
        let c = &world.cells[i];
        let products: u64 = c.pending_rock_vu as u64 + c.pending_vitrified_vu as u64 + c.formed_rock_vu as u64
            + c.formed_vitrified_vu as u64;
        if products + PRODUCT_GROWTH_PER_TICK as u64 > SCENARIO_PRODUCT_LIMIT as u64 {
            return false;
        }
        i = i + 1;
    }
    let limit = LEDGER_LIMIT_VU as u128;
    let cells = world.cells.len() as u128;
    if world.ledger.injected as u128 + CELL_CAPACITY_VU as u128 * (world.sources.len() as u128 + 1) > limit
        || world.ledger.drained as u128 + CELL_CAPACITY_VU as u128 * cells > limit || world.ledger.reacted as u128 + 740
        * cells > limit || world.ledger.products as u128 + 250 * cells > limit {
        return false;
    }
    let mut supply: u128 = 0;
    let mut k: usize = 0;
    while k < world.power_sources.len()
        invariant
            k <= world.power_sources@.len(),
            supply == authored_supply_spec(world.power_sources@.take(k as int)),
            supply <= k * 4294967295,
        decreases world.power_sources@.len() - k,
    {
        proof {
            assert(world.power_sources@.take(k as int + 1).drop_last() =~= world.power_sources@.take(k as int));
            assert(k * 4294967295 + 4294967295 <= usize::MAX * 4294967295) by (nonlinear_arith)
                requires k < usize::MAX;
        }
        if world.power_sources[k].enabled {
            supply = supply + world.power_sources[k].output_eu_per_tick as u128;
        }
        proof {
            assert((k + 1) * 4294967295 == k * 4294967295 + 4294967295) by (nonlinear_arith);
        }
        k = k + 1;
    }
    proof {
        assert(world.power_sources@.take(k as int) =~= world.power_sources@);
    }
    supply + 4 * world.devices.devices.len() as u128 <= u32::MAX as u128
}

/// The first device of a kind is at `i`.
pub open spec fn first_of(devices: Seq<DeviceState>, kind: DeviceId, i: int) -> bool {
    &&& 0 <= i < devices.len()
    &&& devices[i].device == kind
    &&& forall|j: int| 0 <= j < i ==> (#[trigger] devices[j]).device != kind
}

/// Index of the first device of a kind.
fn first_index(devices: &Vec<DeviceState>, kind: DeviceId) -> (found: Option<usize>)
    ensures
        match found {
            Some(i) => first_of(devices@, kind, i as int),
            None => !has_kind(devices@, kind),
        },
{
    let mut i: usize = 0;
    while i < devices.len()
        invariant
            i <= devices@.len(),
            forall|j: int| 0 <= j < i ==> (#[trigger] devices@[j]).device != kind,
        decreases devices@.len() - i,
    {
        if devices[i].device == kind {
            return Some(i);
        }
        i = i + 1;
    }
    None
}

/// The first device of a kind is unique.
proof fn lemma_first_of_unique(devices: Seq<DeviceState>, kind: DeviceId, i: int, j: int)
    requires
        first_of(devices, kind, i),
        first_of(devices, kind, j),
    ensures
        i == j,
{
    if i < j {
        assert(devices[i].device != kind);
    } else if j < i {
        assert(devices[j].device != kind);
    }
}

/// Some turbine made at least two units of power in its last tick.
pub open spec fn turbine_generating(devices: Seq<DeviceState>) -> bool {
    exists|i: int|
        0 <= i < devices.len() && (#[trigger] devices[i]).device == DeviceId::FlowTurbine && devices[i].power_generated
            >= 2
}

/// Some turbine has made power at some time.
pub open spec fn turbine_has_run(devices: Seq<DeviceState>) -> bool {
    exists|i: int|
        0 <= i < devices.len() && (#[trigger] devices[i]).device == DeviceId::FlowTurbine && devices[i].cumulative_power
            > 0
}

/// Whether a turbine generates (see `turbine_generating`) and whether one has run
/// (see `turbine_has_run`).
fn turbine_status(devices: &Vec<DeviceState>) -> (status: (bool, bool))
    ensures
        status.0 == turbine_generating(devices@),
        status.1 == turbine_has_run(devices@),
{
    let mut generating = false;
    let mut has_run = false;
    let mut i: usize = 0;
    while i < devices.len()
        invariant
            i <= devices@.len(),
            generating == exists|j: int|
                0 <= j < i && (#[trigger] devices@[j]).device == DeviceId::FlowTurbine && devices@[j].power_generated >= 2,
            has_run == exists|j: int|
                0 <= j < i && (#[trigger] devices@[j]).device == DeviceId::FlowTurbine && devices@[j].cumulative_power > 0,
        decreases devices@.len() - i,
    {
        let d = devices[i];
        if d.device == DeviceId::FlowTurbine {
            if d.power_generated >= 2 {
                generating = true;
            }
            if d.cumulative_power > 0 {
                has_run = true;
            }
        }
        i = i + 1;
    }
    (generating, has_run)
}

/// A device switched off: disabled, unpowered and inactive.
pub open spec fn switched_off(d: DeviceState) -> DeviceState {
    DeviceState { enabled: false, powered: false, active: false, ..d }
}

/// The reserve's release setting: full while the trench is nearly full or the
/// reserve is still filling, half otherwise.
pub open spec fn reserve_setting(trench: int, stored: u32) -> u16 {
    if trench >= 6_500 || stored < 2_500 {
        10_000
    } else {
        5_000
    }
}

/// The scripted runs that drive the player's build: the reference and the
/// alternate.
pub open spec fn drives(kind: ScenarioKind) -> bool {
    kind == ScenarioKind::Reference || kind == ScenarioKind::Alternate
}

/// The operator's device controls before a tick. On the third mission, once a
/// turbine makes two units of power, the first pump is switched off so the relay
/// gets its whole demand. On the second mission the first reservoir is enabled
/// once a turbine has run, and its release setting follows the trench (see
/// `reserve_setting`). Other runs leave the devices alone.
pub open spec fn controlled(devices: Seq<DeviceState>, trench: int, id: MissionId, kind: ScenarioKind) -> Seq<
    DeviceState,
> {
    if drives(kind) && id == MissionId::L03Firebreak {
        if turbine_generating(devices) && exists|i: int| first_of(devices, DeviceId::Pump, i) {
            let i = choose|i: int| first_of(devices, DeviceId::Pump, i);
            devices.update(i, switched_off(devices[i]))
        } else {
            devices
        }
    } else if drives(kind) && id == MissionId::L02HoldingLine && exists|i: int| first_of(devices, DeviceId::Reservoir, i) {
        let r = choose|i: int| first_of(devices, DeviceId::Reservoir, i);
        let d = if turbine_has_run(devices) {
            DeviceState { enabled: true, ..devices[r] }
        } else {
            devices[r]
        };
        devices.update(r, DeviceState { setting_bp: reserve_setting(trench, d.stored_vu), ..d })
    } else {
        devices
    }
}

/// The controls keep the number of devices.
proof fn lemma_controlled_len(devices: Seq<DeviceState>, trench: int, id: MissionId, kind: ScenarioKind)
    ensures
        controlled(devices, trench, id, kind).len() == devices.len(),
{
}

/// Apply the operator's device controls (see `controlled`) before a tick.
pub fn apply_controls(world: &mut SimulationWorld, id: MissionId, kind: ScenarioKind)
    requires
        old(world).wf(),
    ensures
        final(world).wf(),
        final(world).devices.devices@ == controlled(old(world).devices.devices@, trench_water(*old(world)), id, kind),
        *final(world) == (SimulationWorld { devices: final(world).devices, ..*old(world) }),
        final(world).devices.queued == old(world).devices.queued,
        final(world).devices.next_entity_id == old(world).devices.next_entity_id,
        final(world).devices.next_plan_id == old(world).devices.next_plan_id,
        final(world).balance() == old(world).balance(),
{
    let drive = kind == ScenarioKind::Reference || kind == ScenarioKind::Alternate;
    if drive && id == MissionId::L03Firebreak {
        let (generating, _) = turbine_status(&world.devices.devices);
        if generating {
            if let Some(i) = first_index(&world.devices.devices, DeviceId::Pump) {
                let d = world.devices.devices[i];
                let ghost before = world.devices.devices@;
                world.devices.devices.set(i, DeviceState { enabled: false, powered: false, active: false, ..d });
                proof {
                    let k = choose|k: int| first_of(before, DeviceId::Pump, k);
                    lemma_first_of_unique(before, DeviceId::Pump, i as int, k);
                    crate::simulation::lemma_devices_stored_update(before, i as int, world.devices.devices@[i as int]);
                }
            }
        }
    } else if drive && id == MissionId::L02HoldingLine {
        let (_, has_run) = turbine_status(&world.devices.devices);
        let trench = fluid_zone(world, 31, 36, 7, 9, ZoneMetric::Water);
        if let Some(r) = first_index(&world.devices.devices, DeviceId::Reservoir) {
            let ghost before = world.devices.devices@;
            let d0 = world.devices.devices[r];
            let d = if has_run {
                DeviceState { enabled: true, ..d0 }
            } else {
                d0
            };
            let setting: u16 = if trench >= 6_500 || d.stored_vu < 2_500 {
                10_000
            } else {
                5_000
            };
            world.devices.devices.set(r, DeviceState { setting_bp: setting, ..d });
            proof {
                let k = choose|k: int| first_of(before, DeviceId::Reservoir, k);
                lemma_first_of_unique(before, DeviceId::Reservoir, r as int, k);
                crate::simulation::lemma_devices_stored_update(before, r as int, world.devices.devices@[r as int]);
            }
        }
    }
}

/// Where and what a failure run spills: water on the first mission's protected
/// beacon, water on the second mission's camp, lava on the third mission's works.
pub open spec fn hazard_spill(id: MissionId) -> (CellPos, FluidId) {
    match id {
        MissionId::L01FirstFlow => (CellPos { x: 24, y: 8 }, FluidId::Water),
        MissionId::L02HoldingLine => (CellPos { x: 26, y: 16 }, FluidId::Water),
        MissionId::L03Firebreak => (CellPos { x: 37, y: 15 }, FluidId::Lava),
    }
}

/// The hazard spill of a mission (see `hazard_spill`).
fn hazard_point(id: MissionId) -> (spill: (CellPos, FluidId))
    ensures
        spill == hazard_spill(id),
{
    match id {
        MissionId::L01FirstFlow => (CellPos { x: 24, y: 8 }, FluidId::Water),
        MissionId::L02HoldingLine => (CellPos { x: 26, y: 16 }, FluidId::Water),
        MissionId::L03Firebreak => (CellPos { x: 37, y: 15 }, FluidId::Lava),
    }
}

/// One replay step from `(w0, m0)` to `(w1, m1)` (see `tick_scenario`): without
/// room nothing changes; otherwise the world ticks once after the operator's
/// controls and the mission advances on the ticked world.
#[verifier::opaque]
pub open spec fn scenario_step(w0: SimulationWorld, m0: MissionView, w1: SimulationWorld, m1: MissionView, id: MissionId, kind: ScenarioKind) -> bool {
    &&& !scenario_room(w0) ==> w1 == w0 && m1 == m0
    &&& scenario_room(w0) ==> {
        &&& w1.tick == saturating_inc(w0.tick)
        &&& w1.room_for(0)
        &&& m1 == tick_spec(m0, w1)
        &&& w1.width == w0.width
        &&& w1.height == w0.height
        &&& w1.devices.devices@.len() == w0.devices.devices@.len()
        &&& w1.devices.queued == w0.devices.queued
        &&& w1.devices.next_entity_id == w0.devices.next_entity_id
        &&& w1.devices.next_plan_id == w0.devices.next_plan_id
        &&& w1.deposits == w0.deposits
        &&& w1.power_sources == w0.power_sources
        &&& w1.fabrication == w0.fabrication
        &&& w1.sources@.len() == w0.sources@.len()
        &&& conserving(controlled(w0.devices.devices@, trench_water(w0), id, kind)) ==> w1.balance() == w0.balance()
        &&& exists|wc: SimulationWorld, wh: SimulationWorld, we: SimulationWorld| #[trigger] scenario_world_step(w0, wc, wh, we, w1, id, kind)
    }
}

/// The world part of a replay step: the operator's controls set the devices
/// (`wc`), a failure run spills 2000 vU on its hazard (`wh`), the source schedule
/// applies (`we`), and the world ticks (see `world_ticked`).
pub open spec fn scenario_world_step(
    w0: SimulationWorld,
    wc: SimulationWorld,
    wh: SimulationWorld,
    we: SimulationWorld,
    w1: SimulationWorld,
    id: MissionId,
    kind: ScenarioKind,
) -> bool {
    &&& wc == (SimulationWorld { devices: wc.devices, ..w0 })
    &&& wc.devices.devices@ == controlled(w0.devices.devices@, trench_water(w0), id, kind)
    &&& kind == ScenarioKind::Failure ==> injected_into(wc, wh, hazard_spill(id).0, hazard_spill(id).1, 2_000)
    &&& kind != ScenarioKind::Failure ==> wh == wc
    &&& we == (SimulationWorld { sources: we.sources, ..wh })
    &&& crate::simulation::step::world_ticked(we, w1)
}

/// The worlds `ws` and missions `ms` before and after each replay step in turn.
pub open spec fn scenario_steps(ws: Seq<SimulationWorld>, ms: Seq<MissionView>, id: MissionId, kind: ScenarioKind) -> bool {
    &&& ws.len() >= 1
    &&& ms.len() == ws.len()
    &&& forall|i: int| 0 <= i < ws.len() - 1 ==> scenario_step(#[trigger] ws[i], ms[i], ws[i + 1], ms[i + 1], id, kind)
}

/// No state of a replay but its last has ended (see `run_ended`).
pub open spec fn live_until_last(ws: Seq<SimulationWorld>, ms: Seq<MissionView>) -> bool {
    forall|k: int| 0 <= k < ws.len() - 1 ==> !run_ended(#[trigger] ws[k], ms[k])
}

/// `(w1, m1)` follows from `(w0, m0)` by replay steps (see `scenario_steps`),
/// none of which started from an ended state.
#[verifier::opaque]
pub open spec fn scenario_run(w0: SimulationWorld, m0: MissionView, w1: SimulationWorld, m1: MissionView, id: MissionId, kind: ScenarioKind) -> bool {
    exists|ws: Seq<SimulationWorld>, ms: Seq<MissionView>| {
        &&& #[trigger] scenario_steps(ws, ms, id, kind)
        &&& live_until_last(ws, ms)
        &&& ws[0] == w0
        &&& ms[0] == m0
        &&& ws.last() == w1
        &&& ms.last() == m1
    }
}

/// One replay step, when the world has room for it (see `scenario_room`): apply
/// the operator's controls, spill 2000 vU on the hazard in a failure run, apply
/// the scheduled source events, tick the world and advance the mission. Without
/// room nothing changes. The mass balance holds across a step whose controlled
/// devices conserve material.
pub fn tick_scenario(world: &mut SimulationWorld, mission: &mut MissionState, id: MissionId, kind: ScenarioKind) -> (ticked: bool)
    requires
        old(world).wf(),
    ensures
        final(world).wf(),
        ticked == scenario_room(*old(world)),
        !ticked ==> *final(world) == *old(world) && final(mission)@ == old(mission)@,
        ticked ==> {
            &&& final(world).tick == saturating_inc(old(world).tick)
            &&& final(world).room_for(0)
            &&& final(mission)@ == tick_spec(old(mission)@, *final(world))
            &&& final(world).width == old(world).width
            &&& final(world).height == old(world).height
            &&& final(world).devices.devices@.len() == old(world).devices.devices@.len()
            &&& final(world).devices.queued == old(world).devices.queued
            &&& final(world).devices.next_entity_id == old(world).devices.next_entity_id
            &&& final(world).devices.next_plan_id == old(world).devices.next_plan_id
            &&& final(world).deposits == old(world).deposits
            &&& final(world).power_sources == old(world).power_sources
            &&& final(world).fabrication == old(world).fabrication
            &&& final(world).sources@.len() == old(world).sources@.len()
            &&& conserving(controlled(old(world).devices.devices@, trench_water(*old(world)), id, kind))
                ==> final(world).balance() == old(world).balance()
        },
        scenario_step(*old(world), old(mission)@, *final(world), final(mission)@, id, kind),
{
    proof {
        reveal(scenario_step);
    }
    if !scenario_ready(world) {
        return false;
    }
    let ghost w0 = *world;
    apply_controls(world, id, kind);
    let ghost w1 = *world;
    if kind == ScenarioKind::Failure {
        let (pos, fluid) = hazard_point(id);
        proof {
            assert(injection_accepted(*world, pos, fluid, 2_000) <= 2_000);
        }
        world.inject(pos, fluid, 2_000);
        proof {
            assert forall|i: int| 0 <= i < world.cells@.len() implies cell_products(#[trigger] world.cells@[i])
                == cell_products(w1.cells@[i]) by {
                if let Some(k) = w1.index_of(pos) {
                    crate::state::lemma_grid_index_bound(w1.width, w1.height, pos);
                    assert(world.cells@ == w1.cells@.update(k as int, world.cells@[k as int]));
                }
            }
        }
    }
    let ghost w2 = *world;
    proof {
        assert forall|i: int| 0 <= i < w2.cells@.len() implies cell_products(#[trigger] w2.cells@[i]) == cell_products(
            w0.cells@[i],
        ) by {
            assert(w1.cells@[i] == w0.cells@[i]);
            assert(cell_products(w2.cells@[i]) == cell_products(w1.cells@[i]));
        }
    }
    crate::campaign::apply_scheduled_events(world, id);
    proof {
        assert(world.sources@.len() == w2.sources@.len());
        assert(world.cells == w2.cells);
        assert(world.power_sources == w0.power_sources);
        lemma_controlled_len(w0.devices.devices@, trench_water(w0), id, kind);
        assert(world.devices.devices@.len() == w0.devices.devices@.len());
        assert(world.devices.wf());
        lemma_turbine_generation_bound(world.devices.devices@);
        assert(world.room_for(1));
    }
    let ghost w3 = *world;
    world.tick();
    proof {
        assert(scenario_world_step(w0, w1, w2, w3, *world, id, kind));
    }
    proof {
        assert forall|i: int| 0 <= i < world.cells@.len() implies cell_products(#[trigger] world.cells@[i])
            <= SCENARIO_PRODUCT_LIMIT by {
            assert(cell_products(world.cells@[i]) <= cell_products(w3.cells@[i]) + PRODUCT_GROWTH_PER_TICK);
        }
        lemma_zone_rock_bound(*world, 20, 12, 5, 30);
        let rows: u16 = (16 - 12 + 1) as u16;
        assert(rows == 5);
        assert((25 - 20 + 1) * (16 - 12 + 1) == 30);
        assert(shelf_rock(*world) == zone_total(*world, 20, 12, rows, 30, ZoneMetric::Rock));
    }
    mission.on_tick(world);
    true
}

/// Devices that hold nothing add nothing to the stored material.
proof fn lemma_devices_stored_append_empty(a: Seq<DeviceState>, b: Seq<DeviceState>)
    requires
        forall|i: int| 0 <= i < b.len() ==> (#[trigger] b[i]).stored_vu == 0,
    ensures
        devices_stored(a + b) == devices_stored(a),
    decreases b.len(),
{
    if b.len() == 0 {
        assert(a + b =~= a);
    } else {
        lemma_devices_stored_append_empty(a, b.drop_last());
        assert((a + b).drop_last() =~= a + b.drop_last());
        assert((a + b).last() == b[b.len() - 1]);
    }
}

/// The total cost of the queued plans, when it fits a `u32`.
pub(crate) fn queued_cost(plans: &Vec<crate::devices::QueuedPlan>) -> (total: Option<u32>)
    ensures
        match total {
            Some(t) => t == crate::devices::placement::plans_cost(plans@),
            None => crate::devices::placement::plans_cost(plans@) > u32::MAX,
        },
{
    let mut total: u64 = 0;
    let mut i: usize = 0;
    while i < plans.len()
        invariant
            i <= plans@.len(),
            total == crate::devices::placement::plans_cost(plans@.take(i as int)),
            total <= u32::MAX,
        decreases plans@.len() - i,
    {
        proof {
            assert(plans@.take(i as int + 1).drop_last() =~= plans@.take(i as int));
        }
        total = total + plans[i].cost as u64;
        if total > u32::MAX as u64 {
            proof {
                lemma_plans_cost_grows(plans@, i as int + 1);
            }
            return None;
        }
        i = i + 1;
    }
    proof {
        assert(plans@.take(i as int) =~= plans@);
    }
    Some(total as u32)
}

/// The cost of a list of plans is at least that of any prefix.
proof fn lemma_plans_cost_grows(plans: Seq<crate::devices::QueuedPlan>, k: int)
    requires
        0 <= k <= plans.len(),
    ensures
        crate::devices::placement::plans_cost(plans.take(k)) <= crate::devices::placement::plans_cost(plans),
    decreases plans.len(),
{
    if k < plans.len() {
        lemma_plans_cost_grows(plans.drop_last(), k);
        assert(plans.drop_last().take(k) =~= plans.take(k));
    } else {
        assert(plans.take(k) =~= plans);
    }
}

/// Whether the counters can take every queued plan of `d` at once from `f`.
pub open spec fn commit_room(d: DeviceSystem, f: FabricationState) -> bool {
    let cost = crate::devices::placement::plans_cost(d.queued@);
    &&& cost <= u32::MAX
    &&& d.queued@.len() <= ENTITY_LIMIT
    &&& d.next_entity_id + d.queued@.len() <= u32::MAX
    &&& f.spent_fu + cost <= u32::MAX
    &&& d.devices@.len() <= ENTITY_LIMIT - d.queued@.len()
}

/// `(w1, m1)` is `(w0, m0)` after admitting and building `device` at `anchor`:
/// the mission is asked to queue it; when it admits and the counters allow, the
/// plan is queued (see `plan_queued`); when that succeeds the mission is asked to
/// commit, and when it admits and the counters allow, every queued plan is
/// committed (see `plans_committed`). `committed` says whether the commit
/// succeeded; only devices and stock change.
#[verifier::opaque]
pub open spec fn build_done(
    w0: SimulationWorld,
    m0: MissionView,
    w1: SimulationWorld,
    m1: MissionView,
    device: DeviceId,
    anchor: CellPos,
    rotation: u8,
    committed: bool,
) -> bool {
    let mq = admit_spec(m0, CommandKind::QueueDevice(device));
    &&& w1 == (SimulationWorld { devices: w1.devices, fabrication: w1.fabrication, ..w0 })
    &&& if admission_spec(m0, CommandKind::QueueDevice(device)) != Admission::Accepted {
        !committed && w1 == w0 && m1 == m0
    } else if w0.devices.next_plan_id == u32::MAX || w0.fabrication.reserved_fu + device.cost_spec() > u32::MAX {
        !committed && w1 == w0 && m1 == mq
    } else {
        exists|dq: DeviceSystem, fq: FabricationState, queued: Result<u32, crate::devices::DeviceError>|
            {
                &&& #[trigger] crate::devices::placement::plan_queued(w0, w0.devices, dq, w0.fabrication, fq, device, anchor, rotation, queued)
                &&& if queued is Ok {
                    &&& m1 == admit_spec(mq, CommandKind::CommitPlan)
                    &&& if admission_spec(mq, CommandKind::CommitPlan) == Admission::Accepted && commit_room(dq, fq) {
                        exists|result: Result<Vec<u32>, crate::devices::DeviceError>|
                            #[trigger] crate::devices::placement::plans_committed(w0, dq, w1.devices, fq, w1.fabrication, result)
                                && committed == result is Ok
                    } else {
                        !committed && w1.devices == dq && w1.fabrication == fq
                    }
                } else {
                    !committed && m1 == mq && w1.devices == dq && w1.fabrication == fq
                }
            }
    }
}

/// Admit and build one device: the mission must admit queueing it, the plan is
/// queued against the fabrication stock, and when the mission admits the commit
/// every queued plan is committed. True when the commit succeeded. Only devices,
/// plans and the fabrication stock change, and both balances hold.
fn admit_build(world: &mut SimulationWorld, mission: &mut MissionState, device: DeviceId, anchor: CellPos, rotation: u8) -> (committed: bool)
    requires
        old(world).wf(),
        old(mission)@.command_count + 2 <= u32::MAX,
    ensures
        final(world).wf(),
        *final(world) == (SimulationWorld { devices: final(world).devices, fabrication: final(world).fabrication, ..*old(world) }),
        final(world).balance() == old(world).balance(),
        final(world).fabrication.balance() == old(world).fabrication.balance(),
        final(mission)@.command_count <= old(mission)@.command_count + 2,
        final(mission)@.id == old(mission)@.id,
        final(mission)@.phase == old(mission)@.phase,
        final(mission)@.tick == old(mission)@.tick,
        build_done(*old(world), old(mission)@, *final(world), final(mission)@, device, anchor, rotation, committed),
{
    reveal(build_done);
    let ghost m0 = mission@;
    if mission.admit_command(CommandKind::QueueDevice(device)) != Admission::Accepted {
        return false;
    }
    let mut devices = DeviceSystem::default();
    std::mem::swap(&mut devices, &mut world.devices);
    let mut fabrication = FabricationState::default();
    std::mem::swap(&mut fabrication, &mut world.fabrication);
    let ghost w0 = *world;
    if devices.next_plan_id == u32::MAX || fabrication.reserved_fu > u32::MAX - device.cost() {
        std::mem::swap(&mut devices, &mut world.devices);
        std::mem::swap(&mut fabrication, &mut world.fabrication);
        return false;
    }
    let ghost d0 = devices;
    let ghost f0 = fabrication;
    proof {
        crate::devices::placement::lemma_first_cell_error_frame(*world, *old(world), d0.devices@, d0.queued@, device, anchor, 0);
    }
    let queued_result = devices.queue(world, device, anchor, rotation, &mut fabrication);
    let queued = queued_result.is_ok();
    let ghost d1 = devices;
    let ghost fq = fabrication;
    let ghost mq = mission@;
    let mut committed = false;
    if queued && mission.admit_command(CommandKind::CommitPlan) == Admission::Accepted {
        if let Some(cost) = queued_cost(&devices.queued) {
            if devices.queued.len() <= ENTITY_LIMIT && devices.next_entity_id as u64 + devices.queued.len() as u64
                <= u32::MAX as u64 && fabrication.spent_fu <= u32::MAX - cost && devices.devices.len()
                <= ENTITY_LIMIT - devices.queued.len() {
                proof {
                    crate::devices::placement::lemma_commit_error_frame(*world, *old(world), d1.devices@, d1.queued@, 0);
                }
                let result = devices.commit_plan(world, &mut fabrication);
                committed = result.is_ok();
                proof {
                    assert(crate::devices::placement::plans_committed(*old(world), d1, devices, fq, fabrication, result));
                }
            }
        }
    }
    proof {
        assert(crate::devices::placement::plan_queued(*old(world), d0, d1, f0, fq, device, anchor, rotation, queued_result));
    }
    proof {
        if devices.devices@ != d1.devices@ {
            let first = d1.next_entity_id as int;
            let added = crate::devices::placement::committed_devices(d1.queued@, first);
            assert(devices.devices@ == d1.devices@ + added);
            lemma_devices_stored_append_empty(d1.devices@, added);
        }
    }
    std::mem::swap(&mut devices, &mut world.devices);
    std::mem::swap(&mut fabrication, &mut world.fabrication);
    committed
}

/// Recovering any deposit leaves both stock counters within `u32`.
pub open spec fn yields_fit(world: SimulationWorld) -> bool {
    forall|j: int|
        0 <= j < world.deposits@.len() ==> {
            &&& world.fabrication.recovered_fu + (#[trigger] world.deposits@[j]).yield_fu <= u32::MAX
            &&& world.fabrication.available_fu + world.deposits@[j].yield_fu <= u32::MAX
        }
}

/// Whether recovering any deposit keeps the stock counters within `u32`.
pub(crate) fn deposit_yields_fit(world: &SimulationWorld) -> (fit: bool)
    ensures
        fit == yields_fit(*world),
{
    let mut j: usize = 0;
    while j < world.deposits.len()
        invariant
            j <= world.deposits@.len(),
            forall|k: int|
                0 <= k < j ==> {
                    &&& world.fabrication.recovered_fu + (#[trigger] world.deposits@[k]).yield_fu <= u32::MAX
                    &&& world.fabrication.available_fu + world.deposits@[k].yield_fu <= u32::MAX
                },
        decreases world.deposits@.len() - j,
    {
        let y = world.deposits[j].yield_fu;
        if world.fabrication.recovered_fu > u32::MAX - y || world.fabrication.available_fu > u32::MAX - y {
            return false;
        }
        j = j + 1;
    }
    true
}

/// `ws` walks through recovering the deposits of `ws[0]` by their identifiers,
/// in order, each while every deposit's yield still fits the stock (see
/// `deposit_recovered`).
pub open spec fn recovery_steps(ws: Seq<SimulationWorld>) -> bool {
    &&& 1 <= ws.len() <= ws[0].deposits@.len() + 1
    &&& forall|i: int|
        0 <= i < ws.len() - 1 ==> yields_fit(#[trigger] ws[i]) && exists|r: Result<u32, crate::economy::FabricationError>|
            #[trigger] crate::simulation::world::deposit_recovered(ws[i], ws[i + 1], ws[0].deposits@[i].id@, r)
}

/// The operator's opening recovery: recover every authored deposit by its
/// identifier, in order. Only deposits, the stock and events change, and both
/// balances hold.
#[verifier::spinoff_prover]
#[verifier::rlimit(50)]
fn recover_authored_stock(world: &mut SimulationWorld)
    requires
        old(world).wf(),
    ensures
        final(world).wf(),
        *final(world) == (SimulationWorld {
            deposits: final(world).deposits,
            fabrication: final(world).fabrication,
            events: final(world).events,
            ..*old(world)
        }),
        final(world).balance() == old(world).balance(),
        final(world).fabrication.balance() == old(world).fabrication.balance(),
        stock_recovered(*old(world), *final(world)),
{
    let mut k: usize = 0;
    let ghost mut ws: Seq<SimulationWorld> = seq![*world];
    while k < world.deposits.len()
        invariant
            recovery_steps(ws),
            ws[0] == *old(world),
            ws.last() == *world,
            ws.len() == k + 1,
            k <= world.deposits@.len(),
            world.deposits@.len() == old(world).deposits@.len(),
            forall|j: int| 0 <= j < world.deposits@.len() ==> (#[trigger] world.deposits@[j]).id@ == old(world).deposits@[j].id@,
            world.wf(),
            *world == (SimulationWorld {
                deposits: world.deposits,
                fabrication: world.fabrication,
                events: world.events,
                ..*old(world)
            }),
            world.balance() == old(world).balance(),
            world.fabrication.balance() == old(world).fabrication.balance(),
        ensures
            recovery_steps(ws),
            ws[0] == *old(world),
            ws.last() == *world,
            ws.len() - 1 == old(world).deposits@.len() || !yields_fit(*world),
        decreases world.deposits@.len() - k,
    {
        if !deposit_yields_fit(world) {
            break;
        }
        let id = world.deposits[k].id.clone();
        let ghost before = *world;
        let result = world.recover_deposit(id.as_str());
        proof {
            assert(world.deposits@.len() == before.deposits@.len());
            assert forall|j: int| 0 <= j < world.deposits@.len() implies (#[trigger] world.deposits@[j]).id@ == old(world).deposits@[j].id@ by {
                assert(before.deposits@[j].id@ == old(world).deposits@[j].id@);
            }
            let ws2 = ws.push(*world);
            assert(crate::simulation::world::deposit_recovered(ws2[k as int], ws2[k as int + 1], ws2[0].deposits@[k as int].id@, result));
            assert forall|i: int| 0 <= i < ws2.len() - 1 implies yields_fit(#[trigger] ws2[i]) && exists|r: Result<u32, crate::economy::FabricationError>|
                #[trigger] crate::simulation::world::deposit_recovered(ws2[i], ws2[i + 1], ws2[0].deposits@[i].id@, r) by {
                if i < k {
                    assert(ws2[i] == ws[i] && ws2[i + 1] == ws[i + 1]);
                }
            }
            ws = ws2;
        }
        k = k + 1;
    }
}

/// `(w1, m1)` is `(w0, m0)` after a build raise at `pos`: the mission is told of
/// a terrain selection, and the cell is raised (see `terrain_edited`) unless it
/// is off the grid or within 250 hU of the top of the height range.
pub open spec fn raise_done(w0: SimulationWorld, m0: MissionView, w1: SimulationWorld, m1: MissionView, pos: CellPos) -> bool {
    &&& m1 == admit_spec(m0, CommandKind::SelectTerrain)
    &&& if w0.index_of(pos) matches Some(i) && w0.cells@[i as int].height_hu <= i16::MAX - 250 {
        exists|r: Result<(), crate::simulation::TerrainError>| #[trigger] crate::simulation::world::terrain_edited(w0, w1, pos, TerrainAction::Raise, r)
    } else {
        w1 == w0
    }
}

/// The first mission's barrier cells, raised in this order.
pub open spec fn l01_barriers() -> Seq<CellPos> {
    seq![CellPos { x: 8, y: 10 }, CellPos { x: 14, y: 10 }, CellPos { x: 20, y: 10 }]
}

/// `(w1, m1)` is `(w0, m0)` after the first mission's reference build: the three
/// barrier cells raised in turn (see `raise_done`).
pub open spec fn l01_installed(w0: SimulationWorld, m0: MissionView, w1: SimulationWorld, m1: MissionView) -> bool {
    exists|wa: SimulationWorld, ma: MissionView, wb: SimulationWorld, mb: MissionView|
        {
            &&& #[trigger] raise_done(w0, m0, wa, ma, l01_barriers()[0])
            &&& #[trigger] raise_done(wa, ma, wb, mb, l01_barriers()[1])
            &&& raise_done(wb, mb, w1, m1, l01_barriers()[2])
        }
}

/// `(w1, m1)` is `(w0, m0)` after the second mission's reference build (see
/// `l02_build_steps`), with the reservoir then disabled.
pub open spec fn l02_installed(w0: SimulationWorld, m0: MissionView, w1: SimulationWorld, m1: MissionView) -> bool {
    exists|ws: Seq<SimulationWorld>, ms: Seq<MissionView>|
        {
            &&& #[trigger] l02_build_steps(ws, ms)
            &&& ws[0] == w0
            &&& ms[0] == m0
            &&& reserve_disabled(ws[5], w1)
            &&& m1 == ms[5]
        }
}

/// `(w1, m1)` is `(w0, m0)` after the third mission's reference build (see
/// `l03_build_steps`).
pub open spec fn l03_installed(w0: SimulationWorld, m0: MissionView, w1: SimulationWorld, m1: MissionView) -> bool {
    exists|ws: Seq<SimulationWorld>, ms: Seq<MissionView>|
        {
            &&& #[trigger] l03_build_steps(ws, ms)
            &&& ws[0] == w0
            &&& ms[0] == m0
            &&& ws[6] == w1
            &&& ms[6] == m1
        }
}

/// `w1` is `w0` after recovering its deposits in order (see `recovery_steps`),
/// all of them unless some yield stopped fitting the stock.
pub open spec fn stock_recovered(w0: SimulationWorld, w1: SimulationWorld) -> bool {
    exists|ws: Seq<SimulationWorld>|
        {
            &&& #[trigger] recovery_steps(ws)
            &&& ws[0] == w0
            &&& ws.last() == w1
            &&& ws.len() - 1 == w0.deposits@.len() || !yields_fit(w1)
        }
}

/// `w1` is `w0` with the cistern drained cell by cell and 500 vU of water then
/// poured at (11, 5).
pub open spec fn cistern_drained(w0: SimulationWorld, w1: SimulationWorld) -> bool {
    exists|mid: SimulationWorld|
        #[trigger] drained_cells(w0, mid, cistern_cells()) && injected_into(mid, w1, CellPos { x: 11, y: 5 }, FluidId::Water, 500)
}

/// `w1` is `w0` with a failure run's opening spill poured on mission `id`'s
/// hazard: 12000 vU on the second mission's camp, 4000 vU otherwise.
pub open spec fn spill_poured(w0: SimulationWorld, w1: SimulationWorld, id: MissionId) -> bool {
    injected_into(
        w0,
        w1,
        hazard_spill(id).0,
        hazard_spill(id).1,
        if id == MissionId::L02HoldingLine { 12_000u32 } else { 4_000u32 },
    )
}

/// `(w1, m1)` is `(w0, m0)` after preparing a replay of kind `kind` for mission
/// `id`: reference and alternate runs recover the stock, skip the first
/// mission's tutorial, install the reference build and start the sources; a
/// failure run pours its opening spill; the insufficient-water run of the third
/// mission drains the cistern. Nothing else changes.
pub open spec fn scenario_seeded(w0: SimulationWorld, m0: MissionView, w1: SimulationWorld, m1: MissionView, id: MissionId, kind: ScenarioKind) -> bool {
    match kind {
        ScenarioKind::Failure => spill_poured(w0, w1, id) && m1 == m0,
        ScenarioKind::InsufficientWaterRecovery => m1 == m0 && if id == MissionId::L03Firebreak {
            cistern_drained(w0, w1)
        } else {
            w1 == w0
        },
        _ => exists|wa: SimulationWorld, wb: SimulationWorld|
            {
                let ma = if id == MissionId::L01FirstFlow { crate::game::flow::skipped_mission(m0) } else { m0 };
                &&& #[trigger] stock_recovered(w0, wa)
                &&& match id {
                    MissionId::L01FirstFlow => l01_installed(wa, ma, wb, m1),
                    MissionId::L02HoldingLine => l02_installed(wa, ma, wb, m1),
                    MissionId::L03Firebreak => l03_installed(wa, ma, wb, m1),
                }
                &&& #[trigger] crate::game::sources_set(wb, w1, true)
            },
    }
}

/// Raise one cell of terrain for the build, when the mission admits the selection.
fn admit_raise(world: &mut SimulationWorld, mission: &mut MissionState, pos: CellPos)
    requires
        old(world).wf(),
        old(mission)@.command_count + 1 <= u32::MAX,
    ensures
        final(world).wf(),
        *final(world) == (SimulationWorld { cells: final(world).cells, ..*old(world) }),
        final(world).balance() == old(world).balance(),
        final(mission)@.command_count <= old(mission)@.command_count + 1,
        final(mission)@.id == old(mission)@.id,
        final(mission)@.phase == old(mission)@.phase,
        final(mission)@.tick == old(mission)@.tick,
        raise_done(*old(world), old(mission)@, *final(world), final(mission)@, pos),
{
    let _ = mission.admit_command(CommandKind::SelectTerrain);
    match world.index(pos) {
        Some(i) => {
            proof {
                crate::state::lemma_grid_index_bound(world.width, world.height, pos);
            }
            if world.cells[i].height_hu <= i16::MAX - 250 {
                let _ = world.terrain_edit(pos, TerrainAction::Raise);
            }
        },
        None => {},
    }
}

/// The first mission's reference build: the three runoff barriers.
fn install_l01_build(world: &mut SimulationWorld, mission: &mut MissionState)
    requires
        old(world).wf(),
        old(mission)@.command_count <= 1_000,
    ensures
        final(world).wf(),
        *final(world) == (SimulationWorld { cells: final(world).cells, ..*old(world) }),
        final(world).balance() == old(world).balance(),
        final(mission)@.command_count <= old(mission)@.command_count + 3,
        final(mission)@.id == old(mission)@.id,
        final(mission)@.phase == old(mission)@.phase,
        final(mission)@.tick == old(mission)@.tick,
        l01_installed(*old(world), old(mission)@, *final(world), final(mission)@),
{
    let ghost w0 = *world;
    let ghost m0 = mission@;
    admit_raise(world, mission, CellPos { x: 8, y: 10 });
    let ghost w1 = *world;
    let ghost m1 = mission@;
    admit_raise(world, mission, CellPos { x: 14, y: 10 });
    let ghost w2 = *world;
    let ghost m2 = mission@;
    admit_raise(world, mission, CellPos { x: 20, y: 10 });
    proof {
        assert(raise_done(w0, m0, w1, m1, l01_barriers()[0]));
        assert(raise_done(w1, m1, w2, m2, l01_barriers()[1]));
        assert(raise_done(w2, m2, *world, mission@, l01_barriers()[2]));
    }
}

/// `ws` and `ms` walk through building `device` at each of `cells` in turn (see
/// `build_done`).
pub open spec fn build_steps(ws: Seq<SimulationWorld>, ms: Seq<MissionView>, device: DeviceId, cells: Seq<CellPos>) -> bool {
    &&& ws.len() == cells.len() + 1
    &&& ms.len() == cells.len() + 1
    &&& forall|i: int| 0 <= i < cells.len() ==> built_one(#[trigger] ws[i], ms[i], ws[i + 1], ms[i + 1], device, cells[i])
}

/// `(w1, m1)` is `(w0, m0)` after building `device` at `cell` (see `build_done`),
/// whether or not the commit succeeded.
pub open spec fn built_one(w0: SimulationWorld, m0: MissionView, w1: SimulationWorld, m1: MissionView, device: DeviceId, cell: CellPos) -> bool {
    exists|c: bool| #[trigger] build_done(w0, m0, w1, m1, device, cell, 0, c)
}

/// `(w1, m1)` is `(w0, m0)` after building `device` at each of `cells` in turn.
pub open spec fn built_all(w0: SimulationWorld, m0: MissionView, w1: SimulationWorld, m1: MissionView, device: DeviceId, cells: Seq<CellPos>) -> bool {
    exists|ws: Seq<SimulationWorld>, ms: Seq<MissionView>|
        #[trigger] build_steps(ws, ms, device, cells) && ws[0] == w0 && ms[0] == m0 && ws.last() == w1 && ms.last() == m1
}

/// One more build extends a run of builds.
proof fn lemma_built_step(
    w0: SimulationWorld,
    m0: MissionView,
    wm: SimulationWorld,
    mm: MissionView,
    w1: SimulationWorld,
    m1: MissionView,
    device: DeviceId,
    cells: Seq<CellPos>,
    c: bool,
)
    requires
        cells.len() > 0,
        built_all(w0, m0, wm, mm, device, cells.drop_last()),
        build_done(wm, mm, w1, m1, device, cells.last(), 0, c),
    ensures
        built_all(w0, m0, w1, m1, device, cells),
{
    let (ws, ms) = choose|ws: Seq<SimulationWorld>, ms: Seq<MissionView>|
        #[trigger] build_steps(ws, ms, device, cells.drop_last()) && ws[0] == w0 && ms[0] == m0 && ws.last() == wm && ms.last() == mm;
    let ws2 = ws.push(w1);
    let ms2 = ms.push(m1);
    assert forall|i: int| 0 <= i < cells.len() implies built_one(#[trigger] ws2[i], ms2[i], ws2[i + 1], ms2[i + 1], device, cells[i]) by {
        if i < cells.len() - 1 {
            assert(ws2[i] == ws[i] && ws2[i + 1] == ws[i + 1] && ms2[i] == ms[i] && ms2[i + 1] == ms[i + 1]);
            assert(cells[i] == cells.drop_last()[i]);
        } else {
            assert(build_done(ws2[i], ms2[i], ws2[i + 1], ms2[i + 1], device, cells[i], 0, c));
        }
    }
    assert(build_steps(ws2, ms2, device, cells));
}

/// The cells of a list of coordinates.
pub open spec fn cells_of(positions: Seq<(u16, u16)>) -> Seq<CellPos> {
    positions.map_values(|p: (u16, u16)| CellPos { x: p.0, y: p.1 })
}

/// Build a device at each position in turn.
fn admit_many(world: &mut SimulationWorld, mission: &mut MissionState, device: DeviceId, positions: &[(u16, u16)])
    requires
        old(world).wf(),
        old(mission)@.command_count + 2 * positions@.len() <= 2_000,
    ensures
        final(world).wf(),
        *final(world) == (SimulationWorld { devices: final(world).devices, fabrication: final(world).fabrication, ..*old(world) }),
        final(world).balance() == old(world).balance(),
        final(world).fabrication.balance() == old(world).fabrication.balance(),
        final(mission)@.command_count <= old(mission)@.command_count + 2 * positions@.len(),
        final(mission)@.id == old(mission)@.id,
        final(mission)@.phase == old(mission)@.phase,
        final(mission)@.tick == old(mission)@.tick,
        built_all(*old(world), old(mission)@, *final(world), final(mission)@, device, cells_of(positions@)),
{
    let mut k: usize = 0;
    proof {
        assert(build_steps(seq![*world], seq![mission@], device, seq![]));
        assert(cells_of(positions@).take(0) =~= seq![]);
    }
    while k < positions.len()
        invariant
            k <= positions@.len(),
            world.wf(),
            *world == (SimulationWorld { devices: world.devices, fabrication: world.fabrication, ..*old(world) }),
            world.balance() == old(world).balance(),
            world.fabrication.balance() == old(world).fabrication.balance(),
            mission@.command_count <= old(mission)@.command_count + 2 * k,
            old(mission)@.command_count + 2 * positions@.len() <= 2_000,
            mission@.id == old(mission)@.id,
            mission@.phase == old(mission)@.phase,
            mission@.tick == old(mission)@.tick,
            built_all(*old(world), old(mission)@, *world, mission@, device, cells_of(positions@).take(k as int)),
        decreases positions@.len() - k,
    {
        let (x, y) = positions[k];
        let ghost wm = *world;
        let ghost mm = mission@;
        let c = admit_build(world, mission, device, CellPos { x, y }, 0);
        proof {
            let next = cells_of(positions@).take(k as int + 1);
            assert(next.drop_last() =~= cells_of(positions@).take(k as int));
            assert(next.last() == CellPos { x, y });
            lemma_built_step(*old(world), old(mission)@, wm, mm, *world, mission@, device, next, c);
        }
        k = k + 1;
    }
    proof {
        assert(cells_of(positions@).take(k as int) =~= cells_of(positions@));
    }
}

/// The second mission's pipe run.
pub open spec fn l02_pipes() -> Seq<(u16, u16)> {
    seq![(9, 16), (11, 16), (13, 16), (15, 16), (19, 12), (20, 12), (20, 11), (20, 10), (23, 8), (25, 8), (27, 8), (29, 8)]
}

/// The third mission's service pipe runs.
pub open spec fn l03_pipes() -> Seq<(u16, u16)> {
    seq![
        (15, 5), (17, 5), (19, 5), (20, 6), (20, 8), (20, 10), (20, 12), (20, 14), (22, 14), (23, 14), (24, 14),
        (25, 14), (26, 14), (27, 14), (27, 10), (27, 11), (27, 12), (27, 13), (28, 9), (29, 9), (30, 9), (31, 9),
        (32, 9), (33, 9), (34, 9), (35, 9), (36, 9), (37, 9), (37, 5), (37, 6), (37, 7), (37, 8),
    ]
}

/// The worlds and missions through the second mission's build: the pump, the
/// turbine, the pipe run, the reservoir and the spillway, each built in turn
/// (see `built_one` and `built_all`).
pub open spec fn l02_build_steps(ws: Seq<SimulationWorld>, ms: Seq<MissionView>) -> bool {
    &&& ws.len() == 6
    &&& ms.len() == 6
    &&& built_one(ws[0], ms[0], ws[1], ms[1], DeviceId::Pump, CellPos { x: 5, y: 16 })
    &&& built_one(ws[1], ms[1], ws[2], ms[2], DeviceId::FlowTurbine, CellPos { x: 27, y: 9 })
    &&& built_all(ws[2], ms[2], ws[3], ms[3], DeviceId::Pipe, cells_of(l02_pipes()))
    &&& built_one(ws[3], ms[3], ws[4], ms[4], DeviceId::Reservoir, CellPos { x: 20, y: 8 })
    &&& built_one(ws[4], ms[4], ws[5], ms[5], DeviceId::Spillway, CellPos { x: 39, y: 18 })
}

/// The worlds and missions through the third mission's build: the bootstrap
/// pump, the service pipes, the headworks floodgate and its quarter setting, the
/// turbine and the rune relay, each in turn.
pub open spec fn l03_build_steps(ws: Seq<SimulationWorld>, ms: Seq<MissionView>) -> bool {
    &&& ws.len() == 7
    &&& ms.len() == 7
    &&& built_one(ws[0], ms[0], ws[1], ms[1], DeviceId::Pump, CellPos { x: 11, y: 5 })
    &&& built_all(ws[1], ms[1], ws[2], ms[2], DeviceId::Pipe, cells_of(l03_pipes()))
    &&& built_one(ws[2], ms[2], ws[3], ms[3], DeviceId::Floodgate, CellPos { x: 21, y: 14 })
    &&& headworks_set(ws[3], ms[3], ws[4], ms[4])
    &&& built_one(ws[4], ms[4], ws[5], ms[5], DeviceId::FlowTurbine, CellPos { x: 27, y: 9 })
    &&& built_one(ws[5], ms[5], ws[6], ms[6], DeviceId::RuneRelay, CellPos { x: 38, y: 5 })
}

/// `w1` is `w0` with its first reservoir, if any, disabled (see `enabled_set`).
pub open spec fn reserve_disabled(w0: SimulationWorld, w1: SimulationWorld) -> bool {
    if has_kind(w0.devices.devices@, DeviceId::Reservoir) {
        let r = choose|r: int| #[trigger] first_of(w0.devices.devices@, DeviceId::Reservoir, r);
        exists|found: bool|
            #[trigger] crate::devices::enabled_set(w0.devices, w1.devices, w0.devices.devices@[r].entity_id, false, found)
                && w1 == (SimulationWorld { devices: w1.devices, ..w0 })
    } else {
        w1 == w0
    }
}

/// `(w1, m1)` is `(w0, m0)` after a request for the floodgate at (21, 14) to
/// open a quarter; when the mission accepts it, the floodgates there take that
/// setting.
pub open spec fn headworks_set(w0: SimulationWorld, m0: MissionView, w1: SimulationWorld, m1: MissionView) -> bool {
    &&& m1 == admit_spec(m0, CommandKind::SetGate(2_500))
    &&& if admission_spec(m0, CommandKind::SetGate(2_500)) == Admission::Accepted {
        exists|found: bool|
            #[trigger] crate::devices::gate_devices_set(w0.devices, w1.devices, CellPos { x: 21, y: 14 }, 2_500, found)
                && w1 == (SimulationWorld { devices: w1.devices, ..w0 })
    } else {
        w1 == w0
    }
}

/// The second mission's reference build: a pump at the source, a turbine, the
/// pipe runs, the reserve reservoir (left disabled until the turbine runs) and
/// the spillway at the outlet.
#[verifier::spinoff_prover]
#[verifier::rlimit(50)]
fn install_l02_build(world: &mut SimulationWorld, mission: &mut MissionState)
    requires
        old(world).wf(),
        old(mission)@.command_count <= 1_000,
    ensures
        final(world).wf(),
        *final(world) == (SimulationWorld { devices: final(world).devices, fabrication: final(world).fabrication, ..*old(world) }),
        final(world).balance() == old(world).balance(),
        final(world).fabrication.balance() == old(world).fabrication.balance(),
        final(mission)@.command_count <= old(mission)@.command_count + 40,
        final(mission)@.id == old(mission)@.id,
        final(mission)@.phase == old(mission)@.phase,
        final(mission)@.tick == old(mission)@.tick,
        l02_installed(*old(world), old(mission)@, *final(world), final(mission)@),
{
    let ghost w0 = *world;
    let ghost m0 = mission@;
    let c1 = admit_build(world, mission, DeviceId::Pump, CellPos { x: 5, y: 16 }, 0);
    let ghost w1 = *world;
    let ghost m1 = mission@;
    let c2 = admit_build(world, mission, DeviceId::FlowTurbine, CellPos { x: 27, y: 9 }, 0);
    let ghost w2 = *world;
    let ghost m2 = mission@;
    let pipes: [(u16, u16); 12] = [
        (9, 16),
        (11, 16),
        (13, 16),
        (15, 16),
        (19, 12),
        (20, 12),
        (20, 11),
        (20, 10),
        (23, 8),
        (25, 8),
        (27, 8),
        (29, 8),
    ];
    proof {
        assert(pipes@ =~= l02_pipes());
    }
    admit_many(world, mission, DeviceId::Pipe, &pipes);
    let ghost w3 = *world;
    let ghost m3 = mission@;
    let c4 = admit_build(world, mission, DeviceId::Reservoir, CellPos { x: 20, y: 8 }, 0);
    let ghost w4 = *world;
    let ghost m4 = mission@;
    let c5 = admit_build(world, mission, DeviceId::Spillway, CellPos { x: 39, y: 18 }, 0);
    let ghost w5 = *world;
    let ghost m5 = mission@;
    proof {
        assert(built_one(w0, m0, w1, m1, DeviceId::Pump, CellPos { x: 5, y: 16 })) by {
            assert(build_done(w0, m0, w1, m1, DeviceId::Pump, CellPos { x: 5, y: 16 }, 0, c1));
        }
        assert(built_one(w1, m1, w2, m2, DeviceId::FlowTurbine, CellPos { x: 27, y: 9 })) by {
            assert(build_done(w1, m1, w2, m2, DeviceId::FlowTurbine, CellPos { x: 27, y: 9 }, 0, c2));
        }
        assert(built_one(w3, m3, w4, m4, DeviceId::Reservoir, CellPos { x: 20, y: 8 })) by {
            assert(build_done(w3, m3, w4, m4, DeviceId::Reservoir, CellPos { x: 20, y: 8 }, 0, c4));
        }
        assert(built_one(w4, m4, w5, m5, DeviceId::Spillway, CellPos { x: 39, y: 18 })) by {
            assert(build_done(w4, m4, w5, m5, DeviceId::Spillway, CellPos { x: 39, y: 18 }, 0, c5));
        }
    }
    if let Some(r) = first_index(&world.devices.devices, DeviceId::Reservoir) {
        let entity_id = world.devices.devices[r].entity_id;
        let ghost before = *world;
        let found = world.devices.set_enabled(entity_id, false);
        proof {
            let c = choose|c: int| #[trigger] first_of(before.devices.devices@, DeviceId::Reservoir, c);
            lemma_first_of_unique(before.devices.devices@, DeviceId::Reservoir, c, r as int);
            assert(crate::devices::enabled_set(before.devices, world.devices, entity_id, false, found));
            if world.devices.devices@ != before.devices.devices@ {
                let i = choose|i: int| {
                    &&& 0 <= i < before.devices.devices@.len()
                    &&& before.devices.devices@[i].entity_id == entity_id
                    &&& forall|j: int| 0 <= j < i ==> (#[trigger] before.devices.devices@[j]).entity_id != entity_id
                    &&& world.devices.devices@ == before.devices.devices@.update(
                        i,
                        DeviceState { enabled: false, powered: false, active: false, ..before.devices.devices@[i] },
                    )
                };
                crate::simulation::lemma_devices_stored_update(before.devices.devices@, i, world.devices.devices@[i]);
            }
            assert(world.devices.wf());
            assert(reserve_disabled(w5, *world));
        }
    }
    proof {
        let ws = seq![w0, w1, w2, w3, w4, w5];
        let ms = seq![m0, m1, m2, m3, m4, m5];
        assert(ws.len() == 6);
        assert(reserve_disabled(ws[5], *world));
        assert(built_all(ws[2], ms[2], ws[3], ms[3], DeviceId::Pipe, cells_of(l02_pipes())));
        assert(l02_build_steps(ws, ms));
    }
}

/// The third mission's reference build: the bootstrap pump at the cistern, the
/// service pipe runs, the headworks floodgate set to a quarter, the turbine and
/// the rune relay.
#[verifier::spinoff_prover]
#[verifier::rlimit(80)]
fn install_l03_build(world: &mut SimulationWorld, mission: &mut MissionState)
    requires
        old(world).wf(),
        old(mission)@.command_count <= 1_000,
    ensures
        final(world).wf(),
        *final(world) == (SimulationWorld { devices: final(world).devices, fabrication: final(world).fabrication, ..*old(world) }),
        final(world).balance() == old(world).balance(),
        final(world).fabrication.balance() == old(world).fabrication.balance(),
        final(mission)@.command_count <= old(mission)@.command_count + 80,
        final(mission)@.id == old(mission)@.id,
        final(mission)@.phase == old(mission)@.phase,
        final(mission)@.tick == old(mission)@.tick,
        l03_installed(*old(world), old(mission)@, *final(world), final(mission)@),
{
    let ghost w0 = *world;
    let ghost m0 = mission@;
    let c1 = admit_build(world, mission, DeviceId::Pump, CellPos { x: 11, y: 5 }, 0);
    let ghost w1 = *world;
    let ghost m1 = mission@;
    proof {
        assert(build_done(w0, m0, w1, m1, DeviceId::Pump, CellPos { x: 11, y: 5 }, 0, c1));
    }
    let pipes: [(u16, u16); 32] = [
        (15, 5),
        (17, 5),
        (19, 5),
        (20, 6),
        (20, 8),
        (20, 10),
        (20, 12),
        (20, 14),
        (22, 14),
        (23, 14),
        (24, 14),
        (25, 14),
        (26, 14),
        (27, 14),
        (27, 10),
        (27, 11),
        (27, 12),
        (27, 13),
        (28, 9),
        (29, 9),
        (30, 9),
        (31, 9),
        (32, 9),
        (33, 9),
        (34, 9),
        (35, 9),
        (36, 9),
        (37, 9),
        (37, 5),
        (37, 6),
        (37, 7),
        (37, 8),
    ];
    proof {
        assert(pipes@ =~= l03_pipes());
    }
    admit_many(world, mission, DeviceId::Pipe, &pipes);
    let ghost w2 = *world;
    let ghost m2 = mission@;
    let c3 = admit_build(world, mission, DeviceId::Floodgate, CellPos { x: 21, y: 14 }, 0);
    let ghost w3 = *world;
    let ghost m3 = mission@;
    proof {
        assert(build_done(w2, m2, w3, m3, DeviceId::Floodgate, CellPos { x: 21, y: 14 }, 0, c3));
    }
    if mission.admit_command(CommandKind::SetGate(2_500)) == Admission::Accepted {
        let ghost before = *world;
        let found = world.devices.set_selected_gate(CellPos { x: 21, y: 14 }, 2_500);
        proof {
            assert(crate::devices::gate_devices_set(before.devices, world.devices, CellPos { x: 21, y: 14 }, 2_500, found));
            if world.devices.devices@ != before.devices.devices@ {
                let i = choose|i: int| crate::devices::first_flow_device(before.devices.devices@, CellPos { x: 21, y: 14 }, seq![DeviceId::Floodgate], i);
                crate::simulation::lemma_devices_stored_update(before.devices.devices@, i, world.devices.devices@[i]);
            }
            assert(world.devices.wf());
        }
    }
    let ghost w4 = *world;
    let ghost m4 = mission@;
    proof {
        assert(headworks_set(w3, m3, w4, m4));
    }
    let c5 = admit_build(world, mission, DeviceId::FlowTurbine, CellPos { x: 27, y: 9 }, 0);
    let ghost w5 = *world;
    let ghost m5 = mission@;
    let c6 = admit_build(world, mission, DeviceId::RuneRelay, CellPos { x: 38, y: 5 }, 0);
    proof {
        assert(build_done(w4, m4, w5, m5, DeviceId::FlowTurbine, CellPos { x: 27, y: 9 }, 0, c5));
        assert(build_done(w5, m5, *world, mission@, DeviceId::RuneRelay, CellPos { x: 38, y: 5 }, 0, c6));
        let ws = seq![w0, w1, w2, w3, w4, w5, *world];
        let ms = seq![m0, m1, m2, m3, m4, m5, mission@];
        assert(built_one(ws[0], ms[0], ws[1], ms[1], DeviceId::Pump, CellPos { x: 11, y: 5 }));
        assert(built_one(ws[2], ms[2], ws[3], ms[3], DeviceId::Floodgate, CellPos { x: 21, y: 14 }));
        assert(built_one(ws[4], ms[4], ws[5], ms[5], DeviceId::FlowTurbine, CellPos { x: 27, y: 9 }));
        assert(built_one(ws[5], ms[5], ws[6], ms[6], DeviceId::RuneRelay, CellPos { x: 38, y: 5 }));
        assert(l03_build_steps(ws, ms));
    }
}

/// `w1` is `w0` with the surface layer of the cell at `pos` emptied and its
/// volume counted as drained; an off-grid `pos` changes nothing.
pub open spec fn surface_drained(w0: SimulationWorld, w1: SimulationWorld, pos: CellPos) -> bool {
    match w0.index_of(pos) {
        Some(i) => {
            let c = w0.cells@[i as int];
            &&& w1.cells@.len() == w0.cells@.len()
            &&& forall|j: int| 0 <= j < w0.cells@.len() && j != i ==> #[trigger] w1.cells@[j] == w0.cells@[j]
            &&& w1.cells@[i as int].surface@.len() == 0
            &&& w1.cells@[i as int] == (SimCell { surface: w1.cells@[i as int].surface, airborne: w1.cells@[i as int].airborne, ..c })
            &&& w1.cells@[i as int].airborne@ == c.airborne@
            &&& w1.ledger == (crate::simulation::MassLedger {
                drained: (w0.ledger.drained + crate::simulation::entries::seq_volume(c.surface@)) as u64,
                ..w0.ledger
            })
        },
        None => w1 == w0,
    }
}

/// Empty the surface layer of one cell, counting its volume as drained.
fn drain_surface(world: &mut SimulationWorld, pos: CellPos)
    requires
        old(world).wf(),
        old(world).ledger.drained + CELL_CAPACITY_VU <= u64::MAX,
    ensures
        final(world).wf(),
        final(world).balance() == old(world).balance(),
        *final(world) == (SimulationWorld { cells: final(world).cells, ledger: final(world).ledger, ..*old(world) }),
        final(world).ledger.drained <= old(world).ledger.drained + CELL_CAPACITY_VU,
        final(world).ledger.injected == old(world).ledger.injected,
        final(world).cells@.len() == old(world).cells@.len(),
        surface_drained(*old(world), *final(world), pos),
{
    if let Some(i) = world.index(pos) {
        proof {
            crate::state::lemma_grid_index_bound(world.width, world.height, pos);
        }
        let c = &world.cells[i];
        let removed = c.surface_volume();
        let cleared = SimCell {
            height_hu: c.height_hu,
            sealed: c.sealed,
            contained: c.contained,
            ground_contamination_bp: c.ground_contamination_bp,
            surface: Vec::new(),
            airborne: snapshot::copy_list(&c.airborne),
            pending_rock_vu: c.pending_rock_vu,
            pending_vitrified_vu: c.pending_vitrified_vu,
            formed_rock_vu: c.formed_rock_vu,
            formed_vitrified_vu: c.formed_vitrified_vu,
        };
        let ghost before = world.cells@;
        proof {
            assert(c.wf());
            assert(cleared.surface@ =~= Seq::<crate::simulation::FluidEntry>::empty());
            assert(cleared.wf());
            crate::simulation::lemma_cells_material_update(before, i as int, cleared);
        }
        world.cells.set(i, cleared);
        world.ledger.drained = world.ledger.drained + removed as u64;
        proof {
            assert forall|k: int| 0 <= k < world.cells@.len() implies (#[trigger] world.cells@[k]).wf() by {
                if k != i {
                    assert(world.cells@[k] == before[k]);
                }
            }
        }
    }
}

/// `ws` walks from one world to the next by draining the surface at each of
/// `cells` in order (see `surface_drained`).
pub open spec fn drain_steps(ws: Seq<SimulationWorld>, cells: Seq<CellPos>) -> bool {
    &&& ws.len() == cells.len() + 1
    &&& forall|i: int| 0 <= i < cells.len() ==> surface_drained(#[trigger] ws[i], ws[i + 1], cells[i])
}

/// `w1` is `w0` with the surface at each of `cells` drained in order.
pub open spec fn drained_cells(w0: SimulationWorld, w1: SimulationWorld, cells: Seq<CellPos>) -> bool {
    exists|ws: Seq<SimulationWorld>| #[trigger] drain_steps(ws, cells) && ws[0] == w0 && ws.last() == w1
}

/// One more drained cell extends a run of drains.
proof fn lemma_drained_step(w0: SimulationWorld, mid: SimulationWorld, w1: SimulationWorld, cells: Seq<CellPos>)
    requires
        cells.len() > 0,
        drained_cells(w0, mid, cells.drop_last()),
        surface_drained(mid, w1, cells.last()),
    ensures
        drained_cells(w0, w1, cells),
{
    let ws = choose|ws: Seq<SimulationWorld>| #[trigger] drain_steps(ws, cells.drop_last()) && ws[0] == w0 && ws.last() == mid;
    let ws2 = ws.push(w1);
    assert forall|i: int| 0 <= i < cells.len() implies surface_drained(#[trigger] ws2[i], ws2[i + 1], cells[i]) by {
        if i < cells.len() - 1 {
            assert(ws2[i] == ws[i] && ws2[i + 1] == ws[i + 1]);
            assert(cells[i] == cells.drop_last()[i]);
        }
    }
    assert(drain_steps(ws2, cells));
}

/// The cistern's cells, column by column: columns 8 to 11, rows 3 to 6.
pub open spec fn cistern_cells() -> Seq<CellPos> {
    Seq::new(16, |k: int| CellPos { x: (8 + k / 4) as u16, y: (3 + k % 4) as u16 })
}

/// The insufficient-water start of the third mission: the cistern at columns 8 to
/// 11, rows 3 to 6, is emptied (its water counted as drained) and 500 vU of
/// water are poured at (11, 5).
fn drain_cistern(world: &mut SimulationWorld)
    requires
        old(world).wf(),
        old(world).ledger.drained <= LEDGER_LIMIT_VU,
        old(world).ledger.injected <= LEDGER_LIMIT_VU,
    ensures
        final(world).wf(),
        final(world).balance() == old(world).balance(),
        final(world).tick == old(world).tick,
        final(world).devices == old(world).devices,
        final(world).sources == old(world).sources,
        cistern_drained(*old(world), *final(world)),
{
    let mut x: u16 = 8;
    proof {
        assert(drain_steps(seq![*world], seq![]));
        assert(cistern_cells().take(0) =~= seq![]);
    }
    while x <= 11
        invariant
            8 <= x <= 12,
            world.wf(),
            world.balance() == old(world).balance(),
            world.tick == old(world).tick,
            world.devices == old(world).devices,
            world.sources == old(world).sources,
            world.ledger.injected == old(world).ledger.injected,
            world.ledger.drained <= old(world).ledger.drained + (x - 8) * 4 * CELL_CAPACITY_VU,
            old(world).ledger.drained <= LEDGER_LIMIT_VU,
            drained_cells(*old(world), *world, cistern_cells().take((x - 8) * 4)),
        decreases 12 - x,
    {
        let mut y: u16 = 3;
        while y <= 6
            invariant
                8 <= x <= 11,
                3 <= y <= 7,
                world.wf(),
                world.balance() == old(world).balance(),
                world.tick == old(world).tick,
                world.devices == old(world).devices,
                world.sources == old(world).sources,
                world.ledger.injected == old(world).ledger.injected,
                world.ledger.drained <= old(world).ledger.drained + (x - 8) * 4 * CELL_CAPACITY_VU + (y - 3)
                    * CELL_CAPACITY_VU,
                old(world).ledger.drained <= LEDGER_LIMIT_VU,
                drained_cells(*old(world), *world, cistern_cells().take((x - 8) * 4 + (y - 3))),
            decreases 7 - y,
        {
            let ghost before = *world;
            drain_surface(world, CellPos { x, y });
            proof {
                let k = (x - 8) * 4 + (y - 3);
                let next = cistern_cells().take(k + 1);
                assert(next.drop_last() =~= cistern_cells().take(k));
                assert(k / 4 == x - 8 && k % 4 == y - 3);
                assert(next.last() == CellPos { x, y });
                lemma_drained_step(*old(world), before, *world, next);
            }
            y = y + 1;
        }
        x = x + 1;
    }
    proof {
        assert(injection_accepted(*world, CellPos { x: 11, y: 5 }, FluidId::Water, 500) <= 500);
    }
    let ghost mid = *world;
    world.inject(CellPos { x: 11, y: 5 }, FluidId::Water, 500);
    proof {
        assert(cistern_cells().take(16) =~= cistern_cells());
        assert(drained_cells(*old(world), mid, cistern_cells()));
    }
}

/// Pour a failure run's opening spill: 4000 vU of water on the first mission's
/// beacon, 12000 vU of water on the second mission's camp, 4000 vU of lava on the
/// third mission's works.
fn opening_spill(world: &mut SimulationWorld, id: MissionId)
    requires
        old(world).wf(),
        old(world).ledger.injected <= LEDGER_LIMIT_VU,
    ensures
        final(world).wf(),
        final(world).balance() == old(world).balance(),
        final(world).tick == old(world).tick,
        final(world).devices == old(world).devices,
        final(world).sources == old(world).sources,
        spill_poured(*old(world), *final(world), id),
{
    let (pos, fluid) = hazard_point(id);
    let volume: u32 = if id == MissionId::L02HoldingLine {
        12_000
    } else {
        4_000
    };
    proof {
        assert(injection_accepted(*world, pos, fluid, volume) <= volume);
    }
    world.inject(pos, fluid, volume);
}

/// Prepare a replay. Reference and alternate runs recover the authored deposits,
/// install the mission's reference build (skipping the first mission's tutorial)
/// and start the sources. A failure run pours its opening spill; the
/// insufficient-water run of the third mission drains the cistern. The mass
/// balance holds throughout.
fn seed_scenario(world: &mut SimulationWorld, mission: &mut MissionState, id: MissionId, kind: ScenarioKind)
    requires
        old(world).wf(),
        old(world).ledger.injected <= LEDGER_LIMIT_VU,
        old(world).ledger.drained <= LEDGER_LIMIT_VU,
        old(mission)@.command_count <= 1_000,
    ensures
        final(world).wf(),
        final(world).balance() == old(world).balance(),
        final(world).tick == old(world).tick,
        final(mission)@.id == old(mission)@.id,
        final(mission)@.phase == old(mission)@.phase,
        final(mission)@.tick == old(mission)@.tick,
        scenario_seeded(*old(world), old(mission)@, *final(world), final(mission)@, id, kind),
{
    match kind {
        ScenarioKind::Reference | ScenarioKind::Alternate => {
            recover_authored_stock(world);
            let ghost wa = *world;
            if id == MissionId::L01FirstFlow {
                let _ = mission.skip_tutorial();
            }
            match id {
                MissionId::L01FirstFlow => install_l01_build(world, mission),
                MissionId::L02HoldingLine => install_l02_build(world, mission),
                MissionId::L03Firebreak => install_l03_build(world, mission),
            }
            let ghost wb = *world;
            world.set_sources_enabled(true);
            proof {
                assert(stock_recovered(*old(world), wa));
                assert(crate::game::sources_set(wb, *world, true));
            }
        },
        ScenarioKind::Failure => {
            opening_spill(world, id);
        },
        ScenarioKind::InsufficientWaterRecovery => {
            if id == MissionId::L03Firebreak {
                drain_cistern(world);
            }
        },
    }
}

/// The objective a report measures against: the minimum of the mission's record,
/// or zero when the content has none.
pub open spec fn objective_target_spec(content: ContentRegistry, id: MissionId) -> u32 {
    if exists|i: int| first_mission(content.missions@, id.content_id_spec(), i) {
        campaign_record(content, id).objective_min_vu
    } else {
        0
    }
}

/// The objective a report measures against (see `objective_target_spec`).
pub fn objective_target(content: &ContentRegistry, id: MissionId) -> (target: u32)
    ensures
        target == objective_target_spec(*content, id),
{
    match content.mission(id.content_id()) {
        Some(record) => {
            proof {
                let i = choose|i: int| first_mission(content.missions@, id.content_id_spec(), i) && *record == content.missions@[i];
                let k = choose|k: int| first_mission(content.missions@, id.content_id_spec(), k);
                lemma_first_mission_unique(content.missions@, id.content_id_spec(), i, k);
            }
            record.objective_min_vu
        },
        None => 0,
    }
}

/// The mission at the start of a replay: new, out of its briefing.
pub open spec fn started_spec(id: MissionId, content: ContentRegistry) -> MissionView {
    MissionView { phase: MissionPhase::Active, ..new_spec(id, content) }
}

/// A replay ends when the mission leaves play, when it reaches tick 2200, or when
/// the world has no room for another step.
pub open spec fn run_ended(world: SimulationWorld, mission: MissionView) -> bool {
    mission.phase != MissionPhase::Active || mission.tick >= 2_200 || !scenario_room(world)
}

/// A report describes a final world and mission: its fingerprint, tick, outcome,
/// objective, mass ledger (balance held within `i64`, material capped at
/// `u64::MAX`), admitted commands, devices, fabrication stock and power ledger.
pub open spec fn reports_end(r: ScenarioReport, w: SimulationWorld, m: MissionView, target: u32) -> bool {
    let devices = w.devices.devices@;
    &&& r.final_hash == scenario_fingerprint(w, m)
    &&& r.ticks == m.tick
    &&& r.terminal_success == (m.phase == MissionPhase::Success)
    &&& r.terminal_failure == (m.phase == MissionPhase::Failure)
    &&& r.objective_incomplete == (m.objective_progress < target)
    &&& r.objective_progress == m.objective_progress
    &&& r.mass_balance_error == clamped_i64(w.balance())
    &&& r.injected_vu == w.ledger.injected
    &&& r.drained_vu == w.ledger.drained
    &&& r.reacted_vu == w.ledger.reacted
    &&& r.products_vu == w.ledger.products
    &&& r.admitted_commands == m.command_count
    &&& r.placed_devices == devices.len()
    &&& r.reservoir_vu == kind_stored(devices, DeviceId::Reservoir)
    &&& r.turbine_power == kind_power(devices, DeviceId::FlowTurbine)
    &&& r.relay_active == kind_active(devices, DeviceId::RuneRelay)
    &&& r.relay_present == has_kind(devices, DeviceId::RuneRelay)
    &&& r.relay_stored_vu == kind_stored(devices, DeviceId::RuneRelay)
    &&& r.relay_powered == kind_powered(devices, DeviceId::RuneRelay)
    &&& r.total_material_vu == capped(w.material(), u64::MAX as int)
    &&& r.fabrication_available_fu == w.fabrication.available_fu
    &&& r.fabrication_reserved_fu == w.fabrication.reserved_fu
    &&& r.fabrication_spent_fu == w.fabrication.spent_fu
    &&& r.fabrication_refunded_fu == w.fabrication.refunded_fu
    &&& r.fabrication_recovered_fu == w.fabrication.recovered_fu
    &&& r.fabrication_balance_error == w.fabrication.balance()
    &&& r.power_authored_eu == w.power.authored_generation_eu
    &&& r.power_turbine_eu == w.power.turbine_generation_eu
    &&& r.power_allocated_eu == w.power.allocated_demand_eu
    &&& r.power_curtailed_eu == w.power.curtailed_supply_eu
    &&& r.power_deficit_eu == w.power.deficit_eu
}

/// Ticks left before the replay's tick limit.
pub open spec fn ticks_left(tick: u64) -> int {
    if tick < 2_200 {
        2_200 - tick
    } else {
        0
    }
}

/// Step a replay until it ends (see `run_ended`).
fn run_to_end(world: &mut SimulationWorld, mission: &mut MissionState, id: MissionId, kind: ScenarioKind)
    requires
        old(world).wf(),
        old(mission)@.tick <= old(world).tick,
    ensures
        final(world).wf(),
        final(mission)@.id == old(mission)@.id,
        final(mission)@.tick <= final(world).tick,
        run_ended(*final(world), final(mission)@),
        scenario_run(*old(world), old(mission)@, *final(world), final(mission)@, id, kind),
{
    let mut ticked = true;
    let ghost mut ws: Seq<SimulationWorld> = seq![*world];
    let ghost mut ms: Seq<MissionView> = seq![mission@];
    let ghost w_start = *world;
    let ghost m_start = mission@;
    while ticked && mission.phase == MissionPhase::Active && mission.tick < 2_200
        invariant
            world.wf(),
            mission@.id == old(mission)@.id,
            mission@.tick <= world.tick,
            !ticked ==> !scenario_room(*world),
            scenario_steps(ws, ms, id, kind),
            live_until_last(ws, ms),
            ws[0] == *old(world),
            ms[0] == old(mission)@,
            ws.last() == *world,
            ms.last() == mission@,
        decreases ticks_left(mission.tick), if ticked {
            1int
        } else {
            0int
        },
    {
        let ghost w0 = *world;
        let ghost m0 = mission@;
        ticked = tick_scenario(world, mission, id, kind);
        if ticked {
          proof {
            assert(!run_ended(w0, m0));
            let ws2 = ws.push(*world);
            let ms2 = ms.push(mission@);
            assert forall|i: int| 0 <= i < ws2.len() - 1 implies scenario_step(#[trigger] ws2[i], ms2[i], ws2[i + 1], ms2[i + 1], id, kind) by {
                if i < ws.len() - 1 {
                    assert(ws2[i] == ws[i] && ws2[i + 1] == ws[i + 1] && ms2[i] == ms[i] && ms2[i + 1] == ms[i + 1]);
                    assert(scenario_step(ws[i], ms[i], ws[i + 1], ms[i + 1], id, kind));
                } else {
                    assert(ws2[i] == w0 && ms2[i] == m0);
                }
            }
            assert forall|k: int| 0 <= k < ws2.len() - 1 implies !run_ended(#[trigger] ws2[k], ms2[k]) by {
                if k < ws.len() - 1 {
                    assert(ws2[k] == ws[k] && ms2[k] == ms[k]);
                } else {
                    assert(ws2[k] == w0 && ms2[k] == m0);
                }
            }
            ws = ws2;
            ms = ms2;
            assert(scenario_steps(ws, ms, id, kind));
          }
        }
    }
    proof {
        reveal(scenario_run);
        assert(scenario_run(w_start, m_start, *world, mission@, id, kind));
    }
}

/// A report from its final world and mission.
fn report_of(
    world: &SimulationWorld,
    mission: &MissionState,
    id: MissionId,
    kind: ScenarioKind,
    hashes: (u64, u64),
    continuation_matches: bool,
    target: u32,
) -> (report: ScenarioReport)
    requires
        world.wf(),
    ensures
        report.id == id,
        report.kind == kind,
        report.initial_hash == hashes.0,
        report.midpoint_hash == hashes.1,
        report.continuation_matches == continuation_matches,
        reports_end(report, *world, mission@, target),
{
    let final_hash = state_fingerprint(world, mission);
    let devices = &world.devices.devices;
    let material = material_wide(world);
    let total_material_vu: u64 = if material > u64::MAX as u128 {
        u64::MAX
    } else {
        material as u64
    };
    let wide: i128 = world.ledger.injected as i128 - world.ledger.drained as i128 - material as i128;
    let mass_balance_error: i64 = if wide > i64::MAX as i128 {
        i64::MAX
    } else if wide < i64::MIN as i128 {
        i64::MIN
    } else {
        wide as i64
    };
    let (relay_present, relay_active, relay_powered) = kind_flags(devices, DeviceId::RuneRelay);
    ScenarioReport {
        id,
        kind,
        initial_hash: hashes.0,
        midpoint_hash: hashes.1,
        final_hash,
        ticks: mission.tick,
        continuation_matches,
        terminal_success: mission.phase == MissionPhase::Success,
        terminal_failure: mission.phase == MissionPhase::Failure,
        objective_incomplete: mission.objective_progress < target,
        objective_progress: mission.objective_progress,
        mass_balance_error,
        injected_vu: world.ledger.injected,
        drained_vu: world.ledger.drained,
        reacted_vu: world.ledger.reacted,
        products_vu: world.ledger.products,
        admitted_commands: mission.command_count,
        placed_devices: devices.len(),
        reservoir_vu: stored_of(devices, DeviceId::Reservoir),
        turbine_power: power_of(devices, DeviceId::FlowTurbine),
        relay_active,
        relay_present,
        relay_stored_vu: stored_of(devices, DeviceId::RuneRelay),
        relay_powered,
        total_material_vu,
        fabrication_available_fu: world.fabrication.available_fu,
        fabrication_reserved_fu: world.fabrication.reserved_fu,
        fabrication_spent_fu: world.fabrication.spent_fu,
        fabrication_refunded_fu: world.fabrication.refunded_fu,
        fabrication_recovered_fu: world.fabrication.recovered_fu,
        fabrication_balance_error: world.fabrication.balance_error(),
        power_authored_eu: world.power.authored_generation_eu,
        power_turbine_eu: world.power.turbine_generation_eu,
        power_allocated_eu: world.power.allocated_demand_eu,
        power_curtailed_eu: world.power.curtailed_supply_eu,
        power_deficit_eu: world.power.deficit_eu,
    }
}

/// A report of the replay of mission `id` in the way `kind`: the campaign world
/// `start` with the started mission, fingerprinted; prepared (see `seed_scenario`)
/// into `(seeded, sm)`; stepped 50 times (`ws`, `ms`) to the
/// fingerprinted midpoint; stepped on to its end (`ws1`, `ms1`), which the report
/// describes; and a snapshot of the midpoint stepped to its own end (`ws2`, `ms2`),
/// whose fingerprint the report compares with the run's.
#[verifier::opaque]
pub open spec fn scenario_trace(
    content: ContentRegistry,
    id: MissionId,
    kind: ScenarioKind,
    report: ScenarioReport,
    start: SimulationWorld,
    seeded: SimulationWorld,
    sm: MissionView,
    ws: Seq<SimulationWorld>,
    ms: Seq<MissionView>,
    ws1: Seq<SimulationWorld>,
    ms1: Seq<MissionView>,
    ws2: Seq<SimulationWorld>,
    ms2: Seq<MissionView>,
) -> bool {
    let started = started_spec(id, content);
    &&& report.id == id
    &&& report.kind == kind
    &&& campaign_world(content, id, start)
    &&& report.initial_hash == scenario_fingerprint(start, started)
    &&& scenario_seeded(start, started, seeded, sm, id, kind)
    &&& scenario_steps(ws, ms, id, kind)
    &&& ws.len() == 51
    &&& ws[0] == seeded
    &&& ms[0] == sm
    &&& report.midpoint_hash == scenario_fingerprint(ws.last(), ms.last())
    &&& scenario_steps(ws1, ms1, id, kind)
    &&& live_until_last(ws1, ms1)
    &&& ws1[0] == ws.last()
    &&& ms1[0] == ms.last()
    &&& run_ended(ws1.last(), ms1.last())
    &&& reports_end(report, ws1.last(), ms1.last(), objective_target_spec(content, id))
    &&& scenario_steps(ws2, ms2, id, kind)
    &&& live_until_last(ws2, ms2)
    &&& same_world(ws.last(), ws2[0])
    &&& ms2[0] == ms.last()
    &&& run_ended(ws2.last(), ms2.last())
    &&& report.continuation_matches == (report.final_hash == scenario_fingerprint(ws2.last(), ms2.last()))
}

/// `report` is what a replay of mission `id` in the way `kind` reports (see `scenario_trace`).
pub open spec fn scenario_reported(content: ContentRegistry, id: MissionId, kind: ScenarioKind, report: ScenarioReport) -> bool {
    exists|start: SimulationWorld, seeded: SimulationWorld, sm: MissionView, ws: Seq<SimulationWorld>, ms: Seq<MissionView>,
        ws1: Seq<SimulationWorld>, ms1: Seq<MissionView>, ws2: Seq<SimulationWorld>, ms2: Seq<MissionView>|
        #[trigger] scenario_trace(content, id, kind, report, start, seeded, sm, ws, ms, ws1, ms1, ws2, ms2)
}

/// The facts a replay gathers make its trace.
proof fn lemma_trace(
    content: ContentRegistry,
    id: MissionId,
    kind: ScenarioKind,
    report: ScenarioReport,
    start: SimulationWorld,
    seeded: SimulationWorld,
    sm: MissionView,
    ws: Seq<SimulationWorld>,
    ms: Seq<MissionView>,
    end: SimulationWorld,
    end_mission: MissionView,
    resumed: SimulationWorld,
    resumed_end: SimulationWorld,
    resumed_end_mission: MissionView,
)
    requires
        report.id == id,
        report.kind == kind,
        campaign_world(content, id, start),
        report.initial_hash == scenario_fingerprint(start, started_spec(id, content)),
        scenario_seeded(start, started_spec(id, content), seeded, sm, id, kind),
        scenario_steps(ws, ms, id, kind),
        ws.len() == 51,
        ws[0] == seeded,
        ms[0] == sm,
        report.midpoint_hash == scenario_fingerprint(ws.last(), ms.last()),
        scenario_run(ws.last(), ms.last(), end, end_mission, id, kind),
        run_ended(end, end_mission),
        reports_end(report, end, end_mission, objective_target_spec(content, id)),
        scenario_run(resumed, ms.last(), resumed_end, resumed_end_mission, id, kind),
        same_world(ws.last(), resumed),
        run_ended(resumed_end, resumed_end_mission),
        report.continuation_matches == (report.final_hash == scenario_fingerprint(resumed_end, resumed_end_mission)),
    ensures
        scenario_reported(content, id, kind, report),
{
    reveal(scenario_run);
    let (ws1, ms1) = choose|ws1: Seq<SimulationWorld>, ms1: Seq<MissionView>| {
        &&& #[trigger] scenario_steps(ws1, ms1, id, kind)
        &&& live_until_last(ws1, ms1)
        &&& ws1[0] == ws.last()
        &&& ms1[0] == ms.last()
        &&& ws1.last() == end
        &&& ms1.last() == end_mission
    };
    let (ws2, ms2) = choose|ws2: Seq<SimulationWorld>, ms2: Seq<MissionView>| {
        &&& #[trigger] scenario_steps(ws2, ms2, id, kind)
        &&& live_until_last(ws2, ms2)
        &&& ws2[0] == resumed
        &&& ms2[0] == ms.last()
        &&& ws2.last() == resumed_end
        &&& ms2.last() == resumed_end_mission
    };
    reveal(scenario_trace);
    assert(scenario_trace(content, id, kind, report, start, seeded, sm, ws, ms, ws1, ms1, ws2, ms2));
}

/// Run one scripted replay of a mission: load and start it, fingerprint the
/// start, prepare the run (see `seed_scenario`), step it 50 times and fingerprint
/// the midpoint, take a snapshot, step the run and then the snapshot until each
/// ends (see `run_ended`), and report the final state of the run and whether the
/// resumed snapshot ended with the same fingerprint.
#[verifier::rlimit(100)]
#[verifier::spinoff_prover]
pub fn run_scenario(id: MissionId, kind: ScenarioKind, content: &ContentRegistry) -> (report: ScenarioReport)
    requires
        campaign_loadable(*content, id),
    ensures
        report.id == id,
        report.kind == kind,
        scenario_reported(*content, id, kind, report),
{
    let map = load_campaign(id, content);
    let mut world = map.world;
    let ghost start = world;
    let mut mission = MissionState::new(id, content);
    mission.start();
    let initial_hash = state_fingerprint(&world, &mission);
    proof {
        assert(mission@ == started_spec(id, *content));
    }
    seed_scenario(&mut world, &mut mission, id, kind);
    let ghost seeded_world = world;
    let ghost seeded_mission = mission@;
    let mut step: u32 = 0;
    let ghost mut ws: Seq<SimulationWorld> = seq![world];
    let ghost mut ms: Seq<MissionView> = seq![mission@];
    while step < 50
        invariant
            world.wf(),
            mission@.id == id,
            mission@.tick <= world.tick,
            scenario_steps(ws, ms, id, kind),
            step <= 50,
            ws.len() == step + 1,
            ws[0] == seeded_world,
            ms[0] == seeded_mission,
            ws.last() == world,
            ms.last() == mission@,
        decreases 50 - step,
    {
        let ghost w0 = world;
        let ghost m0 = mission@;
        let _ = tick_scenario(&mut world, &mut mission, id, kind);
        proof {
            let ws2 = ws.push(world);
            let ms2 = ms.push(mission@);
            assert forall|i: int| 0 <= i < ws2.len() - 1 implies scenario_step(#[trigger] ws2[i], ms2[i], ws2[i + 1], ms2[i + 1], id, kind) by {
                if i < ws.len() - 1 {
                    assert(ws2[i] == ws[i] && ws2[i + 1] == ws[i + 1] && ms2[i] == ms[i] && ms2[i + 1] == ms[i + 1]);
                    assert(scenario_step(ws[i], ms[i], ws[i + 1], ms[i + 1], id, kind));
                } else {
                    assert(ws2[i] == w0 && ms2[i] == m0);
                }
            }
            ws = ws2;
            ms = ms2;
            assert(scenario_steps(ws, ms, id, kind));
        }
        step = step + 1;
    }
    let ghost mid_world = world;
    let ghost mid_mission = mission@;
    let midpoint_hash = state_fingerprint(&world, &mission);
    let mut resumed_world = snapshot::snapshot_world(&world);
    let mut resumed_mission = snapshot::snapshot_mission(&mission);
    let ghost resumed_start = resumed_world;
    proof {
        snapshot::lemma_same_world_wf(world, resumed_world);
    }
    run_to_end(&mut world, &mut mission, id, kind);
    run_to_end(&mut resumed_world, &mut resumed_mission, id, kind);
    let resumed_hash = state_fingerprint(&resumed_world, &resumed_mission);
    let final_hash = state_fingerprint(&world, &mission);
    let target = objective_target(content, id);
    let report = report_of(&world, &mission, id, kind, (initial_hash, midpoint_hash), final_hash == resumed_hash, target);
    proof {
        assert(reports_end(report, world, mission@, objective_target_spec(*content, id)));
        assert(report.continuation_matches == (report.final_hash == scenario_fingerprint(resumed_world, resumed_mission@)));
        assert(ws.last() == mid_world && ms.last() == mid_mission);
        lemma_trace(*content, id, kind, report, start, seeded_world, seeded_mission, ws, ms, world, mission@, resumed_start,
            resumed_world, resumed_mission@);
    }
    report
}

/// Whether a replay passed: a failure run ended in failure, a reference or
/// alternate run in success, and an insufficient-water run incomplete without
/// failing; in every case the resumed snapshot matched and mass balanced.
pub open spec fn passes(r: ScenarioReport) -> bool {
    let expected = match r.kind {
        ScenarioKind::Failure => r.terminal_failure,
        ScenarioKind::Reference | ScenarioKind::Alternate => r.terminal_success,
        ScenarioKind::InsufficientWaterRecovery => r.objective_incomplete && !r.terminal_failure,
    };
    expected && r.continuation_matches && r.mass_balance_error == 0
}

/// Whether a replay passed (see `passes`).
pub fn scenario_passes(report: &ScenarioReport) -> (ok: bool)
    ensures
        ok == passes(*report),
{
    let expected = match report.kind {
        ScenarioKind::Failure => report.terminal_failure,
        ScenarioKind::Reference | ScenarioKind::Alternate => report.terminal_success,
        ScenarioKind::InsufficientWaterRecovery => report.objective_incomplete && !report.terminal_failure,
    };
    expected && report.continuation_matches && report.mass_balance_error == 0
}

/// How many of the reports passed.
pub open spec fn passing(reports: Seq<ScenarioReport>) -> nat
    decreases reports.len(),
{
    if reports.len() == 0 {
        0
    } else {
        passing(reports.drop_last()) + if passes(reports.last()) {
            1nat
        } else {
            0nat
        }
    }
}

/// The replay plan: each mission's reference, alternate and failure runs in
/// mission order, then the third mission's insufficient-water run.
pub open spec fn planned(k: int) -> (MissionId, ScenarioKind) {
    if k == 9 {
        (MissionId::L03Firebreak, ScenarioKind::InsufficientWaterRecovery)
    } else {
        (
            if k / 3 == 0 {
                MissionId::L01FirstFlow
            } else if k / 3 == 1 {
                MissionId::L02HoldingLine
            } else {
                MissionId::L03Firebreak
            },
            if k % 3 == 0 {
                ScenarioKind::Reference
            } else if k % 3 == 1 {
                ScenarioKind::Alternate
            } else {
                ScenarioKind::Failure
            },
        )
    }
}

/// Run the ten planned replays (see `planned`) and summarise how many passed
/// (see `passes`): "<passed>/10 deterministic campaign scenarios PASS".
pub fn run_all_scenarios(content: &ContentRegistry) -> (summary: String)
    requires
        forall|id: MissionId| campaign_loadable(*content, id),
    ensures
        exists|reports: Seq<ScenarioReport>|
            {
                &&& reports.len() == 10
                &&& forall|k: int| 0 <= k < 10 ==> ((#[trigger] reports[k]).id, reports[k].kind) == planned(k)
                &&& forall|k: int| 0 <= k < 10 ==> scenario_reported(*content, planned(k).0, planned(k).1, #[trigger] reports[k])
                &&& summary@ == decimal(passing(reports)) + "/10 deterministic campaign scenarios PASS"@
            },
{
    let missions = MissionId::ALL;
    let kinds = [ScenarioKind::Reference, ScenarioKind::Alternate, ScenarioKind::Failure];
    let ghost mut reports: Seq<ScenarioReport> = seq![];
    let mut passed: u64 = 0;
    let mut k: usize = 0;
    while k < 10
        invariant
            k <= 10,
            forall|id: MissionId| campaign_loadable(*content, id),
            missions@ == MissionId::ALL@,
            kinds@ == seq![ScenarioKind::Reference, ScenarioKind::Alternate, ScenarioKind::Failure],
            reports.len() == k,
            forall|j: int| 0 <= j < k ==> ((#[trigger] reports[j]).id, reports[j].kind) == planned(j),
            forall|j: int| 0 <= j < k ==> scenario_reported(*content, planned(j).0, planned(j).1, #[trigger] reports[j]),
            passed == passing(reports),
            passed <= k,
        decreases 10 - k,
    {
        let (id, kind) = if k == 9 {
            (MissionId::L03Firebreak, ScenarioKind::InsufficientWaterRecovery)
        } else {
            (missions[k / 3], kinds[k % 3])
        };
        proof {
            assert((id, kind) == planned(k as int));
        }
        let report = run_scenario(id, kind, content);
        if scenario_passes(&report) {
            passed = passed + 1;
        }
        proof {
            let before = reports;
            reports = reports.push(report);
            assert(reports.drop_last() == before);
        }
        k = k + 1;
    }
    let mut summary = String::new();
    push_decimal(&mut summary, passed);
    summary.append("/10 deterministic campaign scenarios PASS");
    proof {
        assert(summary@ == decimal(passing(reports)) + "/10 deterministic campaign scenarios PASS"@);
    }
    summary
}

} // verus!
