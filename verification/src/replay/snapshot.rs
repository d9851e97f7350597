//! Snapshots of a world and a mission that a replay can resume from: copies that
//! agree with the original in every field, lists compared by their contents.

use vstd::prelude::*;

use crate::devices::DeviceSystem;
use crate::economy::{FabricationState, PowerSource, ResourceDeposit};
use crate::mission::state::{MissionRules, MissionState};
use crate::mission::{copy_texts, TutorialState};
use crate::simulation::fingerprint::{cell_words, cells_words, world_fingerprint, world_words};
use crate::simulation::{FluidEntry, SimCell, SimEvent, SimulationWorld};

verus! {

/// Two cells agree in every scalar and in both fluid layers.
pub open spec fn same_cell(a: SimCell, b: SimCell) -> bool {
    &&& a.height_hu == b.height_hu
    &&& a.sealed == b.sealed
    &&& a.contained == b.contained
    &&& a.ground_contamination_bp == b.ground_contamination_bp
    &&& a.surface@ == b.surface@
    &&& a.airborne@ == b.airborne@
    &&& a.pending_rock_vu == b.pending_rock_vu
    &&& a.pending_vitrified_vu == b.pending_vitrified_vu
    &&& a.formed_rock_vu == b.formed_rock_vu
    &&& a.formed_vitrified_vu == b.formed_vitrified_vu
}

/// Two worlds agree in every field, lists compared by their contents.
pub open spec fn same_world(a: SimulationWorld, b: SimulationWorld) -> bool {
    &&& a.width == b.width
    &&& a.height == b.height
    &&& a.definitions@ == b.definitions@
    &&& a.cells@.len() == b.cells@.len()
    &&& forall|i: int| 0 <= i < a.cells@.len() ==> same_cell(#[trigger] a.cells@[i], b.cells@[i])
    &&& a.tick == b.tick
    &&& a.ledger == b.ledger
    &&& a.events@ == b.events@
    &&& a.devices.next_entity_id == b.devices.next_entity_id
    &&& a.devices.next_plan_id == b.devices.next_plan_id
    &&& a.devices.queued@ == b.devices.queued@
    &&& a.devices.devices@ == b.devices.devices@
    &&& a.sources@ == b.sources@
    &&& a.source_schedule == b.source_schedule
    &&& a.deposits@ == b.deposits@
    &&& a.power_sources@ == b.power_sources@
    &&& a.fabrication == b.fabrication
    &&& a.power == b.power
}

/// A copy of a well-formed world is well formed.
pub proof fn lemma_same_world_wf(a: SimulationWorld, b: SimulationWorld)
    requires
        same_world(a, b),
        a.wf(),
    ensures
        b.wf(),
{
    assert forall|i: int| 0 <= i < b.cells@.len() implies (#[trigger] b.cells@[i]).wf() by {
        assert(same_cell(a.cells@[i], b.cells@[i]));
        assert(a.cells@[i].wf());
    }
    assert forall|i: int| 0 <= i < b.definitions@.len() implies -crate::simulation::entries::TEMPERATURE_LIMIT_DK
        <= (#[trigger] b.definitions@[i]).ambient_temperature_dk <= crate::simulation::entries::TEMPERATURE_LIMIT_DK by {
        assert(b.definitions@[i] == a.definitions@[i]);
    }
    assert(b.devices.wf()) by {
        assert forall|i: int| 0 <= i < b.devices.devices@.len() implies {
            &&& (#[trigger] b.devices.devices@[i]).anchor.x < 32767
            &&& b.devices.devices@[i].anchor.y < 32767
            &&& b.devices.devices@[i].power_generated <= 4
        } by {
            assert(b.devices.devices@[i] == a.devices.devices@[i]);
        }
    }
}

/// Cells that agree pairwise have the same words.
proof fn lemma_same_cells_words(a: Seq<SimCell>, b: Seq<SimCell>)
    requires
        a.len() == b.len(),
        forall|i: int| 0 <= i < a.len() ==> same_cell(#[trigger] a[i], b[i]),
    ensures
        cells_words(a) == cells_words(b),
    decreases a.len(),
{
    if a.len() > 0 {
        lemma_same_cells_words(a.drop_last(), b.drop_last());
        assert(same_cell(a[a.len() - 1], b[b.len() - 1]));
        assert(cell_words(a.last()) == cell_words(b.last()));
    }
}

/// A copy of a world has the world's fingerprint.
pub proof fn lemma_same_world_fingerprint(a: SimulationWorld, b: SimulationWorld)
    requires
        same_world(a, b),
    ensures
        world_fingerprint(a) == world_fingerprint(b),
{
    lemma_same_cells_words(a.cells@, b.cells@);
    assert(world_words(a) == world_words(b));
}

/// A copy of a list of values.
pub(crate) fn copy_list<T: Copy>(v: &Vec<T>) -> (c: Vec<T>)
    ensures
        c@ == v@,
{
    let mut c: Vec<T> = Vec::new();
    let mut i: usize = 0;
    while i < v.len()
        invariant
            i <= v@.len(),
            c@ == v@.take(i as int),
        decreases v@.len() - i,
    {
        c.push(v[i]);
        proof {
            assert(v@.take(i as int + 1) == v@.take(i as int).push(v@[i as int]));
        }
        i = i + 1;
    }
    proof {
        assert(v@.take(v@.len() as int) == v@);
    }
    c
}

/// A copy of a cell.
fn copy_cell(cell: &SimCell) -> (c: SimCell)
    ensures
        same_cell(*cell, c),
{
    let surface: Vec<FluidEntry> = copy_list(&cell.surface);
    let airborne: Vec<FluidEntry> = copy_list(&cell.airborne);
    SimCell {
        height_hu: cell.height_hu,
        sealed: cell.sealed,
        contained: cell.contained,
        ground_contamination_bp: cell.ground_contamination_bp,
        surface,
        airborne,
        pending_rock_vu: cell.pending_rock_vu,
        pending_vitrified_vu: cell.pending_vitrified_vu,
        formed_rock_vu: cell.formed_rock_vu,
        formed_vitrified_vu: cell.formed_vitrified_vu,
    }
}

/// A copy of an event.
fn copy_event(event: &SimEvent) -> (c: SimEvent)
    ensures
        c == *event,
{
    match event {
        SimEvent::SourceBackpressure { cell, requested_vu, accepted_vu } => SimEvent::SourceBackpressure {
            cell: *cell,
            requested_vu: *requested_vu,
            accepted_vu: *accepted_vu,
        },
        SimEvent::MaterialReacted { reaction, cell, volume_vu } => SimEvent::MaterialReacted {
            reaction: reaction.clone(),
            cell: *cell,
            volume_vu: *volume_vu,
        },
        SimEvent::HighPressureSteam { cell } => SimEvent::HighPressureSteam { cell: *cell },
        SimEvent::DepositRecovered { id, yield_fu } => SimEvent::DepositRecovered { id: id.clone(), yield_fu: *yield_fu },
        SimEvent::PowerBrownout { entity_id, demand_eu } => SimEvent::PowerBrownout {
            entity_id: *entity_id,
            demand_eu: *demand_eu,
        },
    }
}

/// A copy of a deposit.
fn copy_deposit(d: &ResourceDeposit) -> (c: ResourceDeposit)
    ensures
        c == *d,
{
    ResourceDeposit {
        id: d.id.clone(),
        position: d.position,
        yield_fu: d.yield_fu,
        asset_id: d.asset_id.clone(),
        depleted: d.depleted,
    }
}

/// A copy of a power source.
fn copy_power_source(p: &PowerSource) -> (c: PowerSource)
    ensures
        c == *p,
{
    PowerSource {
        id: p.id.clone(),
        position: p.position,
        output_eu_per_tick: p.output_eu_per_tick,
        enabled: p.enabled,
        asset_id: p.asset_id.clone(),
    }
}

/// A snapshot of a world that agrees with it in every field.
pub fn snapshot_world(world: &SimulationWorld) -> (copy: SimulationWorld)
    ensures
        same_world(*world, copy),
{
    let mut cells: Vec<SimCell> = Vec::new();
    let mut i: usize = 0;
    while i < world.cells.len()
        invariant
            i <= world.cells@.len(),
            cells@.len() == i,
            forall|k: int| 0 <= k < i ==> same_cell(#[trigger] world.cells@[k], cells@[k]),
        decreases world.cells@.len() - i,
    {
        cells.push(copy_cell(&world.cells[i]));
        i = i + 1;
    }
    let mut events: Vec<SimEvent> = Vec::new();
    let mut i: usize = 0;
    while i < world.events.len()
        invariant
            i <= world.events@.len(),
            events@ == world.events@.take(i as int),
        decreases world.events@.len() - i,
    {
        events.push(copy_event(&world.events[i]));
        proof {
            assert(world.events@.take(i as int + 1) == world.events@.take(i as int).push(world.events@[i as int]));
        }
        i = i + 1;
    }
    let mut deposits: Vec<ResourceDeposit> = Vec::new();
    let mut i: usize = 0;
    while i < world.deposits.len()
        invariant
            i <= world.deposits@.len(),
            deposits@ == world.deposits@.take(i as int),
        decreases world.deposits@.len() - i,
    {
        deposits.push(copy_deposit(&world.deposits[i]));
        proof {
            assert(world.deposits@.take(i as int + 1) == world.deposits@.take(i as int).push(world.deposits@[i as int]));
        }
        i = i + 1;
    }
    let mut power_sources: Vec<PowerSource> = Vec::new();
    let mut i: usize = 0;
    while i < world.power_sources.len()
        invariant
            i <= world.power_sources@.len(),
            power_sources@ == world.power_sources@.take(i as int),
        decreases world.power_sources@.len() - i,
    {
        power_sources.push(copy_power_source(&world.power_sources[i]));
        proof {
            assert(world.power_sources@.take(i as int + 1) == world.power_sources@.take(i as int).push(
                world.power_sources@[i as int],
            ));
        }
        i = i + 1;
    }
    proof {
        assert(world.events@.take(world.events@.len() as int) == world.events@);
        assert(world.deposits@.take(world.deposits@.len() as int) == world.deposits@);
        assert(world.power_sources@.take(world.power_sources@.len() as int) == world.power_sources@);
    }
    SimulationWorld {
        width: world.width,
        height: world.height,
        definitions: copy_list(&world.definitions),
        cells,
        tick: world.tick,
        ledger: world.ledger,
        events,
        devices: DeviceSystem {
            next_entity_id: world.devices.next_entity_id,
            next_plan_id: world.devices.next_plan_id,
            queued: copy_list(&world.devices.queued),
            devices: copy_list(&world.devices.devices),
        },
        sources: copy_list(&world.sources),
        source_schedule: world.source_schedule,
        deposits,
        power_sources,
        fabrication: FabricationState {
            authored_start_fu: world.fabrication.authored_start_fu,
            recovered_fu: world.fabrication.recovered_fu,
            available_fu: world.fabrication.available_fu,
            reserved_fu: world.fabrication.reserved_fu,
            spent_fu: world.fabrication.spent_fu,
            refunded_fu: world.fabrication.refunded_fu,
        },
        power: world.power,
    }
}

/// A snapshot of a mission with the same view.
pub fn snapshot_mission(mission: &MissionState) -> (copy: MissionState)
    ensures
        copy@ == mission@,
{
    let tutorial = match &mission.tutorial {
        Some(t) => Some(
            TutorialState {
                tutorial_id: t.tutorial_id.clone(),
                current_step_id: t.current_step_id.clone(),
                completed_step_ids: copy_texts(&t.completed_step_ids),
                hint_level: t.hint_level,
                ticks_in_step: t.ticks_in_step,
                dismissed_prompt: t.dismissed_prompt,
                skip_confirmed: t.skip_confirmed,
                actions_in_step: t.actions_in_step,
                steps: copy_texts(&t.steps),
            },
        ),
        None => None,
    };
    let failure_reason = match &mission.failure_reason {
        Some(r) => Some(r.clone()),
        None => None,
    };
    MissionState {
        id: mission.id,
        phase: mission.phase,
        tick: mission.tick,
        stability_ticks: mission.stability_ticks,
        objective_progress: mission.objective_progress,
        command_count: mission.command_count,
        failure_reason,
        tutorial,
        checkpoint_tick: mission.checkpoint_tick,
        failure_ticks: mission.failure_ticks,
        alert_level: mission.alert_level,
        rules: MissionRules {
            objective_min_vu: mission.rules.objective_min_vu,
            objective_max_vu: mission.rules.objective_max_vu,
            stability_ticks: mission.rules.stability_ticks,
            failure_ticks: mission.rules.failure_ticks,
            advisory_tick: mission.rules.advisory_tick,
            warning_tick: mission.rules.warning_tick,
            hazard_threshold_vu: mission.rules.hazard_threshold_vu,
            hazard_reason: mission.rules.hazard_reason.clone(),
        },
    }
}

} // verus!
