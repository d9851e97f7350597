//! Per-tick device behaviour, kept apart from the registry and placement rules.

use vstd::prelude::*;

use super::network::{
    adjacent_spec, conduit_at, conduit_path, is_conduit_spec, lemma_extend_path, direction, direction_spec, footprint_outlet, pipe_connected, pipe_connected_spec,
    pipe_endpoint, step, step_spec, step_target, surface_move, surface_moved, transfer_surface, transfer_surface_to,
};
use super::{DeviceId, DeviceState, DeviceSystem};
use crate::simulation::entries::{
    entries_wf, entry_of, find_fluid, fluid_volume, lemma_entry_at, lemma_entry_at_first, lemma_volume_by_fluid, has_fluid, lemma_update_same_fluid,
    remove_fluid, seq_volume, after_removal,
};
use crate::simulation::process::{same_but_layers, same_but_surface};
use crate::simulation::world::same_apart_from_cells;
use crate::simulation::{
    accepted_volume, fresh_entry, layer_after_add, cells_material, devices_stored, lemma_cells_material_update, lemma_devices_stored_update, min_int, FluidEntry, FluidId, SimCell, SimulationWorld, CELL_CAPACITY_VU,
};
use crate::state::CellPos;
use crate::state::lemma_grid_index_bound;

verus! {

/// The world changed only in the fluid layers of its cells and stays well formed.
pub open spec fn layers_only(before: SimulationWorld, after: SimulationWorld) -> bool {
    &&& after.wf()
    &&& same_apart_from_cells(before, after)
    &&& after.ledger == before.ledger
    &&& after.events == before.events
    &&& after.cells@.len() == before.cells@.len()
    &&& forall|i: int| 0 <= i < after.cells@.len() ==> same_but_layers(before.cells@[i], #[trigger] after.cells@[i])
}

/// A device changed only in its runtime state.
pub open spec fn runtime_only(before: DeviceState, after: DeviceState) -> bool {
    &&& after == (DeviceState {
        active: after.active,
        stored_vu: after.stored_vu,
        stored_fluid: after.stored_fluid,
        power_generated: after.power_generated,
        cumulative_power: after.cumulative_power,
        ..before
    })
    &&& after.power_generated <= 4
}

/// Material in the cells plus material stored in one device.
pub open spec fn held(world: SimulationWorld, device: DeviceState) -> int {
    cells_material(world.cells@) + device.stored_vu
}

/// A topology whose anchors and size suit conduit searches.
pub open spec fn topology_ok(topology: Seq<DeviceState>) -> bool {
    &&& topology.len() <= 16_777_216
    &&& forall|i: int| 0 <= i < topology.len() ==> (#[trigger] topology[i]).anchor.x < 32767
        && topology[i].anchor.y < 32767
}

/// Surface changes preserve the layer-only frame.
proof fn lemma_surface_frame(before: SimulationWorld, after: SimulationWorld)
    requires
        after.wf(),
        same_apart_from_cells(before, after),
        after.ledger == before.ledger,
        after.events == before.events,
        after.cells@.len() == before.cells@.len(),
        forall|i: int| 0 <= i < after.cells@.len() ==> same_but_surface(before.cells@[i], #[trigger] after.cells@[i]),
    ensures
        layers_only(before, after),
{
}

/// What a pump lifts this tick: its cell's surface volume, capped at 250 vU and at
/// 250 vU scaled by its setting; `None` where it is off or its cell is missing.
pub open spec fn pump_amount(world: SimulationWorld, device: DeviceState) -> Option<u32> {
    if device.enabled && device.powered && world.index_of(device.anchor) is Some {
        let volume = seq_volume(world.cells@[world.index_of(device.anchor)->0 as int].surface@);
        let by_setting = device.setting_bp * 250 / 10_000;
        let capped = if volume <= 250 { volume as int } else { 250 };
        Some(if by_setting < capped { by_setting as u32 } else { capped as u32 })
    } else {
        None
    }
}

/// A pump lifts up to 250 vU (scaled by its setting) of its cell's first surface
/// fluid into the endpoint of the conduit run at its outlet, or into the outlet
/// cell itself.
fn tick_pump(device: &mut DeviceState, world: &mut SimulationWorld, topology: &[DeviceState])
    requires
        old(world).wf(),
        topology_ok(topology@),
        old(device).anchor.x < 32767,
        old(device).anchor.y < 32767,
        old(device).power_generated <= 4,
    ensures
        pump_ticked(*old(device), *final(device), *old(world), *final(world), topology@),
{
    if !device.enabled || !device.powered {
        return;
    }
    let source = match world.index(device.anchor) {
        Some(i) => i,
        None => return,
    };
    proof {
        lemma_grid_index_bound(world.width, world.height, device.anchor);
        assert(world.cells@[source as int].wf());
    }
    let volume = world.cells[source].surface_volume();
    let by_setting: u32 = device.setting_bp as u32 * 250 / 10_000;
    let mut amount = if volume <= 250 { volume } else { 250 };
    if by_setting < amount {
        amount = by_setting;
    }
    assert(pump_amount(*old(world), *old(device)) == Some(amount));
    let outlet = step(device.anchor, direction(device.rotation));
    let destination = match pipe_endpoint(topology, outlet, direction(device.rotation), Some(device.anchor)) {
        Some(p) => p,
        None => outlet,
    };
    assert(!conduit_at(topology@, step_spec(old(device).anchor, direction_spec(old(device).rotation)))
        ==> destination == step_spec(old(device).anchor, direction_spec(old(device).rotation)));
    if amount > 0 {
        let moved = transfer_surface_to(world, device.anchor, destination, amount);
        device.active = moved > 0;
        proof {
            lemma_surface_frame(*old(world), *world);
            assert(device.active == (surface_move(*old(world), old(device).anchor, destination, amount) > 0));
            assert(exists|destination: CellPos| {
                &&& !conduit_at(topology@, step_spec(old(device).anchor, direction_spec(old(device).rotation)))
                    ==> destination == step_spec(old(device).anchor, direction_spec(old(device).rotation))
                &&& device.active == (#[trigger] surface_move(*old(world), old(device).anchor, destination, amount) > 0)
                &&& surface_moved(*old(world), *world, old(device).anchor, destination, surface_move(*old(world), old(device).anchor, destination, amount))
            });
        }
    } else {
        device.active = false;
    }
}

/// What a reservoir takes in this tick: its cell's surface volume, up to the room
/// left in its 8000 vU store; nothing where its cell or the cell's surface is empty.
pub open spec fn reservoir_intake(world: SimulationWorld, device: DeviceState) -> int {
    match world.index_of(device.anchor) {
        Some(i) => {
            let surface = world.cells@[i as int].surface@;
            let room = if device.stored_vu >= 8_000 { 0 } else { 8_000 - device.stored_vu };
            if surface.len() == 0 { 0 } else { min_int(seq_volume(surface) as int, room) }
        },
        None => 0,
    }
}

/// The most a reservoir holding `stored` releases: 800 vU scaled down by its hold setting.
pub open spec fn reservoir_release_cap(device: DeviceState, stored: int) -> int {
    let hold = if device.setting_bp >= 10_000 { 0 } else { 10_000 - device.setting_bp };
    min_int(stored, hold * 800 / 10_000)
}

/// The volume of the first surface entry of a device's cell (none off the grid).
pub open spec fn first_surface_volume(world: SimulationWorld, device: DeviceState) -> int {
    match world.index_of(device.anchor) {
        Some(i) => if world.cells@[i as int].surface@.len() > 0 {
            world.cells@[i as int].surface@[0].volume_vu as int
        } else {
            0
        },
        None => 0,
    }
}

/// A reservoir works this tick: it is enabled and powered and its cell exists.
pub open spec fn reservoir_works(world: SimulationWorld, device: DeviceState) -> bool {
    device.enabled && device.powered && world.index_of(device.anchor) is Some
}

/// A reservoir takes in as much of its cell's surface as its 8000 vU store has room
/// for, removing that amount of the first surface fluid, then releases up to 800
/// vU (less as its hold setting rises) of the stored fluid at its outlet or at the
/// end of the conduit run there.
#[verifier::rlimit(100)]
#[verifier::spinoff_prover]
fn tick_reservoir(device: &mut DeviceState, world: &mut SimulationWorld, topology: &[DeviceState])
    requires
        old(world).wf(),
        topology_ok(topology@),
        old(device).anchor.x < 32767,
        old(device).anchor.y < 32767,
        old(device).power_generated <= 4,
    ensures
        reservoir_ticked(*old(device), *final(device), *old(world), *final(world), topology@),
        reservoir_intake(*old(world), *old(device)) <= first_surface_volume(*old(world), *old(device))
            ==> held(*final(world), *final(device)) == held(*old(world), *old(device)),
{
    if !device.enabled || !device.powered {
        return;
    }
    let index = match world.index(device.anchor) {
        Some(i) => i,
        None => return,
    };
    proof {
        lemma_grid_index_bound(world.width, world.height, device.anchor);
        assert(world.cells@[index as int].wf());
    }
    let room = 8_000u32.saturating_sub(device.stored_vu);
    let volume = world.cells[index].surface_volume();
    let accepted = if volume <= room { volume } else { room };
    if accepted > 0 {
        if world.cells[index].surface.len() > 0 {
            let fluid = world.cells[index].surface[0].fluid;
            let ghost cells0 = world.cells@;
            remove_fluid(&mut world.cells[index].surface, fluid, accepted);
            proof {
                let c = world.cells@[index as int];
                lemma_volume_by_fluid(c.surface@);
                assert(c.wf());
                assert(world.cells@ == cells0.update(index as int, c));
                lemma_entry_at(cells0[index as int].surface@, 0);
                lemma_cells_material_update(cells0, index as int, c);
            }
            device.stored_vu = device.stored_vu + accepted;
            device.stored_fluid = Some(fluid);
            device.active = true;
        }
    }
    let hold: u32 = 10_000u32.saturating_sub(device.setting_bp as u32);
    let by_setting: u32 = hold * 800 / 10_000;
    let release = if device.stored_vu <= by_setting { device.stored_vu } else { by_setting };
    if release == 0 {
        return;
    }
    let fluid = match device.stored_fluid {
        Some(f) => f,
        None => return,
    };
    let outlet = footprint_outlet(device);
    let destination = match pipe_endpoint(topology, outlet, direction(device.rotation), Some(device.anchor)) {
        Some(p) => p,
        None => outlet,
    };
    if let Some(destination_index) = world.index(destination) {
        proof {
            lemma_grid_index_bound(world.width, world.height, destination);
            assert(world.cells@[destination_index as int].wf());
        }
        let ghost cells1 = world.cells@;
        let moved = world.cells[destination_index].add_surface(FluidEntry::new(fluid, release));
        proof {
            let c = world.cells@[destination_index as int];
            lemma_volume_by_fluid(c.surface@);
            assert(c.wf());
            assert(world.cells@ == cells1.update(destination_index as int, c));
            lemma_cells_material_update(cells1, destination_index as int, c);
        }
        device.stored_vu = device.stored_vu - moved;
        if device.stored_vu == 0 {
            device.stored_fluid = None;
        }
        device.active = device.active || moved > 0;
    }
}

/// What a spillway lets over this tick: the surface above 2000 vU in its cell, at
/// most 500 vU; `None` where its cell is missing or not that deep.
pub open spec fn spillway_amount(world: SimulationWorld, device: DeviceState) -> Option<u32> {
    match world.index_of(device.anchor) {
        Some(i) => {
            let depth = seq_volume(world.cells@[i as int].surface@);
            if depth > 2_000 {
                Some(if depth - 2_000 <= 500 { (depth - 2_000) as u32 } else { 500u32 })
            } else {
                None
            }
        },
        None => None,
    }
}

/// What moves when `amount` of a device's cell surface is passed one step along its rotation.
pub open spec fn moved_along(world: SimulationWorld, device: DeviceState, amount: u32) -> u32 {
    match step_target(device.anchor, direction_spec(device.rotation)) {
        Some(t) => surface_move(world, device.anchor, t, amount),
        None => 0,
    }
}

/// A spillway passes up to 500 vU of surface above a 2000 vU depth one step in the
/// direction of its rotation.
fn tick_spillway(device: &mut DeviceState, world: &mut SimulationWorld)
    requires
        old(world).wf(),
        old(device).anchor.x < 32767,
        old(device).anchor.y < 32767,
        old(device).power_generated <= 4,
    ensures
        spillway_ticked(*old(device), *final(device), *old(world), *final(world), seq![]),
{
    let index = match world.index(device.anchor) {
        Some(i) => i,
        None => return,
    };
    proof {
        lemma_grid_index_bound(world.width, world.height, device.anchor);
        assert(world.cells@[index as int].wf());
    }
    let depth = world.cells[index].surface_volume();
    if depth > 2_000 {
        let excess = depth - 2_000;
        let amount = if excess <= 500 { excess } else { 500 };
        let moved = transfer_surface(world, device.anchor, direction(device.rotation), amount);
        device.active = moved > 0;
        proof {
            lemma_surface_frame(*old(world), *world);
        }
    }
}

/// A sensor is active while its cell holds at least 500 vU of surface material.
fn tick_sensor(device: &mut DeviceState, world: &SimulationWorld)
    requires
        world.wf(),
    ensures
        sensor_ticked(*old(device), *final(device), *world, *world, seq![]),
{
    if device.enabled && device.powered {
        if let Some(index) = world.index(device.anchor) {
            proof {
                lemma_grid_index_bound(world.width, world.height, device.anchor);
                assert(world.cells@[index as int].wf());
            }
            device.active = world.cells[index].surface_volume() >= 500;
        }
    }
}

/// A slurry entry with its contamination lowered by 2500 bp, to no less than zero.
pub open spec fn filtered_entry(e: FluidEntry) -> FluidEntry {
    FluidEntry { contamination_bp: if e.contamination_bp >= 2_500 { (e.contamination_bp - 2_500) as u16 } else { 0 }, ..e }
}

/// A filter works this tick: it is enabled and powered, its cell exists and holds slurry.
pub open spec fn filter_works(device: DeviceState, world: SimulationWorld) -> bool {
    &&& device.enabled
    &&& device.powered
    &&& world.index_of(device.anchor) is Some
    &&& has_fluid(world.cells@[world.index_of(device.anchor)->0 as int].surface@, FluidId::ToxicSlurry)
}

/// A filter lowers the contamination of slurry in its cell by 2500 bp without
/// changing its volume.
fn tick_filter(device: &mut DeviceState, world: &mut SimulationWorld)
    requires
        old(world).wf(),
        old(device).power_generated <= 4,
    ensures
        filter_ticked(*old(device), *final(device), *old(world), *final(world), seq![]),
{
    if !device.enabled || !device.powered {
        return;
    }
    if let Some(index) = world.index(device.anchor) {
        proof {
            lemma_grid_index_bound(world.width, world.height, device.anchor);
            assert(world.cells@[index as int].wf());
        }
        if let Some(k) = find_fluid(&world.cells[index].surface, FluidId::ToxicSlurry) {
            let ghost cells0 = world.cells@;
            let entry = world.cells[index].surface[k];
            let cleaned = FluidEntry { contamination_bp: entry.contamination_bp.saturating_sub(2_500), ..entry };
            world.cells[index].surface.set(k, cleaned);
            proof {
                let c = world.cells@[index as int];
                let s0 = cells0[index as int].surface@;
                assert(c.surface@ == s0.update(k as int, cleaned));
                lemma_entry_at_first(s0, FluidId::ToxicSlurry, k as int);
                lemma_update_same_fluid(s0, k as int, cleaned);
                assert(entries_wf(c.surface@)) by {
                    assert forall|a: int, b: int| 0 <= a < b < c.surface@.len() implies (#[trigger] c.surface@[a].fluid).rank_spec()
                        < (#[trigger] c.surface@[b].fluid).rank_spec() by {
                        assert(s0[a].fluid.rank_spec() < s0[b].fluid.rank_spec());
                    }
                }
                crate::simulation::process::lemma_same_volumes(s0, c.surface@);
                assert(c.wf());
                lemma_cells_material_update(cells0, index as int, c);
                assert(world.cells@ == cells0.update(index as int, c));
            }
            device.active = true;
        }
    }
}

/// A rune relay draws up to 400 vU of water per tick into its 2000 vU store and is
/// active while it holds at least 100 vU.
fn tick_relay(device: &mut DeviceState, world: &mut SimulationWorld)
    requires
        old(world).wf(),
        old(device).power_generated <= 4,
    ensures
        relay_ticked(*old(device), *final(device), *old(world), *final(world), seq![]),
{
    if !device.enabled || !device.powered {
        return;
    }
    let index = match world.index(device.anchor) {
        Some(i) => i,
        None => return,
    };
    proof {
        lemma_grid_index_bound(world.width, world.height, device.anchor);
        assert(world.cells@[index as int].wf());
    }
    let water = crate::simulation::volume(&world.cells[index].surface, FluidId::Water);
    let room = 2_000u32.saturating_sub(device.stored_vu);
    let mut intake = if water <= 400 { water } else { 400 };
    if intake > room {
        intake = room;
    }
    if intake > 0 {
        let ghost cells0 = world.cells@;
        remove_fluid(&mut world.cells[index].surface, FluidId::Water, intake);
        proof {
            let c = world.cells@[index as int];
            lemma_volume_by_fluid(c.surface@);
            assert(c.wf());
            lemma_cells_material_update(cells0, index as int, c);
            assert(world.cells@ == cells0.update(index as int, c));
        }
        device.stored_vu = device.stored_vu + intake;
        device.stored_fluid = Some(FluidId::Water);
    }
    device.active = device.stored_vu >= 100;
}

/// The turbine-relevant volume of a cell: airborne steam, or surface water.
pub open spec fn turbine_volume(cell: SimCell, fluid: FluidId) -> nat {
    if fluid == FluidId::Steam {
        fluid_volume(cell.airborne@, fluid)
    } else {
        fluid_volume(cell.surface@, fluid)
    }
}

/// What the source cells offer a turbine, each capped at 400 vU.
pub open spec fn capped_supply(cells: Seq<SimCell>, sources: Seq<usize>, fluid: FluidId) -> int
    decreases sources.len(),
{
    if sources.len() == 0 {
        0
    } else {
        capped_supply(cells, sources.drop_last(), fluid) + min_int(
            turbine_volume(cells[sources.last() as int], fluid) as int,
            400,
        )
    }
}

/// Some cell holds airborne steam.
pub open spec fn steam_somewhere(cells: Seq<SimCell>) -> bool {
    exists|i: int| 0 <= i < cells.len() && fluid_volume((#[trigger] cells[i]).airborne@, FluidId::Steam) > 0
}

/// The `a`th cell at a pipe: its own, then north, east, south and west.
pub open spec fn around_at(pipe: CellPos, a: int) -> CellPos {
    if a == 0 {
        pipe
    } else if a == 1 {
        crate::devices::network::step_spec(pipe, (0i16, -1i16))
    } else if a == 2 {
        crate::devices::network::step_spec(pipe, (1i16, 0i16))
    } else if a == 3 {
        crate::devices::network::step_spec(pipe, (0i16, 1i16))
    } else {
        crate::devices::network::step_spec(pipe, (-1i16, 0i16))
    }
}

/// Cell `c` lies at or beside a pipe connected to the turbine at `anchor`, among
/// the pipes before `p` in `topology`, or among the first `a` cells at pipe `p`.
pub open spec fn beside_pipe(world: SimulationWorld, topology: Seq<DeviceState>, anchor: CellPos, c: int, p: int, a: int) -> bool {
    exists|q: int, b: int|
        {
            &&& 0 <= q < topology.len()
            &&& 0 <= b < 5
            &&& q < p || (q == p && b < a)
            &&& topology[q].device == DeviceId::Pipe
            &&& crate::devices::network::pipe_connected_spec(topology, anchor, topology[q].anchor)
            &&& #[trigger] world.index_of(around_at(topology[q].anchor, b)) == Some(c as usize)
        }
}

/// Cell `c` holds steam in the air or water on the surface.
pub open spec fn holds_feed(world: SimulationWorld, c: int) -> bool {
    fluid_volume(world.cells@[c].airborne@, FluidId::Steam) > 0 || fluid_volume(world.cells@[c].surface@, FluidId::Water) > 0
}

/// The cells at and around the pipes connected to a turbine that hold steam in the
/// air or water on the surface, each listed once, without the turbine's own cell.
fn turbine_sources(world: &SimulationWorld, topology: &[DeviceState], anchor: CellPos, index: usize) -> (sources: Vec<usize>)
    requires
        world.wf(),
        topology_ok(topology@),
        index < world.cells@.len(),
    ensures
        sources@.no_duplicates(),
        forall|k: int| 0 <= k < sources@.len() ==> (#[trigger] sources@[k]) < world.cells@.len() && sources@[k] != index,
        forall|c: int|
            #![trigger beside_pipe(*world, topology@, anchor, c, topology@.len() as int, 0)]
            #![trigger holds_feed(*world, c)]
            0 <= c < world.cells@.len() ==> (sources@.contains(c as usize) <==> (c != index && holds_feed(*world, c)
                && beside_pipe(*world, topology@, anchor, c, topology@.len() as int, 0))),
{
    let mut sources: Vec<usize> = Vec::new();
    let mut p: usize = 0;
    while p < topology.len()
        invariant
            p <= topology@.len(),
            world.wf(),
            sources@.no_duplicates(),
            forall|k: int| 0 <= k < sources@.len() ==> (#[trigger] sources@[k]) < world.cells@.len() && sources@[k] != index,
            topology_ok(topology@),
            index < world.cells@.len(),
            forall|c: int|
                #![trigger beside_pipe(*world, topology@, anchor, c, p as int, 0)]
                #![trigger holds_feed(*world, c)]
                0 <= c < world.cells@.len() ==> (sources@.contains(c as usize) <==> (c != index && holds_feed(*world, c)
                    && beside_pipe(*world, topology@, anchor, c, p as int, 0))),
        decreases topology@.len() - p,
    {
        let pipe = topology[p];
        if pipe.device == DeviceId::Pipe && pipe_connected(topology, anchor, pipe.anchor) {
            let around = [
                pipe.anchor,
                step(pipe.anchor, (0, -1)),
                step(pipe.anchor, (1, 0)),
                step(pipe.anchor, (0, 1)),
                step(pipe.anchor, (-1, 0)),
            ];
            proof {
                assert(around@ =~= seq![around_at(pipe.anchor, 0), around_at(pipe.anchor, 1), around_at(pipe.anchor, 2), around_at(pipe.anchor, 3), around_at(pipe.anchor, 4)]);
            }
            let mut a: usize = 0;
            while a < 5
                invariant
                    a <= 5,
                    p < topology@.len(),
                    pipe == topology@[p as int],
                    pipe.device == DeviceId::Pipe,
                    crate::devices::network::pipe_connected_spec(topology@, anchor, pipe.anchor),
                    forall|b: int| 0 <= b < 5 ==> #[trigger] around@[b] == around_at(pipe.anchor, b),
                    world.wf(),
                    sources@.no_duplicates(),
                    forall|k: int| 0 <= k < sources@.len() ==> (#[trigger] sources@[k]) < world.cells@.len() && sources@[k] != index,
                    index < world.cells@.len(),
                    forall|c: int|
                        #![trigger beside_pipe(*world, topology@, anchor, c, p as int, a as int)]
                        #![trigger holds_feed(*world, c)]
                        0 <= c < world.cells@.len() ==> (sources@.contains(c as usize) <==> (c != index && holds_feed(*world, c)
                            && beside_pipe(*world, topology@, anchor, c, p as int, a as int))),
                decreases 5 - a,
            {
                let position = around[a];
                let ghost before = sources@;
                if let Some(source) = world.index(position) {
                    proof {
                        lemma_grid_index_bound(world.width, world.height, position);
                        assert(world.cells@[source as int].wf());
                    }
                    let has_steam = crate::simulation::volume(&world.cells[source].airborne, FluidId::Steam) > 0;
                    let has_water = crate::simulation::volume(&world.cells[source].surface, FluidId::Water) > 0;
                    let mut seen = false;
                    let mut q: usize = 0;
                    while q < sources.len()
                        invariant
                            q <= sources@.len(),
                            seen == exists|m: int| 0 <= m < q && sources@[m] == source,
                        decreases sources@.len() - q,
                    {
                        if sources[q] == source {
                            seen = true;
                        }
                        q = q + 1;
                    }
                    if source != index && !seen && (has_steam || has_water) {
                        sources.push(source);
                    }
                    proof {
                        assert forall|c: int|
                            #![trigger beside_pipe(*world, topology@, anchor, c, p as int, a as int + 1)]
                            #![trigger holds_feed(*world, c)]
                            0 <= c < world.cells@.len() implies (sources@.contains(c as usize) <==> (c != index && holds_feed(*world, c)
                                && beside_pipe(*world, topology@, anchor, c, p as int, a as int + 1))) by {
                            assert(before.contains(c as usize) <==> (c != index && holds_feed(*world, c) && beside_pipe(*world, topology@, anchor, c, p as int, a as int)));
                            assert(position == around_at(pipe.anchor, a as int));
                            if beside_pipe(*world, topology@, anchor, c, p as int, a as int + 1) && !beside_pipe(*world, topology@, anchor, c, p as int, a as int) {
                                let (q, b) = choose|q: int, b: int| {
                                    &&& 0 <= q < topology@.len()
                                    &&& 0 <= b < 5
                                    &&& q < p || (q == p && b < a + 1)
                                    &&& topology@[q].device == DeviceId::Pipe
                                    &&& crate::devices::network::pipe_connected_spec(topology@, anchor, topology@[q].anchor)
                                    &&& #[trigger] world.index_of(around_at(topology@[q].anchor, b)) == Some(c as usize)
                                };
                                assert(q == p && b == a);
                                assert(c == source);
                            }
                            if c == source {
                                assert(world.index_of(around_at(topology@[p as int].anchor, a as int)) == Some(c as usize));
                                assert(beside_pipe(*world, topology@, anchor, c, p as int, a as int + 1));
                                assert(holds_feed(*world, c) == (has_steam || has_water));
                                if seen {
                                    let m = choose|m: int| 0 <= m < q && before[m] == source;
                                    assert(before.contains(source));
                                }
                            }
                            if beside_pipe(*world, topology@, anchor, c, p as int, a as int) {
                                let (q, b) = choose|q: int, b: int| {
                                    &&& 0 <= q < topology@.len()
                                    &&& 0 <= b < 5
                                    &&& q < p || (q == p && b < a)
                                    &&& topology@[q].device == DeviceId::Pipe
                                    &&& crate::devices::network::pipe_connected_spec(topology@, anchor, topology@[q].anchor)
                                    &&& #[trigger] world.index_of(around_at(topology@[q].anchor, b)) == Some(c as usize)
                                };
                                assert(beside_pipe(*world, topology@, anchor, c, p as int, a as int + 1));
                            }
                            if sources@.len() != before.len() {
                                assert(sources@ == before.push(source));
                                if sources@.contains(c as usize) {
                                    let m = choose|m: int| 0 <= m < sources@.len() && sources@[m] == c as usize;
                                    if m < before.len() {
                                        assert(before[m] == c as usize);
                                    }
                                }
                                if before.contains(c as usize) {
                                    let m = choose|m: int| 0 <= m < before.len() && before[m] == c as usize;
                                    assert(sources@[m] == c as usize);
                                }
                                if c == source {
                                    assert(sources@[before.len() as int] == source);
                                }
                            }
                        }
                    }
                } else {
                    proof {
                        assert forall|c: int|
                            0 <= c < world.cells@.len() implies (beside_pipe(*world, topology@, anchor, c, p as int, a as int + 1)
                                == #[trigger] beside_pipe(*world, topology@, anchor, c, p as int, a as int)) by {
                            if beside_pipe(*world, topology@, anchor, c, p as int, a as int + 1) {
                                let (q, b) = choose|q: int, b: int| {
                                    &&& 0 <= q < topology@.len()
                                    &&& 0 <= b < 5
                                    &&& q < p || (q == p && b < a + 1)
                                    &&& topology@[q].device == DeviceId::Pipe
                                    &&& crate::devices::network::pipe_connected_spec(topology@, anchor, topology@[q].anchor)
                                    &&& #[trigger] world.index_of(around_at(topology@[q].anchor, b)) == Some(c as usize)
                                };
                                if q == p && b == a {
                                    assert(world.index_of(position) is None);
                                }
                            }
                        }
                        assert forall|c: int|
                            #![trigger beside_pipe(*world, topology@, anchor, c, p as int, a as int + 1)]
                            #![trigger holds_feed(*world, c)]
                            0 <= c < world.cells@.len() implies (sources@.contains(c as usize) <==> (c != index && holds_feed(*world, c)
                                && beside_pipe(*world, topology@, anchor, c, p as int, a as int + 1))) by {
                            assert(beside_pipe(*world, topology@, anchor, c, p as int, a as int + 1) == beside_pipe(*world, topology@, anchor, c, p as int, a as int));
                        }
                    }
                }
                a = a + 1;
            }
            proof {
                assert forall|c: int|
                    0 <= c < world.cells@.len() implies (beside_pipe(*world, topology@, anchor, c, p as int + 1, 0)
                        == #[trigger] beside_pipe(*world, topology@, anchor, c, p as int, 5)) by {
                    if beside_pipe(*world, topology@, anchor, c, p as int + 1, 0) {
                        let (q, b) = choose|q: int, b: int| {
                            &&& 0 <= q < topology@.len()
                            &&& 0 <= b < 5
                            &&& q < p + 1 || (q == p + 1 && b < 0)
                            &&& topology@[q].device == DeviceId::Pipe
                            &&& crate::devices::network::pipe_connected_spec(topology@, anchor, topology@[q].anchor)
                            &&& #[trigger] world.index_of(around_at(topology@[q].anchor, b)) == Some(c as usize)
                        };
                        assert(q < p || (q == p && b < 5));
                    }
                    if beside_pipe(*world, topology@, anchor, c, p as int, 5) {
                        let (q, b) = choose|q: int, b: int| {
                            &&& 0 <= q < topology@.len()
                            &&& 0 <= b < 5
                            &&& q < p || (q == p && b < 5)
                            &&& topology@[q].device == DeviceId::Pipe
                            &&& crate::devices::network::pipe_connected_spec(topology@, anchor, topology@[q].anchor)
                            &&& #[trigger] world.index_of(around_at(topology@[q].anchor, b)) == Some(c as usize)
                        };
                        assert(q < p + 1);
                    }
                }
                assert forall|c: int|
                    #![trigger beside_pipe(*world, topology@, anchor, c, p as int + 1, 0)]
                    #![trigger holds_feed(*world, c)]
                    0 <= c < world.cells@.len() implies (sources@.contains(c as usize) <==> (c != index && holds_feed(*world, c)
                        && beside_pipe(*world, topology@, anchor, c, p as int + 1, 0))) by {
                    assert(beside_pipe(*world, topology@, anchor, c, p as int + 1, 0) == beside_pipe(*world, topology@, anchor, c, p as int, 5));
                }
            }
        } else {
            proof {
                assert forall|c: int|
                    0 <= c < world.cells@.len() implies (beside_pipe(*world, topology@, anchor, c, p as int + 1, 0)
                        == #[trigger] beside_pipe(*world, topology@, anchor, c, p as int, 0)) by {
                    if beside_pipe(*world, topology@, anchor, c, p as int + 1, 0) {
                        let (q, b) = choose|q: int, b: int| {
                            &&& 0 <= q < topology@.len()
                            &&& 0 <= b < 5
                            &&& q < p + 1 || (q == p + 1 && b < 0)
                            &&& topology@[q].device == DeviceId::Pipe
                            &&& crate::devices::network::pipe_connected_spec(topology@, anchor, topology@[q].anchor)
                            &&& #[trigger] world.index_of(around_at(topology@[q].anchor, b)) == Some(c as usize)
                        };
                        assert(q != p);
                    }
                    if beside_pipe(*world, topology@, anchor, c, p as int, 0) {
                        let (q, b) = choose|q: int, b: int| {
                            &&& 0 <= q < topology@.len()
                            &&& 0 <= b < 5
                            &&& q < p || (q == p && b < 0)
                            &&& topology@[q].device == DeviceId::Pipe
                            &&& crate::devices::network::pipe_connected_spec(topology@, anchor, topology@[q].anchor)
                            &&& #[trigger] world.index_of(around_at(topology@[q].anchor, b)) == Some(c as usize)
                        };
                        assert(q < p + 1);
                    }
                }
                assert forall|c: int|
                    #![trigger beside_pipe(*world, topology@, anchor, c, p as int + 1, 0)]
                    #![trigger holds_feed(*world, c)]
                    0 <= c < world.cells@.len() implies (sources@.contains(c as usize) <==> (c != index && holds_feed(*world, c)
                        && beside_pipe(*world, topology@, anchor, c, p as int + 1, 0))) by {
                    assert(beside_pipe(*world, topology@, anchor, c, p as int + 1, 0) == beside_pipe(*world, topology@, anchor, c, p as int, 0));
                }
            }
        }
        p = p + 1;
    }
    sources
}

/// Whether any cell holds airborne steam.
fn steam_anywhere(world: &SimulationWorld) -> (found: bool)
    requires
        world.wf(),
    ensures
        found == steam_somewhere(world.cells@),
{
    let mut c: usize = 0;
    while c < world.cells.len()
        invariant
            c <= world.cells@.len(),
            world.wf(),
            forall|i: int| 0 <= i < c ==> fluid_volume((#[trigger] world.cells@[i]).airborne@, FluidId::Steam) == 0,
        decreases world.cells@.len() - c,
    {
        proof {
            assert(world.cells@[c as int].wf());
        }
        if crate::simulation::volume(&world.cells[c].airborne, FluidId::Steam) > 0 {
            return true;
        }
        c = c + 1;
    }
    false
}

/// The capped supply of the source cells, saturating at `u32::MAX`.
fn turbine_supply(world: &SimulationWorld, sources: &Vec<usize>, fluid: FluidId) -> (total: u32)
    requires
        world.wf(),
        forall|k: int| 0 <= k < sources@.len() ==> (#[trigger] sources@[k]) < world.cells@.len(),
    ensures
        total == min_int(capped_supply(world.cells@, sources@, fluid), u32::MAX as int),
{
    let mut total: u32 = 0;
    let mut q: usize = 0;
    while q < sources.len()
        invariant
            q <= sources@.len(),
            world.wf(),
            forall|k: int| 0 <= k < sources@.len() ==> (#[trigger] sources@[k]) < world.cells@.len(),
            total == min_int(capped_supply(world.cells@, sources@.take(q as int), fluid), u32::MAX as int),
        decreases sources@.len() - q,
    {
        let v = material_for_turbine(world, sources[q], fluid);
        let capped = if v <= 400 { v } else { 400 };
        proof {
            let t = sources@.take(q as int + 1);
            assert(t.drop_last() == sources@.take(q as int));
            assert(t.last() == sources@[q as int]);
            assert(capped_supply(world.cells@, sources@.take(q as int), fluid) >= 0) by {
                lemma_capped_supply_nonnegative(world.cells@, sources@.take(q as int), fluid);
            }
        }
        total = total.saturating_add(capped);
        q = q + 1;
    }
    proof {
        assert(sources@.take(sources@.len() as int) == sources@);
    }
    total
}

proof fn lemma_capped_supply_nonnegative(cells: Seq<SimCell>, sources: Seq<usize>, fluid: FluidId)
    ensures
        capped_supply(cells, sources, fluid) >= 0,
    decreases sources.len(),
{
    if sources.len() > 0 {
        lemma_capped_supply_nonnegative(cells, sources.drop_last(), fluid);
    }
}

/// One draw, while `r0` is left to draw: `source` gives what it holds of `fluid`, up
/// to `r0`, leaving `r1`.
pub open spec fn drew_once(c0: Seq<SimCell>, c1: Seq<SimCell>, r0: u32, r1: u32, source: usize, fluid: FluidId) -> bool {
    let take = min_int(turbine_volume(c0[source as int], fluid) as int, r0 as int);
    &&& r0 > 0
    &&& r1 == r0 - take
    &&& c1 == c0.update(source as int, c1[source as int])
    &&& material_removed(c0[source as int], c1[source as int], fluid, take as u32)
}

/// The cells `cs` and amounts left `rs` before and after each draw from `sources` in order.
pub open spec fn draw_steps(cs: Seq<Seq<SimCell>>, rs: Seq<u32>, sources: Seq<usize>, fluid: FluidId) -> bool {
    &&& cs.len() == rs.len()
    &&& 1 <= cs.len() <= sources.len() + 1
    &&& forall|i: int| 0 <= i < cs.len() - 1 ==> drew_once(#[trigger] cs[i], cs[i + 1], rs[i], rs[i + 1], sources[i], fluid)
}

/// `c1` is `c0` after drawing `amount` of `fluid` from `sources` in order, each giving
/// what it holds, until the amount is met or the sources run out.
pub open spec fn drawn(c0: Seq<SimCell>, c1: Seq<SimCell>, sources: Seq<usize>, fluid: FluidId, amount: u32) -> bool {
    exists|cs: Seq<Seq<SimCell>>, rs: Seq<u32>| {
        &&& #[trigger] draw_steps(cs, rs, sources, fluid)
        &&& cs[0] == c0
        &&& rs[0] == amount
        &&& cs.last() == c1
        &&& (cs.len() == sources.len() + 1 || rs.last() == 0)
    }
}

/// One more draw extends a run of draws.
proof fn lemma_draw_push(cs: Seq<Seq<SimCell>>, rs: Seq<u32>, sources: Seq<usize>, fluid: FluidId, c1: Seq<SimCell>, r1: u32)
    requires
        draw_steps(cs, rs, sources, fluid),
        cs.len() <= sources.len(),
        drew_once(cs.last(), c1, rs.last(), r1, sources[cs.len() - 1], fluid),
    ensures
        forall|i: int| 0 <= i < cs.len() ==> drew_once(#[trigger] cs.push(c1)[i], cs.push(c1)[i + 1], rs.push(r1)[i], rs.push(r1)[i + 1], sources[i], fluid),
{
    let cs2 = cs.push(c1);
    let rs2 = rs.push(r1);
    assert forall|i: int| 0 <= i < cs.len() implies drew_once(#[trigger] cs2[i], cs2[i + 1], rs2[i], rs2[i + 1], sources[i], fluid) by {
        if i < cs.len() - 1 {
            assert(cs2[i] == cs[i] && cs2[i + 1] == cs[i + 1] && rs2[i] == rs[i] && rs2[i + 1] == rs[i + 1]);
            assert(drew_once(cs[i], cs[i + 1], rs[i], rs[i + 1], sources[i], fluid));
        } else {
            assert(cs2[i] == cs.last() && rs2[i] == rs.last());
        }
    }
}

/// Draw `amount` vU from the source cells in order, each giving what it holds.
fn draw_from_sources(world: &mut SimulationWorld, sources: &Vec<usize>, fluid: FluidId, amount: u32)
    requires
        old(world).wf(),
        forall|k: int| 0 <= k < sources@.len() ==> (#[trigger] sources@[k]) < old(world).cells@.len(),
    ensures
        layers_only(*old(world), *final(world)),
        drawn(old(world).cells@, final(world).cells@, sources@, fluid, amount),
{
    let mut remaining = amount;
    let mut q: usize = 0;
    let ghost mut cs: Seq<Seq<SimCell>> = seq![world.cells@];
    let ghost mut rs: Seq<u32> = seq![amount];
    while q < sources.len() && remaining > 0
        invariant
            q <= sources@.len(),
            layers_only(*old(world), *world),
            forall|k: int| 0 <= k < sources@.len() ==> (#[trigger] sources@[k]) < world.cells@.len(),
            draw_steps(cs, rs, sources@, fluid),
            cs.len() == q + 1,
            cs[0] == old(world).cells@,
            rs[0] == amount,
            cs.last() == world.cells@,
            rs.last() == remaining,
        decreases sources@.len() - q,
    {
        let source = sources[q];
        let v = material_for_turbine(world, source, fluid);
        let take = if v <= remaining { v } else { remaining };
        let ghost c0 = world.cells@;
        remove_turbine_material(world, source, fluid, take);
        let ghost r0 = remaining;
        remaining = remaining - take;
        proof {
            assert(drew_once(c0, world.cells@, r0, remaining, sources@[q as int], fluid));
            lemma_draw_push(cs, rs, sources@, fluid, world.cells@, remaining);
            cs = cs.push(world.cells@);
            rs = rs.push(remaining);
            assert(draw_steps(cs, rs, sources@, fluid));
        }
        q = q + 1;
    }
}

/// The anchor of the first rune relay connected to `anchor` by conduits, if any.
fn connected_relay(topology: &[DeviceState], anchor: CellPos) -> (found: Option<CellPos>)
    ensures
        found matches Some(p) ==> exists|i: int| 0 <= i < topology@.len() && (#[trigger] topology@[i]).anchor == p
            && topology@[i].device == DeviceId::RuneRelay && pipe_connected_spec(topology@, anchor, p),
        found is None ==> forall|i: int| 0 <= i < topology@.len() && (#[trigger] topology@[i]).device == DeviceId::RuneRelay
            ==> !pipe_connected_spec(topology@, anchor, topology@[i].anchor),
{
    let mut r: usize = 0;
    while r < topology.len()
        invariant
            r <= topology@.len(),
            forall|i: int| 0 <= i < r && (#[trigger] topology@[i]).device == DeviceId::RuneRelay
                ==> !pipe_connected_spec(topology@, anchor, topology@[i].anchor),
        decreases topology@.len() - r,
    {
        let candidate = topology[r];
        if candidate.device == DeviceId::RuneRelay && pipe_connected(topology, anchor, candidate.anchor) {
            return Some(candidate.anchor);
        }
        r = r + 1;
    }
    None
}

/// A cell after `amount` of `fluid` returned to it: steam into the air, anything
/// else as water onto the surface, as much as the layer holds.
pub open spec fn material_returned(before: SimCell, after: SimCell, fluid: FluidId, amount: u32) -> bool {
    if fluid == FluidId::Steam {
        &&& after.surface == before.surface
        &&& layer_after_add(before.airborne@, after.airborne@, fresh_entry(FluidId::Steam, amount),
            accepted_volume(amount, seq_volume(before.airborne@)))
    } else {
        &&& after.airborne == before.airborne
        &&& layer_after_add(before.surface@, after.surface@, fresh_entry(FluidId::Water, amount),
            accepted_volume(amount, seq_volume(before.surface@)))
    }
}

/// `w1` is `w0` after `flow` vU of spent fluid condensed as water at `target`, what
/// that cell could not hold returning to cell `index` (see `material_returned`).
pub open spec fn condensed_at(w0: SimulationWorld, w1: SimulationWorld, index: usize, target: CellPos, flow: u32, fluid: FluidId) -> bool {
    &&& w0.index_of(target) is None ==> w1 == w0
    &&& w0.index_of(target) matches Some(t) ==> {
        let accepted = accepted_volume(flow, seq_volume(w0.cells@[t as int].surface@));
        exists|mid: Seq<SimCell>| {
            &&& mid == w0.cells@.update(t as int, mid[t as int])
            &&& mid[t as int].airborne == w0.cells@[t as int].airborne
            &&& #[trigger] layer_after_add(w0.cells@[t as int].surface@, mid[t as int].surface@,
                fresh_entry(FluidId::Water, flow), accepted)
            &&& accepted == flow ==> w1.cells@ == mid
            &&& accepted < flow ==> w1.cells@ == mid.update(index as int, w1.cells@[index as int])
                && material_returned(mid[index as int], w1.cells@[index as int], fluid, (flow - accepted) as u32)
        }
    }
}

/// The cell where a turbine's spent fluid condenses: a rune relay connected to it,
/// or the turbine itself when none is.
pub open spec fn condense_target(topology: Seq<DeviceState>, anchor: CellPos, target: CellPos) -> bool {
    ||| exists|i: int| 0 <= i < topology.len() && (#[trigger] topology[i]).anchor == target
        && topology[i].device == DeviceId::RuneRelay && pipe_connected_spec(topology, anchor, target)
    ||| target == anchor && forall|i: int| 0 <= i < topology.len() && (#[trigger] topology[i]).device == DeviceId::RuneRelay
        ==> !pipe_connected_spec(topology, anchor, topology[i].anchor)
}

/// A generating turbine's fluid: its own cell gives up to `flow` (`w1`), the source
/// cells the rest in order (`w2`, see `drawn`), and `flow` condenses at `target`.
pub open spec fn turbine_fluid_moved(
    w0: SimulationWorld,
    w1: SimulationWorld,
    w2: SimulationWorld,
    w3: SimulationWorld,
    index: usize,
    sources: Seq<usize>,
    target: CellPos,
) -> bool {
    let fluid = turbine_fluid(w0, index);
    let flow = turbine_flow(w0, index, sources);
    let local = turbine_volume(w0.cells@[index as int], fluid) as int;
    let local_take = min_int(local, flow);
    &&& w1.cells@ == w0.cells@.update(index as int, w1.cells@[index as int])
    &&& material_removed(w0.cells@[index as int], w1.cells@[index as int], fluid, local_take as u32)
    &&& drawn(w1.cells@, w2.cells@, sources, fluid, (if flow >= local { flow - local } else { 0 }) as u32)
    &&& condensed_at(w2, w3, index, target, flow as u32, fluid)
}

/// Condense `flow` vU of spent fluid as water at `target`; what that cell cannot
/// hold returns to the turbine's cell as steam or water.
fn condense(world: &mut SimulationWorld, index: usize, target: CellPos, flow: u32, fluid: FluidId)
    requires
        old(world).wf(),
        index < old(world).cells@.len(),
    ensures
        layers_only(*old(world), *final(world)),
        condensed_at(*old(world), *final(world), index, target, flow, fluid),
{
    if let Some(target_index) = world.index(target) {
        proof {
            lemma_grid_index_bound(world.width, world.height, target);
            assert(world.cells@[target_index as int].wf());
        }
        let ghost cells0 = world.cells@;
        let condensed = world.cells[target_index].add_surface(FluidEntry::new(FluidId::Water, flow));
        let ghost mid = world.cells@;
        proof {
            let c = world.cells@[target_index as int];
            lemma_volume_by_fluid(c.surface@);
            assert(c.wf());
            assert(world.cells@ == cells0.update(target_index as int, c));
            assert(world.cells@[index as int].wf());
            assert(layer_after_add(old(world).cells@[target_index as int].surface@, mid[target_index as int].surface@,
                fresh_entry(FluidId::Water, flow), condensed));
        }
        if condensed < flow {
            let remainder = flow - condensed;
            let ghost cells1 = world.cells@;
            if fluid == FluidId::Steam {
                let ghost air0 = world.cells@[index as int].airborne@;
                world.cells[index].add_airborne(FluidEntry::new(FluidId::Steam, remainder));
                proof {
                    let c = world.cells@[index as int];
                    lemma_volume_by_fluid(c.airborne@);
                    crate::simulation::process::lemma_steam_only_after_add(air0, c.airborne@);
                    assert(c.wf());
                    assert(world.cells@ == cells1.update(index as int, c));
                }
            } else {
                world.cells[index].add_surface(FluidEntry::new(FluidId::Water, remainder));
                proof {
                    let c = world.cells@[index as int];
                    lemma_volume_by_fluid(c.surface@);
                    assert(c.wf());
                    assert(world.cells@ == cells1.update(index as int, c));
                }
            }
        }
    }
}

/// The cells a turbine in cell `index` draws from: each listed once, other than its
/// own, holding feed, at or beside a pipe connected to it.
pub open spec fn turbine_source_list(world: SimulationWorld, topology: Seq<DeviceState>, anchor: CellPos, index: usize, sources: Seq<usize>) -> bool {
    &&& sources.no_duplicates()
    &&& forall|k: int| 0 <= k < sources.len() ==> (#[trigger] sources[k]) < world.cells@.len() && sources[k] != index
    &&& forall|c: int|
        #![trigger beside_pipe(world, topology, anchor, c, topology.len() as int, 0)]
        #![trigger holds_feed(world, c)]
        0 <= c < world.cells@.len() ==> (sources.contains(c as usize) <==> (c != index && holds_feed(world, c)
            && beside_pipe(world, topology, anchor, c, topology.len() as int, 0)))
}

/// The fluid a turbine in cell `index` runs on: steam where its cell or any cell
/// holds airborne steam, else water.
pub open spec fn turbine_fluid(world: SimulationWorld, index: usize) -> FluidId {
    if fluid_volume(world.cells@[index as int].airborne@, FluidId::Steam) > 0 || steam_somewhere(world.cells@) {
        FluidId::Steam
    } else {
        FluidId::Water
    }
}

/// The flow through a turbine in cell `index` fed from `sources`: its own cell's
/// volume plus the capped supply (each sum saturating at `u32::MAX`), at most 400
/// vU, rounded down to a multiple of 40.
pub open spec fn turbine_flow(world: SimulationWorld, index: usize, sources: Seq<usize>) -> int {
    let fluid = turbine_fluid(world, index);
    let local = turbine_volume(world.cells@[index as int], fluid) as int;
    let piped = min_int(capped_supply(world.cells@, sources, fluid), u32::MAX as int);
    let total = min_int(local + piped, u32::MAX as int);
    min_int(total, 400) / 40 * 40
}

/// The power a turbine generates from a flow: one eU per 100 vU, at most 4 eU.
pub open spec fn turbine_power(flow: int) -> int {
    min_int(flow / 100, 4)
}

/// A flow turbine draws steam (or water when no steam is airborne anywhere) from
/// its cell and from cells at and around pipes connected to it, in multiples of 40
/// vU up to 400 vU, and generates one eU per 100 vU (at most 4 eU). The spent fluid
/// condenses as water at a connected rune relay, or at the turbine itself;
/// whatever that cell cannot hold returns to the turbine's cell in its original
/// phase.
#[verifier::rlimit(80)]
#[verifier::spinoff_prover]
fn tick_turbine(device: &mut DeviceState, world: &mut SimulationWorld, topology: &[DeviceState])
    requires
        old(world).wf(),
        topology_ok(topology@),
        old(device).power_generated == 0,
    ensures
        turbine_ticked(*old(device), *final(device), *old(world), *final(world), topology@),
{
    let index = match world.index(device.anchor) {
        Some(i) => i,
        None => return,
    };
    proof {
        lemma_grid_index_bound(world.width, world.height, device.anchor);
        assert(world.cells@[index as int].wf());
    }
    let local_steam = crate::simulation::volume(&world.cells[index].airborne, FluidId::Steam);
    let local_water = crate::simulation::volume(&world.cells[index].surface, FluidId::Water);
    let sources = turbine_sources(world, topology, device.anchor, index);
    let steam = local_steam > 0 || steam_anywhere(world);
    let turbine_fluid = if steam { FluidId::Steam } else { FluidId::Water };
    let local_flow = if steam { local_steam } else { local_water };
    let piped_flow = turbine_supply(world, &sources, turbine_fluid);
    let total = local_flow.saturating_add(piped_flow);
    let available = if total <= 400 { total } else { 400 };
    let flow = available / 40 * 40;
    let by_flow = flow / 100;
    device.power_generated = if by_flow <= 4 { by_flow } else { 4 };
    proof {
        assert(turbine_source_list(*old(world), topology@, old(device).anchor, index, sources@));
        assert(flow == turbine_flow(*old(world), index, sources@));
        assert(device.power_generated == turbine_power(turbine_flow(*old(world), index, sources@)));
    }
    if device.power_generated == 0 {
        return;
    }
    let local_take = if local_flow <= flow { local_flow } else { flow };
    remove_turbine_material(world, index, turbine_fluid, local_take);
    let ghost w1 = *world;
    draw_from_sources(world, &sources, turbine_fluid, flow.saturating_sub(local_flow));
    device.cumulative_power = device.cumulative_power.saturating_add(device.power_generated as u64);
    device.active = true;
    let target = match connected_relay(topology, device.anchor) {
        Some(p) => p,
        None => device.anchor,
    };
    let ghost w2 = *world;
    condense(world, index, target, flow, turbine_fluid);
    proof {
        assert forall|i: int| 0 <= i < world.cells@.len() implies same_but_layers(old(world).cells@[i], #[trigger] world.cells@[i]) by {
            assert(same_but_layers(old(world).cells@[i], w1.cells@[i]));
            assert(same_but_layers(w1.cells@[i], w2.cells@[i]));
        }
        assert(turbine_fluid == self::turbine_fluid(*old(world), index));
        assert(local_flow == turbine_volume(old(world).cells@[index as int], turbine_fluid));
        assert(condense_target(topology@, old(device).anchor, target));
        assert(turbine_fluid_moved(*old(world), w1, w2, *world, index, sources@, target));
    }
}

/// The turbine-relevant volume of a cell: airborne steam, or surface water.
fn material_for_turbine(world: &SimulationWorld, index: usize, fluid: FluidId) -> (v: u32)
    requires
        world.wf(),
        index < world.cells@.len(),
    ensures
        v == if fluid == FluidId::Steam {
            fluid_volume(world.cells@[index as int].airborne@, fluid)
        } else {
            fluid_volume(world.cells@[index as int].surface@, fluid)
        },
        v <= CELL_CAPACITY_VU,
{
    proof {
        assert(world.cells@[index as int].wf());
        lemma_volume_by_fluid(world.cells@[index as int].airborne@);
        lemma_volume_by_fluid(world.cells@[index as int].surface@);
    }
    if fluid == FluidId::Steam {
        crate::simulation::volume(&world.cells[index].airborne, fluid)
    } else {
        crate::simulation::volume(&world.cells[index].surface, fluid)
    }
}

/// A cell after up to `amount` of `fluid` left it: from the air for steam, else from
/// the surface; the other layer and the other fluids stay.
pub open spec fn material_removed(before: SimCell, after: SimCell, fluid: FluidId, amount: u32) -> bool {
    if fluid == FluidId::Steam {
        &&& after.surface == before.surface
        &&& entry_of(after.airborne@, fluid) == after_removal(entry_of(before.airborne@, fluid), amount)
        &&& forall|g: FluidId| g != fluid ==> #[trigger] entry_of(after.airborne@, g) == entry_of(before.airborne@, g)
    } else {
        &&& after.airborne == before.airborne
        &&& entry_of(after.surface@, fluid) == after_removal(entry_of(before.surface@, fluid), amount)
        &&& forall|g: FluidId| g != fluid ==> #[trigger] entry_of(after.surface@, g) == entry_of(before.surface@, g)
    }
}

/// Remove turbine material from a cell: steam from the air, anything else from the
/// surface.
fn remove_turbine_material(world: &mut SimulationWorld, index: usize, fluid: FluidId, amount: u32)
    requires
        old(world).wf(),
        index < old(world).cells@.len(),
    ensures
        layers_only(*old(world), *final(world)),
        final(world).cells@ == old(world).cells@.update(index as int, final(world).cells@[index as int]),
        material_removed(old(world).cells@[index as int], final(world).cells@[index as int], fluid, amount),
{
    proof {
        assert(world.cells@[index as int].wf());
    }
    let ghost cells0 = world.cells@;
    if fluid == FluidId::Steam {
        let ghost air0 = world.cells@[index as int].airborne@;
        remove_fluid(&mut world.cells[index].airborne, fluid, amount);
        proof {
            let c = world.cells@[index as int];
            lemma_volume_by_fluid(c.airborne@);
            crate::simulation::process::lemma_steam_only_after_removal(air0, c.airborne@);
            assert(c.wf());
            assert(world.cells@ == cells0.update(index as int, c));
        }
    } else {
        remove_fluid(&mut world.cells[index].surface, fluid, amount);
        proof {
            let c = world.cells@[index as int];
            lemma_volume_by_fluid(c.surface@);
            assert(c.wf());
            assert(world.cells@ == cells0.update(index as int, c));
        }
    }
}

/// A device changed only in its runtime state and its count of operated ticks.
pub open spec fn ticked_only(before: DeviceState, after: DeviceState) -> bool {
    &&& after == (DeviceState {
        active: after.active,
        stored_vu: after.stored_vu,
        stored_fluid: after.stored_fluid,
        power_generated: after.power_generated,
        cumulative_power: after.cumulative_power,
        operated_ticks: after.operated_ticks,
        ..before
    })
    &&& after.power_generated <= 4
}

/// `a` plus one, saturating at `u64::MAX`.
pub open spec fn saturating_inc(a: u64) -> u64 {
    if a == u64::MAX { a } else { (a + 1) as u64 }
}

/// `a` plus `b`, saturating at `u64::MAX`.
pub open spec fn saturating_sum(a: u64, b: u64) -> u64 {
    if a + b > u64::MAX { u64::MAX } else { (a + b) as u64 }
}

/// A flow turbine feeds `anchor`: it is generating, or has generated at least 40 eU
/// in all, and a conduit run links `anchor` to it.
pub open spec fn turbine_feeds(devices: Seq<DeviceState>, anchor: CellPos) -> bool {
    exists|j: int|
        0 <= j < devices.len() && (#[trigger] devices[j]).device == DeviceId::FlowTurbine && (devices[j].active
            || devices[j].cumulative_power >= 40) && pipe_connected_spec(devices, anchor, devices[j].anchor)
}

/// A rune relay is online when it is powered, enabled, holds at least 100 vU of
/// water and a turbine feeds it.
pub open spec fn relay_online(devices: Seq<DeviceState>, relay: DeviceState) -> bool {
    &&& relay.powered
    &&& relay.enabled
    &&& relay.stored_vu >= 100
    &&& turbine_feeds(devices, relay.anchor)
}

/// No device in the list can hold back or convert material: no reservoir and no
/// flow turbine.
pub open spec fn conserving(devices: Seq<DeviceState>) -> bool {
    forall|i: int| 0 <= i < devices.len() ==> (#[trigger] devices[i]).device != DeviceId::Reservoir
        && devices[i].device != DeviceId::FlowTurbine
}

/// What the device tick promises of one device, given its state before the tick
/// and whether its anchor lies on the grid.
pub open spec fn device_ticked(before: DeviceState, after: DeviceState, on_grid: bool) -> bool {
    &&& ticked_only(before, after)
    &&& after.power_generated > 0 ==> after.device == DeviceId::FlowTurbine
    &&& after.device == DeviceId::Channel ==> after.active
    &&& (after.device == DeviceId::Pipe || after.device == DeviceId::Floodgate) ==> !after.active
    &&& after.device != DeviceId::Reservoir && after.device != DeviceId::RuneRelay ==> after.stored_vu == before.stored_vu
    &&& after.device == DeviceId::FlowTurbine ==> {
        &&& after.cumulative_power == saturating_sum(before.cumulative_power, after.power_generated as u64)
        &&& after.active == (after.power_generated > 0)
    }
    &&& after.device != DeviceId::FlowTurbine ==> after.power_generated == 0 && after.cumulative_power
        == before.cumulative_power
    &&& after.device == DeviceId::Sensor ==> (after.active ==> before.enabled && before.powered && on_grid)
    &&& after.device != DeviceId::RuneRelay ==> after.operated_ticks == if after.active {
        saturating_inc(before.operated_ticks)
    } else {
        before.operated_ticks
    }
    &&& after.device == DeviceId::RuneRelay ==> after.operated_ticks == if before.enabled && before.powered && on_grid
        && after.stored_vu >= 100 {
        saturating_inc(before.operated_ticks)
    } else {
        before.operated_ticks
    }
}

/// A conduit anchored at `p` in one list is one in another list with the same kinds
/// and anchors.
proof fn lemma_conduit_at_transfer(a: Seq<DeviceState>, b: Seq<DeviceState>, p: CellPos)
    requires
        a.len() == b.len(),
        forall|i: int| 0 <= i < a.len() ==> (#[trigger] a[i]).device == b[i].device && a[i].anchor == b[i].anchor,
        conduit_at(a, p),
    ensures
        conduit_at(b, p),
{
    let i = choose|i: int| 0 <= i < a.len() && is_conduit_spec(a[i].device) && #[trigger] a[i].anchor == p;
    assert(b[i].anchor == p);
}

/// Dropping the last cell of a conduit path leaves a conduit path.
proof fn lemma_path_prefix(a: Seq<DeviceState>, first: CellPos, path: Seq<CellPos>)
    requires
        conduit_path(a, first, path),
        path.len() > 1,
    ensures
        conduit_path(a, first, path.drop_last()),
        adjacent_spec(path.drop_last().last(), path.last()),
{
    let shorter = path.drop_last();
    assert forall|k: int| 0 <= k < shorter.len() - 1 implies adjacent_spec(#[trigger] shorter[k], shorter[k + 1])
        && conduit_at(a, shorter[k + 1]) by {
        assert(shorter[k] == path[k]);
        assert(shorter[k + 1] == path[k + 1]);
    }
    assert(shorter.last() == path[path.len() - 2]);
    assert(adjacent_spec(path[path.len() - 2], path[path.len() - 1]));
}

/// The last cell of a conduit path of two or more cells is a conduit.
proof fn lemma_path_last_step(a: Seq<DeviceState>, first: CellPos, path: Seq<CellPos>)
    requires
        conduit_path(a, first, path),
        path.len() > 1,
    ensures
        conduit_at(a, path.last()),
{
    let k = path.len() - 2;
    assert(adjacent_spec(path[k], path[k + 1]) && conduit_at(a, path[k + 1]));
}

/// A conduit path carries over to a list with the same kinds and anchors.
proof fn lemma_path_transfer(a: Seq<DeviceState>, b: Seq<DeviceState>, first: CellPos, path: Seq<CellPos>)
    requires
        a.len() == b.len(),
        forall|i: int| 0 <= i < a.len() ==> (#[trigger] a[i]).device == b[i].device && a[i].anchor == b[i].anchor,
        conduit_path(a, first, path),
    ensures
        conduit_path(b, first, path),
    decreases path.len(),
{
    if path.len() > 1 {
        let shorter = path.drop_last();
        lemma_path_prefix(a, first, path);
        lemma_path_transfer(a, b, first, shorter);
        lemma_path_last_step(a, first, path);
        lemma_conduit_at_transfer(a, b, path.last());
        lemma_extend_path(b, first, shorter, path.last());
        assert(shorter.push(path.last()) =~= path);
    }
}

/// Conduit connectivity depends only on the kinds and anchors of the devices.
proof fn lemma_pipe_connected_transfer(a: Seq<DeviceState>, b: Seq<DeviceState>, first: CellPos, second: CellPos)
    requires
        a.len() == b.len(),
        forall|i: int| 0 <= i < a.len() ==> (#[trigger] a[i]).device == b[i].device && a[i].anchor == b[i].anchor,
        pipe_connected_spec(a, first, second),
    ensures
        pipe_connected_spec(b, first, second),
{
    let path = choose|path: Seq<CellPos>| #[trigger] conduit_path(a, first, path) && adjacent_spec(path.last(), second);
    lemma_path_transfer(a, b, first, path);
}

/// Conduit connectivity is the same in two lists with the same kinds and anchors.
proof fn lemma_pipe_connected_frame(a: Seq<DeviceState>, b: Seq<DeviceState>, first: CellPos, second: CellPos)
    requires
        a.len() == b.len(),
        forall|i: int| 0 <= i < a.len() ==> (#[trigger] a[i]).device == b[i].device && a[i].anchor == b[i].anchor,
    ensures
        pipe_connected_spec(a, first, second) == pipe_connected_spec(b, first, second),
{
    if pipe_connected_spec(a, first, second) {
        lemma_pipe_connected_transfer(a, b, first, second);
    }
    if pipe_connected_spec(b, first, second) {
        lemma_pipe_connected_transfer(b, a, first, second);
    }
}

/// Whether a turbine feeds `anchor` in the given devices.
fn turbine_feeding(devices: &Vec<DeviceState>, anchor: CellPos) -> (found: bool)
    ensures
        found == turbine_feeds(devices@, anchor),
{
    let mut j: usize = 0;
    while j < devices.len()
        invariant
            j <= devices@.len(),
            forall|m: int|
                0 <= m < j ==> !((#[trigger] devices@[m]).device == DeviceId::FlowTurbine && (devices@[m].active
                    || devices@[m].cumulative_power >= 40) && pipe_connected_spec(devices@, anchor, devices@[m].anchor)),
        decreases devices@.len() - j,
    {
        let turbine = devices[j];
        if turbine.device == DeviceId::FlowTurbine && (turbine.active || turbine.cumulative_power >= 40) {
            if pipe_connected(devices.as_slice(), anchor, turbine.anchor) {
                return true;
            }
        }
        j = j + 1;
    }
    false
}

/// A copy of the device list.
fn copy_devices(devices: &Vec<DeviceState>) -> (copy: Vec<DeviceState>)
    ensures
        copy@ == devices@,
{
    let mut copy: Vec<DeviceState> = Vec::new();
    let mut i: usize = 0;
    while i < devices.len()
        invariant
            i <= devices@.len(),
            copy@ == devices@.take(i as int),
        decreases devices@.len() - i,
    {
        copy.push(devices[i]);
        proof {
            assert(devices@.take(i as int + 1) == devices@.take(i as int).push(devices@[i as int]));
        }
        i = i + 1;
    }
    proof {
        assert(devices@.take(devices@.len() as int) == devices@);
    }
    copy
}

/// What `tick_pump` does to a device `d0` and the world `w0`, giving `d1` and `w1`.
pub open spec fn pump_ticked(d0: DeviceState, d1: DeviceState, w0: SimulationWorld, w1: SimulationWorld, topology: Seq<DeviceState>) -> bool {
    &&& d1.power_generated == d0.power_generated
    &&& d1.cumulative_power == d0.cumulative_power
    &&& layers_only(w0, w1)
    &&& runtime_only(d0, d1)
    &&& d1.stored_vu == d0.stored_vu
    &&& held(w1, d1) == held(w0, d0)
    &&& pump_amount(w0, d0) is None ==> w1 == w0 && d1 == d0
    &&& pump_amount(w0, d0) == Some(0u32) ==> w1 == w0 && !d1.active
    &&& pump_amount(w0, d0) is Some && pump_amount(w0, d0)->0 > 0 ==> exists|destination: CellPos| {
        &&& !conduit_at(topology, step_spec(d0.anchor, direction_spec(d0.rotation)))
            ==> destination == step_spec(d0.anchor, direction_spec(d0.rotation))
        &&& d1.active == (#[trigger] surface_move(w0, d0.anchor, destination, pump_amount(w0, d0)->0) > 0)
        &&& surface_moved(w0, w1, d0.anchor, destination, surface_move(w0, d0.anchor, destination, pump_amount(w0, d0)->0))
    }
}

/// A pump's setting bounds what it lifts: in one tick the surface of its cell
/// loses at most `setting_bp * 250 / 10000` vU (and at most 250 vU), so a pump at
/// setting 0 leaves the world unchanged; and a pump that is off or unpowered
/// changes nothing.
pub proof fn law_pump_lifts_within_setting(
    d0: DeviceState,
    d1: DeviceState,
    w0: SimulationWorld,
    w1: SimulationWorld,
    topology: Seq<DeviceState>,
)
    requires
        pump_ticked(d0, d1, w0, w1, topology),
        w0.index_of(d0.anchor) is Some,
    ensures
        ({
            let s = w0.index_of(d0.anchor)->0 as int;
            &&& seq_volume(w1.cells@[s].surface@) + d0.setting_bp * 250 / 10_000 >= seq_volume(w0.cells@[s].surface@)
            &&& seq_volume(w1.cells@[s].surface@) + 250 >= seq_volume(w0.cells@[s].surface@)
        }),
        d0.setting_bp * 250 / 10_000 == 0 ==> w1 == w0,
        !(d0.enabled && d0.powered) ==> w1 == w0 && d1 == d0,
{
    match pump_amount(w0, d0) {
        None => {},
        Some(amount) => {
            if amount > 0 {
                let destination = choose|destination: CellPos| {
                    &&& !conduit_at(topology, step_spec(d0.anchor, direction_spec(d0.rotation)))
                        ==> destination == step_spec(d0.anchor, direction_spec(d0.rotation))
                    &&& d1.active == (#[trigger] surface_move(w0, d0.anchor, destination, pump_amount(w0, d0)->0) > 0)
                    &&& surface_moved(w0, w1, d0.anchor, destination, surface_move(w0, d0.anchor, destination, pump_amount(w0, d0)->0))
                };
                let moved = surface_move(w0, d0.anchor, destination, amount);
                assert(moved <= amount);
            }
        },
    }
}

/// What `tick_reservoir` does to a device `d0` and the world `w0`, giving `d1` and `w1`.
pub open spec fn reservoir_ticked(d0: DeviceState, d1: DeviceState, w0: SimulationWorld, w1: SimulationWorld, topology: Seq<DeviceState>) -> bool {
    &&& d1.power_generated == d0.power_generated
    &&& d1.cumulative_power == d0.cumulative_power
    &&& layers_only(w0, w1)
    &&& runtime_only(d0, d1)
    &&& !reservoir_works(w0, d0) ==> w1 == w0 && d1 == d0
    &&& reservoir_works(w0, d0) ==> {
        let stored = d0.stored_vu + reservoir_intake(w0, d0);
        &&& stored - reservoir_release_cap(d0, stored) <= d1.stored_vu <= stored
        &&& d1.active == (d0.active || reservoir_intake(w0, d0) > 0
            || d1.stored_vu < stored)
    }
}

/// What `tick_spillway` does to a device `d0` and the world `w0`, giving `d1` and `w1`.
pub open spec fn spillway_ticked(d0: DeviceState, d1: DeviceState, w0: SimulationWorld, w1: SimulationWorld, topology: Seq<DeviceState>) -> bool {
    &&& d1.power_generated == d0.power_generated
    &&& d1.cumulative_power == d0.cumulative_power
    &&& layers_only(w0, w1)
    &&& runtime_only(d0, d1)
    &&& d1.stored_vu == d0.stored_vu
    &&& held(w1, d1) == held(w0, d0)
    &&& match spillway_amount(w0, d0) {
        Some(amount) => d1.active == (moved_along(w0, d0, amount) > 0),
        None => w1 == w0 && d1 == d0,
    }
}

/// What `tick_turbine` does to a device `d0` and the world `w0`, giving `d1` and `w1`.
pub open spec fn turbine_ticked(d0: DeviceState, d1: DeviceState, w0: SimulationWorld, w1: SimulationWorld, topology: Seq<DeviceState>) -> bool {
    &&& layers_only(w0, w1)
    &&& runtime_only(d0, d1)
    &&& d1.stored_vu == d0.stored_vu
    &&& d1.stored_fluid == d0.stored_fluid
    &&& d1.power_generated > 0 ==> d1.active
    &&& d1.power_generated == 0 ==> d1.active == d0.active
    &&& d1.cumulative_power == if d0.cumulative_power + d1.power_generated > u64::MAX {
        u64::MAX as int
    } else {
        d0.cumulative_power + d1.power_generated
    }
    &&& w0.index_of(d0.anchor) is None ==> w1 == w0 && d1 == d0
    &&& w0.index_of(d0.anchor) matches Some(index) ==> exists|sources: Seq<usize>| {
        &&& #[trigger] turbine_source_list(w0, topology, d0.anchor, index, sources)
        &&& d1.power_generated == turbine_power(turbine_flow(w0, index, sources))
        &&& d1.power_generated > 0 ==> exists|m1: SimulationWorld, m2: SimulationWorld, target: CellPos| {
            &&& condense_target(topology, d0.anchor, target)
            &&& #[trigger] turbine_fluid_moved(w0, m1, m2, w1, index, sources, target)
        }
    }
    &&& d1.power_generated == 0 ==> w1 == w0
}

/// What `tick_sensor` does to a device `d0` and the world `w0`, giving `d1` and `w1`.
pub open spec fn sensor_ticked(d0: DeviceState, d1: DeviceState, w0: SimulationWorld, w1: SimulationWorld, topology: Seq<DeviceState>) -> bool {
    &&& w1 == w0
    &&& d1.active == if d0.enabled && d0.powered && w0.index_of(d0.anchor) is Some {
        seq_volume(w0.cells@[w0.index_of(d0.anchor)->0 as int].surface@) >= 500
    } else {
        d0.active
    }
    &&& d1 == (DeviceState { active: d1.active, ..d0 })
}

/// What `tick_filter` does to a device `d0` and the world `w0`, giving `d1` and `w1`.
pub open spec fn filter_ticked(d0: DeviceState, d1: DeviceState, w0: SimulationWorld, w1: SimulationWorld, topology: Seq<DeviceState>) -> bool {
    &&& layers_only(w0, w1)
    &&& d1 == (DeviceState { active: d1.active, ..d0 })
    &&& held(w1, d1) == held(w0, d0)
    &&& d1.active == (filter_works(d0, w0) || d0.active)
    &&& !filter_works(d0, w0) ==> w1 == w0
    &&& filter_works(d0, w0) ==> {
        let i = w0.index_of(d0.anchor)->0 as int;
        &&& w1.cells@ == w0.cells@.update(i, w1.cells@[i])
        &&& entry_of(w1.cells@[i].surface@, FluidId::ToxicSlurry)
            == Some(filtered_entry(entry_of(w0.cells@[i].surface@, FluidId::ToxicSlurry)->0))
        &&& forall|g: FluidId| g != FluidId::ToxicSlurry ==> #[trigger] entry_of(w1.cells@[i].surface@, g)
            == entry_of(w0.cells@[i].surface@, g)
    }
}

/// What `tick_relay` does to a device `d0` and the world `w0`, giving `d1` and `w1`.
pub open spec fn relay_ticked(d0: DeviceState, d1: DeviceState, w0: SimulationWorld, w1: SimulationWorld, topology: Seq<DeviceState>) -> bool {
    &&& d1.power_generated == d0.power_generated
    &&& d1.cumulative_power == d0.cumulative_power
    &&& layers_only(w0, w1)
    &&& runtime_only(d0, d1)
    &&& held(w1, d1) == held(w0, d0)
    &&& d1.active == if d0.enabled && d0.powered && w0.index_of(d0.anchor) is Some {
        d1.stored_vu >= 100
    } else {
        d0.active
    }
}

/// One device's tick from `b` to `a` on the world `w0`, giving `w1`: it starts
/// inactive and generating nothing, acts by its kind (see the `*_ticked`
/// relations), and counts the tick as operated when it ended active.
pub open spec fn device_acted(b: DeviceState, a: DeviceState, w0: SimulationWorld, w1: SimulationWorld, topology: Seq<DeviceState>) -> bool {
    let d = DeviceState { active: false, power_generated: 0, ..b };
    let m = DeviceState { operated_ticks: b.operated_ticks, ..a };
    &&& a.operated_ticks == if a.active { saturating_inc(b.operated_ticks) } else { b.operated_ticks }
    &&& match b.device {
        DeviceId::Channel => m == (DeviceState { active: true, ..d }) && w1 == w0,
        DeviceId::Pump => pump_ticked(d, m, w0, w1, topology),
        DeviceId::Reservoir => reservoir_ticked(d, m, w0, w1, topology),
        DeviceId::Spillway => spillway_ticked(d, m, w0, w1, seq![]),
        DeviceId::FlowTurbine => turbine_ticked(d, m, w0, w1, topology),
        DeviceId::Sensor => sensor_ticked(d, m, w0, w1, seq![]),
        DeviceId::Filter => filter_ticked(d, m, w0, w1, seq![]),
        DeviceId::RuneRelay => relay_ticked(d, m, w0, w1, seq![]),
        DeviceId::Pipe | DeviceId::Floodgate => m == d && w1 == w0,
    }
}

/// Each device of `before` acted in turn (`acted`), through the worlds `ws`.
pub open spec fn devices_acted(before: Seq<DeviceState>, acted: Seq<DeviceState>, ws: Seq<SimulationWorld>) -> bool {
    &&& acted.len() == before.len()
    &&& ws.len() == before.len() + 1
    &&& forall|k: int| 0 <= k < before.len() ==> device_acted(before[k], acted[k], #[trigger] ws[k], ws[k + 1], before)
}

/// One device's tick: it starts inactive and generating nothing, acts by its kind
/// and counts the tick as operated when it ended active.
fn tick_one(before: DeviceState, world: &mut SimulationWorld, topology: &[DeviceState]) -> (after: DeviceState)
    requires
        old(world).wf(),
        topology_ok(topology@),
        before.anchor.x < 32767,
        before.anchor.y < 32767,
        before.power_generated <= 4,
    ensures
        layers_only(*old(world), *final(world)),
        device_ticked(before, after, old(world).index_of(before.anchor) is Some),
        before.device != DeviceId::Reservoir && before.device != DeviceId::FlowTurbine ==> held(*final(world), after)
            == held(*old(world), before),
        device_acted(before, after, *old(world), *final(world), topology@),
{
    let mut device = before;
    device.active = false;
    device.power_generated = 0;
    match device.device {
        DeviceId::Channel => {
            device.active = true;
        },
        DeviceId::Pump => tick_pump(&mut device, world, topology),
        DeviceId::Reservoir => tick_reservoir(&mut device, world, topology),
        DeviceId::Spillway => tick_spillway(&mut device, world),
        DeviceId::FlowTurbine => tick_turbine(&mut device, world, topology),
        DeviceId::Sensor => tick_sensor(&mut device, world),
        DeviceId::Filter => tick_filter(&mut device, world),
        DeviceId::RuneRelay => tick_relay(&mut device, world),
        DeviceId::Pipe | DeviceId::Floodgate => {},
    }
    let ghost m = device;
    if device.active {
        device.operated_ticks = device.operated_ticks.saturating_add(1);
    }
    proof {
        assert(m == DeviceState { operated_ticks: before.operated_ticks, ..device });
    }
    device
}

impl DeviceSystem {
    /// Run one tick of every device against the world, in list order: each device
    /// starts the tick inactive and generating nothing, then acts by its kind, and
    /// counts the tick as operated when it ended active. Afterwards every rune
    /// relay is re-evaluated: it is active exactly when it is powered, enabled,
    /// holds at least 100 vU and a generating (or proven) turbine is connected to
    /// it by conduits.
    pub fn tick(&mut self, world: &mut SimulationWorld)
        requires
            old(self).wf(),
            old(world).wf(),
        ensures
            final(self).wf(),
            layers_only(*old(world), *final(world)),
            final(self).next_entity_id == old(self).next_entity_id,
            final(self).next_plan_id == old(self).next_plan_id,
            final(self).queued == old(self).queued,
            final(self).devices@.len() == old(self).devices@.len(),
            forall|i: int|
                0 <= i < final(self).devices@.len() ==> device_ticked(
                    old(self).devices@[i],
                    #[trigger] final(self).devices@[i],
                    old(world).index_of(old(self).devices@[i].anchor) is Some,
                ),
            forall|i: int|
                0 <= i < final(self).devices@.len() && (#[trigger] final(self).devices@[i]).device
                    == DeviceId::RuneRelay ==> final(self).devices@[i].active == relay_online(
                    final(self).devices@,
                    final(self).devices@[i],
                ),
            conserving(old(self).devices@) ==> cells_material(final(world).cells@) + devices_stored(
                final(self).devices@,
            ) == cells_material(old(world).cells@) + devices_stored(old(self).devices@),
            exists|ws: Seq<SimulationWorld>, acted: Seq<DeviceState>| {
                &&& #[trigger] devices_acted(old(self).devices@, acted, ws)
                &&& ws[0] == *old(world)
                &&& ws.last() == *final(world)
                &&& forall|k: int| 0 <= k < acted.len() ==> #[trigger] final(self).devices@[k] == (DeviceState {
                    active: final(self).devices@[k].active,
                    ..acted[k]
                })
            },
    {
        let topology = copy_devices(&self.devices);
        let ghost start = *old(world);
        let ghost mut ws: Seq<SimulationWorld> = seq![*world];
        let mut i: usize = 0;
        while i < self.devices.len()
            invariant
                ws.len() == i + 1,
                ws[0] == start,
                ws.last() == *world,
                forall|k: int| 0 <= k < i ==> device_acted(topology@[k], self.devices@[k], #[trigger] ws[k], ws[k + 1], topology@),
                i <= self.devices@.len(),
                old(self).wf(),
                topology@ == old(self).devices@,
                self.devices@.len() == topology@.len(),
                self.next_entity_id == old(self).next_entity_id,
                self.next_plan_id == old(self).next_plan_id,
                self.queued == old(self).queued,
                layers_only(start, *world),
                topology_ok(topology@),
                forall|k: int| i <= k < self.devices@.len() ==> #[trigger] self.devices@[k] == topology@[k],
                forall|k: int|
                    0 <= k < i ==> device_ticked(topology@[k], #[trigger] self.devices@[k], start.index_of(topology@[k].anchor) is Some),
                conserving(topology@) ==> cells_material(world.cells@) + devices_stored(self.devices@)
                    == cells_material(start.cells@) + devices_stored(topology@),
            decreases self.devices@.len() - i,
        {
            let ghost w0 = *world;
            let ghost devices0 = self.devices@;
            let before = self.devices[i];
            proof {
                assert(topology@[i as int] == before);
                assert(w0.index_of(before.anchor) == start.index_of(before.anchor));
            }
            let device = tick_one(before, world, topology.as_slice());
            self.devices.set(i, device);
            proof {
                let ws2 = ws.push(*world);
                assert forall|k: int| 0 <= k < i + 1 implies device_acted(topology@[k], self.devices@[k], #[trigger] ws2[k], ws2[k + 1], topology@) by {
                    if k < i {
                        assert(ws2[k] == ws[k] && ws2[k + 1] == ws[k + 1]);
                        assert(self.devices@[k] == devices0[k]);
                    } else {
                        assert(ws2[k] == w0);
                    }
                }
                ws = ws2;
                assert(self.devices@ == devices0.update(i as int, device));
                lemma_devices_stored_update(devices0, i as int, device);
                assert forall|k: int| 0 <= k < world.cells@.len() implies same_but_layers(start.cells@[k], #[trigger] world.cells@[k]) by {
                    assert(same_but_layers(start.cells@[k], w0.cells@[k]));
                    assert(same_but_layers(w0.cells@[k], world.cells@[k]));
                }
            }
            i = i + 1;
        }
        let powered = copy_devices(&self.devices);
        let ghost mid = self.devices@;
        let ghost world_end = *world;
        let mut i: usize = 0;
        while i < self.devices.len()
            invariant
                i <= self.devices@.len(),
                powered@ == mid,
                self.next_entity_id == old(self).next_entity_id,
                self.next_plan_id == old(self).next_plan_id,
                self.queued == old(self).queued,
                self.devices@.len() == mid.len(),
                forall|k: int|
                    0 <= k < mid.len() ==> #[trigger] self.devices@[k] == if k < i && mid[k].device == DeviceId::RuneRelay {
                        DeviceState { active: relay_online(mid, mid[k]), ..mid[k] }
                    } else {
                        mid[k]
                    },
            decreases self.devices@.len() - i,
        {
            let relay = self.devices[i];
            if relay.device == DeviceId::RuneRelay {
                let fed = turbine_feeding(&powered, relay.anchor);
                let active = relay.powered && relay.enabled && relay.stored_vu >= 100 && fed;
                self.devices.set(i, DeviceState { active, ..relay });
            }
            i = i + 1;
        }
        proof {
            let fin = self.devices@;
            assert forall|k: int| 0 <= k < fin.len() implies (#[trigger] fin[k]).device == mid[k].device
                && fin[k].anchor == mid[k].anchor by {}
            assert forall|k: int| 0 <= k < fin.len() && (#[trigger] fin[k]).device == DeviceId::RuneRelay implies fin[k].active
                == relay_online(fin, fin[k]) by {
                assert forall|j: int| 0 <= j < fin.len() implies (#[trigger] pipe_connected_spec(fin, fin[k].anchor, fin[j].anchor))
                    == pipe_connected_spec(mid, mid[k].anchor, mid[j].anchor) by {
                    lemma_pipe_connected_frame(fin, mid, fin[k].anchor, fin[j].anchor);
                }
                if turbine_feeds(mid, mid[k].anchor) {
                    let j = choose|j: int|
                        0 <= j < mid.len() && (#[trigger] mid[j]).device == DeviceId::FlowTurbine && (mid[j].active
                            || mid[j].cumulative_power >= 40) && pipe_connected_spec(mid, mid[k].anchor, mid[j].anchor);
                    assert(fin[j] == mid[j]);
                    assert(pipe_connected_spec(fin, fin[k].anchor, fin[j].anchor));
                }
                if turbine_feeds(fin, fin[k].anchor) {
                    let j = choose|j: int|
                        0 <= j < fin.len() && (#[trigger] fin[j]).device == DeviceId::FlowTurbine && (fin[j].active
                            || fin[j].cumulative_power >= 40) && pipe_connected_spec(fin, fin[k].anchor, fin[j].anchor);
                    assert(fin[j] == mid[j]);
                    assert(pipe_connected_spec(mid, mid[k].anchor, mid[j].anchor));
                }
            }
            assert forall|k: int| 0 <= k < fin.len() implies device_ticked(
                old(self).devices@[k],
                #[trigger] fin[k],
                old(world).index_of(old(self).devices@[k].anchor) is Some,
            ) by {
                assert(device_ticked(topology@[k], mid[k], start.index_of(topology@[k].anchor) is Some));
            }
            assert(devices_stored(fin) == devices_stored(mid)) by {
                lemma_devices_stored_frame(fin, mid);
            }
            assert(devices_acted(old(self).devices@, mid, ws));
        }
    }
}

/// Lists whose devices store the same amounts store the same total.
pub proof fn lemma_devices_stored_frame(a: Seq<DeviceState>, b: Seq<DeviceState>)
    requires
        a.len() == b.len(),
        forall|i: int| 0 <= i < a.len() ==> (#[trigger] a[i]).stored_vu == b[i].stored_vu,
    ensures
        devices_stored(a) == devices_stored(b),
    decreases a.len(),
{
    if a.len() > 0 {
        lemma_devices_stored_frame(a.drop_last(), b.drop_last());
    }
}

} // verus!
