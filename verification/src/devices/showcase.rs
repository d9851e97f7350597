//! Deterministic device showcase fixtures, kept apart from the placement logic.

use vstd::prelude::*;

use super::placement::{built_device, cell_error, first_cell_error, footprint_cell_at, occupied, placement_error};
use super::runtime::conserving;
use super::{showcase_maps, DeviceId, DeviceState, DeviceSystem, QueuedPlan};
use crate::devices::power::turbine_generation;
use crate::economy::FabricationState;
use crate::simulation::fingerprint::world_fingerprint;
use crate::simulation::step::{authored_supply_spec, world_ticked};
use crate::simulation::world::injected_into;
use crate::simulation::{lemma_room_monotone, cell_products, cells_material, devices_stored, FluidId, SimulationWorld};
use crate::state::{lemma_grid_index_bound, CellPos};
use crate::text::{decimal, push_decimal};

verus! {

/// What one device showcase showed.
#[derive(Debug, Clone, Copy, PartialEq, Eq, Structural)]
pub struct ShowcaseReport {
    pub device: DeviceId,
    pub placed: bool,
    pub active_after_tick: bool,
    pub mass_balance_ok: bool,
    pub state_hash: u64,
}

/// Where every showcase places its device.
pub open spec fn showcase_anchor() -> CellPos {
    CellPos { x: 15, y: 8 }
}

/// The shape of a built showcase world: the 32 by 18 grid, one device of the
/// showcased kind at the showcase anchor, authored power that exactly meets the
/// device's demand (none for an unpowered device), no sources.
pub open spec fn showcase_shape(world: SimulationWorld, device: DeviceId) -> bool {
    &&& world.wf()
    &&& world.width == 32
    &&& world.height == 18
    &&& world.devices.devices@.len() == 1
    &&& world.devices.devices@[0].device == device
    &&& world.devices.devices@[0].anchor == showcase_anchor()
    &&& world.power_sources@.len() <= 1
    &&& authored_supply_spec(world.power_sources@) == device.power_demand_spec()
    &&& world.sources@.len() == 0
}

/// `w` is a showcase world after its first tick: the device placed at the
/// anchor facing rotation 0, its fluid poured there (1000 vU), and one tick run.
pub open spec fn showcase_first_tick(w: SimulationWorld, device: DeviceId) -> bool {
    exists|pre: SimulationWorld, poured: SimulationWorld| {
        &&& showcase_shape(pre, device)
        &&& pre.tick == 0
        &&& pre.devices.devices@ == seq![built_device(0, device, showcase_anchor(), 0, false)]
        &&& #[trigger] injected_into(pre, poured, showcase_anchor(), showcase_fluid(device), 1_000)
        &&& world_ticked(poured, w)
    }
}

/// The fluid a showcase pours at its device: steam for a turbine, toxic slurry
/// for a filter, water otherwise.
pub open spec fn showcase_fluid(device: DeviceId) -> FluidId {
    if device == DeviceId::FlowTurbine {
        FluidId::Steam
    } else if device == DeviceId::Filter {
        FluidId::ToxicSlurry
    } else {
        FluidId::Water
    }
}

/// A world whose counters are small has room for up to a thousand ticks.
pub proof fn lemma_room_when_small(world: SimulationWorld, n: nat)
    requires
        n <= 1000,
        world.cells@.len() <= 1_073_741_824,
        world.sources@.len() <= 16_777_216,
        world.ledger.injected <= 1_099_511_627_776,
        world.ledger.drained <= 1_099_511_627_776,
        world.ledger.reacted <= 1_099_511_627_776,
        world.ledger.products <= 1_099_511_627_776,
        forall|i: int| 0 <= i < world.cells@.len() ==> cell_products(#[trigger] world.cells@[i]) <= 1_048_576,
    ensures
        world.room_for(n),
{
    let s = world.sources@.len() as int;
    let c = world.cells@.len() as int;
    let m = n as int;
    assert(m * 8000 * s <= 1000 * 8000 * 16_777_216) by (nonlinear_arith)
        requires
            0 <= m <= 1000,
            0 <= s <= 16_777_216,
    ;
    assert(m * 8000 * c <= 1000 * 8000 * 1_073_741_824) by (nonlinear_arith)
        requires
            0 <= m <= 1000,
            0 <= c <= 1_073_741_824,
    ;
    assert(m * 740 * c <= 1000 * 740 * 1_073_741_824) by (nonlinear_arith)
        requires
            0 <= m <= 1000,
            0 <= c <= 1_073_741_824,
    ;
    assert(m * 250 * c <= 1000 * 250 * 1_073_741_824) by (nonlinear_arith)
        requires
            0 <= m <= 1000,
            0 <= c <= 1_073_741_824,
    ;
}

/// Build a showcase world: a default 32 by 18 map (hot, at 4730 dK, for the
/// turbine), the device placed at (15, 8) facing rotation 0 from a budget of 1000
/// fU, a generator at (0, 0) covering a powered device's demand, 1000 vU of its
/// fluid poured on it and one tick run.
fn build_showcase_world(device: DeviceId) -> (result: (SimulationWorld, bool))
    ensures
        result.1,
        showcase_shape(result.0, device),
        result.0.tick == 1,
        result.0.room_for(999),
        conserving(result.0.devices.devices@) ==> result.0.balance() == 0,
        conserving(result.0.devices.devices@) <==> (device != DeviceId::Reservoir && device != DeviceId::FlowTurbine),
        showcase_first_tick(result.0, device),
{
    let mut world = SimulationWorld::new(32, 18);
    if device == DeviceId::FlowTurbine {
        let mut i: usize = 0;
        while i < world.definitions.len()
            invariant
                i <= world.definitions@.len(),
                world.wf(),
                world.width == 32,
                world.height == 18,
                world.tick == 0,
                world.ledger.injected == 0 && world.ledger.drained == 0 && world.ledger.reacted == 0 && world.ledger.products == 0,
                world.devices.devices@.len() == 0,
                world.devices.queued@.len() == 0,
                world.devices.next_entity_id == 0,
                world.sources@.len() == 0,
                world.power_sources@.len() == 0,
                world.balance() == 0,
                forall|j: int| 0 <= j < world.cells@.len() ==> cell_products(#[trigger] world.cells@[j]) == 0,
                forall|j: int| 0 <= j < world.definitions@.len() ==> !(#[trigger] world.definitions@[j]).protected,
            decreases world.definitions@.len() - i,
        {
            let mut definition = world.definitions[i];
            definition.ambient_temperature_dk = 4_730;
            world.definitions.set(i, definition);
            i = i + 1;
        }
    }
    let anchor = CellPos { x: 15, y: 8 };
    let mut devices = DeviceSystem::default();
    std::mem::swap(&mut devices, &mut world.devices);
    let mut budget = FabricationState::new(1_000);
    proof {
        let empty = Seq::<QueuedPlan>::empty();
        let none = Seq::<DeviceState>::empty();
        assert forall|k: int| 0 <= k < 4 implies cell_error(world, none, empty, #[trigger] footprint_cell_at(device, anchor, k))
            is None by {
            let p = footprint_cell_at(device, anchor, k);
            assert(p.x < 32 && p.y < 18);
            assert(!occupied(none, empty, p));
        }
        reveal_with_fuel(first_cell_error, 5);
        assert(first_cell_error(world, none, empty, device, anchor, 4) is None);
        if device.footprint_spec().0 == 2 {
            assert(cell_error(world, none, empty, footprint_cell_at(device, anchor, 3)) is None);
        }
        assert(first_cell_error(world, none, empty, device, anchor, 3) is None);
        assert(first_cell_error(world, none, empty, device, anchor, 2) is None);
        assert(first_cell_error(world, none, empty, device, anchor, 1) is None);
        assert(first_cell_error(world, none, empty, device, anchor, 0) is None);
        assert(placement_error(world, devices.devices@, seq![], device, anchor, 0) is None);
    }
    let placed = devices.place(&world, device, anchor, 0, &mut budget).is_ok();
    std::mem::swap(&mut devices, &mut world.devices);
    proof {
        assert(world.devices.devices@ =~= seq![built_device(0, device, anchor, 0, false)]);
        assert(devices_stored(world.devices.devices@) == 0) by {
            reveal_with_fuel(devices_stored, 2);
        }
        assert(world.wf());
    }
    let demand = device.power_demand_eu();
    if demand > 0 {
        world.add_power_source("showcase_generator", CellPos { x: 0, y: 0 }, demand, "generator");
    }
    proof {
        reveal_with_fuel(authored_supply_spec, 2);
        assert(authored_supply_spec(world.power_sources@) == device.power_demand_spec());
    }
    let fluid = if device == DeviceId::FlowTurbine {
        FluidId::Steam
    } else if device == DeviceId::Filter {
        FluidId::ToxicSlurry
    } else {
        FluidId::Water
    };
    let ghost pre = world;
    world.inject(anchor, fluid, 1_000);
    let ghost poured = world;
    proof {
        assert forall|j: int| 0 <= j < world.cells@.len() implies cell_products(#[trigger] world.cells@[j]) <= 1_048_576 by {
            lemma_grid_index_bound(32, 18, anchor);
        }
        lemma_room_when_small(world, 1000);
        assert(turbine_generation(world.devices.devices@) == 0) by {
            reveal_with_fuel(turbine_generation, 2);
        }
    }
    world.tick();
    proof {
        assert(world.room_for(999));
        assert(showcase_first_tick(world, device));
    }
    (world, placed)
}

/// The world of a device showcase after its first tick.
pub fn showcase_world(device: DeviceId) -> (world: SimulationWorld)
    ensures
        showcase_shape(world, device),
        world.tick == 1,
        world.room_for(999),
        device != DeviceId::Reservoir && device != DeviceId::FlowTurbine ==> world.balance() == 0,
        showcase_first_tick(world, device),
{
    build_showcase_world(device).0
}

/// Run a device showcase: build its world, tick once more, and report whether the
/// device was placed, whether it is active, whether mass balances and the
/// world's fingerprint.
pub fn run_showcase(device: DeviceId) -> (report: ShowcaseReport)
    ensures
        report.device == device,
        report.placed,
        device != DeviceId::Reservoir && device != DeviceId::FlowTurbine ==> report.mass_balance_ok,
        exists|first: SimulationWorld, world: SimulationWorld|
            {
                &&& showcase_first_tick(first, device)
                &&& #[trigger] world_ticked(first, world)
                &&& showcase_shape(world, device)
                &&& world.tick == 2
                &&& report.state_hash == world_fingerprint(world)
                &&& report.active_after_tick == world.devices.devices@[0].active
                &&& report.mass_balance_ok == (world.balance() == 0)
            },
{
    let (mut world, placed) = build_showcase_world(device);
    let ghost first = world;
    proof {
        assert(turbine_generation(world.devices.devices@) <= 4) by {
            reveal_with_fuel(turbine_generation, 2);
        }
        lemma_room_monotone(world, 999, 1);
    }
    if placed {
        world.tick();
    }
    let active_after_tick = world.devices.devices.len() > 0 && world.devices.devices[0].active;
    proof {
        lemma_room_monotone(world, 998, 0);
    }
    let mass_balance_ok = world.mass_balance_error() == 0;
    let state_hash = world.fingerprint();
    ShowcaseReport { device, placed, active_after_tick, mass_balance_ok, state_hash }
}

/// The device names in registry order, joined by ", ".
pub open spec fn joined_names(k: int) -> Seq<char>
    decreases k,
{
    if k <= 0 {
        seq![]
    } else if k == 1 {
        DeviceId::ALL@[0].name_spec()
    } else {
        joined_names(k - 1) + ", "@ + DeviceId::ALL@[k - 1].name_spec()
    }
}

/// Run every showcase and summarise: how many were placed with mass in balance,
/// out of the ten devices, and the device names in registry order.
pub fn run_all_showcases() -> (summary: String)
    ensures
        exists|passed: nat|
            8 <= passed <= 10 && summary@ == decimal(passed) + "/"@ + decimal(10) + " showcases PASS: "@ + joined_names(10),
{
    let maps = showcase_maps();
    let mut passed: u64 = 0;
    let mut names = String::new();
    let mut i: usize = 0;
    while i < 10
        invariant
            i <= 10,
            forall|k: int| 0 <= k < 10 ==> (#[trigger] maps@[k]).device == DeviceId::ALL@[k],
            names@ == joined_names(i as int),
            passed <= i,
            passed >= if i <= 4 {
                i as int
            } else if i <= 6 {
                i - 1
            } else {
                i - 2
            },
        decreases 10 - i,
    {
        let report = run_showcase(maps[i].device);
        if report.placed && report.mass_balance_ok {
            passed = passed + 1;
        }
        if i > 0 {
            names.append(", ");
        }
        names.append(maps[i].device.name());
        proof {
            reveal_strlit(", ");
            let d = DeviceId::ALL@[i as int];
            assert(maps@[i as int].device == d);
            if i == 0 {
                assert(names@ =~= joined_names(1));
            } else {
                assert(names@ =~= joined_names(i as int + 1));
            }
            if d != DeviceId::Reservoir && d != DeviceId::FlowTurbine {
                assert(report.mass_balance_ok);
            }
        }
        i = i + 1;
    }
    let mut summary = String::new();
    push_decimal(&mut summary, passed);
    summary.append("/");
    push_decimal(&mut summary, 10);
    summary.append(" showcases PASS: ");
    summary.append(names.as_str());
    proof {
        reveal_strlit("/");
        reveal_strlit(" showcases PASS: ");
        assert(summary@ =~= decimal(passed as nat) + "/"@ + decimal(10) + " showcases PASS: "@ + joined_names(10));
    }
    summary
}

} // verus!
