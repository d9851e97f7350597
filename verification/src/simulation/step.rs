//! One whole simulation tick: sources, fluid transport, reactions, heat, terrain
//! products, power allocation and devices, in that order.

use vstd::prelude::*;

use super::process::{
    heated_cell, outlet_applied, products_formed, reacted_cell, same_but_layers, same_but_surface, steam_flowed,
    surface_flowed,
};
use super::world::{injection_accepted, same_apart_from_cells};
use super::{
    cell_products, cells_material, devices_stored, MassLedger, SimEvent, SimulationWorld, CELL_CAPACITY_VU,
    LEDGER_LIMIT_VU, PRODUCT_GROWTH_PER_TICK, PRODUCT_LIMIT_VU,
};
use crate::devices::power::{brownouts_after, lemma_turbine_generation_prefix, powered_after, priority_order, turbine_generation};
use crate::devices::runtime::{
    conserving, device_ticked, devices_acted, layers_only, lemma_devices_stored_frame, relay_online, saturating_inc,
};
use crate::devices::{DeviceState, DeviceSystem};
use crate::economy::PowerSource;
use crate::state::lemma_grid_index_bound;

verus! {

/// Total output of the enabled authored power sources.
pub open spec fn authored_supply_spec(sources: Seq<PowerSource>) -> int
    decreases sources.len(),
{
    if sources.len() == 0 {
        0
    } else {
        authored_supply_spec(sources.drop_last()) + if sources.last().enabled {
            sources.last().output_eu_per_tick as int
        } else {
            0
        }
    }
}

/// The brownouts of a tick, as events.
pub open spec fn brownout_events(brownouts: Seq<(u32, u32)>) -> Seq<SimEvent> {
    brownouts.map(|k: int, b: (u32, u32)| SimEvent::PowerBrownout { entity_id: b.0, demand_eu: b.1 })
}

/// Counters and cell products grew by at most one tick's worth.
pub open spec fn within_one_tick(before: SimulationWorld, after: SimulationWorld) -> bool {
    &&& after.cells@.len() == before.cells@.len()
    &&& after.sources@.len() == before.sources@.len()
    &&& after.ledger.injected <= before.ledger.injected + CELL_CAPACITY_VU * before.sources@.len()
    &&& after.ledger.drained <= before.ledger.drained + CELL_CAPACITY_VU * before.cells@.len()
    &&& after.ledger.reacted <= before.ledger.reacted + 740 * before.cells@.len()
    &&& after.ledger.products <= before.ledger.products + 250 * before.cells@.len()
    &&& forall|i: int|
        0 <= i < after.cells@.len() ==> cell_products(#[trigger] after.cells@[i]) <= cell_products(before.cells@[i])
            + PRODUCT_GROWTH_PER_TICK
}

/// The events of `after` begin with those of `before`.
pub open spec fn events_extend(before: Seq<SimEvent>, after: Seq<SimEvent>) -> bool {
    &&& after.len() >= before.len()
    &&& forall|k: int| 0 <= k < before.len() ==> #[trigger] after[k] == before[k]
}

/// Room for `n + 1` ticks before a tick leaves room for `n` ticks after it.
proof fn lemma_room_after_tick(before: SimulationWorld, after: SimulationWorld, n: nat)
    requires
        within_one_tick(before, after),
        before.room_for(n + 1),
    ensures
        after.room_for(n),
{
    let s = before.sources@.len() as int;
    let c = before.cells@.len() as int;
    let cap = CELL_CAPACITY_VU as int;
    let m = n as int;
    assert((m + 1) * cap * s == m * cap * s + cap * s) by (nonlinear_arith);
    assert((m + 1) * cap * c == m * cap * c + cap * c) by (nonlinear_arith);
    assert((m + 1) * 740 * c == m * 740 * c + 740 * c) by (nonlinear_arith);
    assert((m + 1) * 250 * c == m * 250 * c + 250 * c) by (nonlinear_arith);
    assert forall|i: int| 0 <= i < after.cells@.len() implies cell_products(#[trigger] after.cells@[i])
        + PRODUCT_GROWTH_PER_TICK * n <= PRODUCT_LIMIT_VU by {
        assert(cell_products(before.cells@[i]) + PRODUCT_GROWTH_PER_TICK * (n + 1) <= PRODUCT_LIMIT_VU);
    }
}

/// Room for one tick splits into room for each phase of the tick.
proof fn lemma_room_parts(w: SimulationWorld)
    requires
        w.room_for(1),
    ensures
        w.ledger.injected + CELL_CAPACITY_VU * w.sources@.len() <= LEDGER_LIMIT_VU,
        w.drain_room(),
        w.reaction_room(),
{
    assert forall|i: int| 0 <= i < w.cells@.len() implies cell_products(#[trigger] w.cells@[i])
        + PRODUCT_GROWTH_PER_TICK <= PRODUCT_LIMIT_VU by {
        assert(cell_products(w.cells@[i]) + PRODUCT_GROWTH_PER_TICK * 1 <= PRODUCT_LIMIT_VU);
    }
}

/// The stages of one physical tick from `w0` to `w7`: sources poured (`w1`),
/// surface fluid flowed downhill (`w2`), outlets drained (`w3`), steam
/// flowed and condensed (`w4`), materials reacted (`w5`), temperatures relaxed with
/// boiling and solidifying (`w6`), and terrain products formed (`w7`).
pub open spec fn tick_stages(
    w0: SimulationWorld,
    w1: SimulationWorld,
    w2: SimulationWorld,
    w3: SimulationWorld,
    w4: SimulationWorld,
    w5: SimulationWorld,
    w6: SimulationWorld,
    w7: SimulationWorld,
) -> bool {
    &&& exists|ws: Seq<SimulationWorld>| #[trigger] source_steps(ws) && ws[0] == w0 && ws.last() == w1
    &&& w2.cells@.len() == w1.cells@.len()
    &&& surface_flowed(w1, w2)
    &&& w3.cells@.len() == w2.cells@.len()
    &&& forall|i: int| 0 <= i < w3.cells@.len() ==> outlet_applied(w2, i, #[trigger] w3.cells@[i])
    &&& steam_flowed(w3, w4)
    &&& w5.cells@.len() == w4.cells@.len()
    &&& forall|i: int| 0 <= i < w5.cells@.len() ==> reacted_cell(w4.cells@[i], #[trigger] w5.cells@[i])
    &&& w6.cells@.len() == w5.cells@.len()
    &&& forall|i: int| 0 <= i < w6.cells@.len() ==> heated_cell(w5.cells@[i], #[trigger] w6.cells@[i],
        w5.definitions@[i].ambient_temperature_dk)
    &&& w7.cells@.len() == w6.cells@.len()
    &&& forall|i: int| 0 <= i < w7.cells@.len() ==> products_formed(w6.cells@[i], #[trigger] w7.cells@[i])
}

/// `w7` is `w0` after the physical stages of a tick (see `tick_stages`).
pub open spec fn physically_stepped(w0: SimulationWorld, w7: SimulationWorld) -> bool {
    exists|w1: SimulationWorld, w2: SimulationWorld, w3: SimulationWorld, w4: SimulationWorld, w5: SimulationWorld,
        w6: SimulationWorld| #[trigger] tick_stages(w0, w1, w2, w3, w4, w5, w6, w7)
}

/// `w1` is `w0` after one tick's world work: its events cleared and its tick
/// counted, the physical stages run (see `physically_stepped`), then the devices
/// acting in turn on the world's fluid layers (see `devices_acted`) with their
/// power allocated.
#[verifier::opaque]
pub open spec fn world_ticked(w0: SimulationWorld, w1: SimulationWorld) -> bool {
    exists|pre: SimulationWorld, phys: SimulationWorld| {
        &&& pre == (SimulationWorld { events: pre.events, tick: saturating_inc(w0.tick), ..w0 })
        &&& pre.events@.len() == 0
        &&& #[trigger] physically_stepped(pre, phys)
        &&& w1.cells@.len() == phys.cells@.len()
        &&& forall|i: int| 0 <= i < w1.cells@.len() ==> same_but_layers(phys.cells@[i], #[trigger] w1.cells@[i])
        &&& exists|ws: Seq<SimulationWorld>, acted: Seq<DeviceState>, allocated: Seq<DeviceState>| {
            &&& #[trigger] devices_acted(allocated, acted, ws)
            &&& ws[0].cells == phys.cells
            &&& ws.last().cells == w1.cells
            &&& allocated.len() == w0.devices.devices@.len()
            &&& forall|k: int| 0 <= k < allocated.len() ==> #[trigger] allocated[k] == (DeviceState {
                powered: allocated[k].powered,
                ..w0.devices.devices@[k]
            })
            &&& forall|k: int| 0 <= k < acted.len() ==> #[trigger] w1.devices.devices@[k] == (DeviceState {
                active: w1.devices.devices@[k].active,
                ..acted[k]
            })
        }
    }
}

/// `ws` walks through the sources of `ws[0]` in list order: each enabled source
/// pours its rate at its position (see `injected_into`); a disabled one changes
/// nothing.
pub open spec fn source_steps(ws: Seq<SimulationWorld>) -> bool {
    &&& ws.len() == ws[0].sources@.len() + 1
    &&& forall|i: int|
        0 <= i < ws.len() - 1 ==> {
            let s = ws[0].sources@[i];
            if s.enabled {
                super::world::injected_into(#[trigger] ws[i], ws[i + 1], s.position, s.fluid, s.rate_vu)
            } else {
                ws[i + 1] == ws[i]
            }
        }
}

impl SimulationWorld {
    /// Every enabled source injects its rate at its position, in list order.
    fn inject_sources(&mut self)
        requires
            old(self).wf(),
            old(self).ledger.injected + CELL_CAPACITY_VU * old(self).sources@.len() <= LEDGER_LIMIT_VU,
        ensures
            final(self).wf(),
            same_apart_from_cells(*old(self), *final(self)),
            final(self).ledger == (MassLedger { injected: final(self).ledger.injected, ..old(self).ledger }),
            final(self).ledger.injected <= old(self).ledger.injected + CELL_CAPACITY_VU * old(self).sources@.len(),
            final(self).cells@.len() == old(self).cells@.len(),
            forall|i: int| 0 <= i < final(self).cells@.len() ==> same_but_layers(old(self).cells@[i], #[trigger] final(self).cells@[i]),
            final(self).balance() == old(self).balance(),
            events_extend(old(self).events@, final(self).events@),
            exists|ws: Seq<SimulationWorld>| #[trigger] source_steps(ws) && ws[0] == *old(self) && ws.last() == *final(self),
    {
        let mut i: usize = 0;
        let ghost mut ws: Seq<SimulationWorld> = seq![*self];
        while i < self.sources.len()
            invariant
                i <= self.sources@.len(),
                self.wf(),
                same_apart_from_cells(*old(self), *self),
                self.ledger == (MassLedger { injected: self.ledger.injected, ..old(self).ledger }),
                self.ledger.injected <= old(self).ledger.injected + CELL_CAPACITY_VU * i,
                old(self).ledger.injected + CELL_CAPACITY_VU * old(self).sources@.len() <= LEDGER_LIMIT_VU,
                self.cells@.len() == old(self).cells@.len(),
                forall|k: int| 0 <= k < self.cells@.len() ==> same_but_layers(old(self).cells@[k], #[trigger] self.cells@[k]),
                self.balance() == old(self).balance(),
                events_extend(old(self).events@, self.events@),
                ws.len() == i + 1,
                ws[0] == *old(self),
                ws.last() == *self,
                forall|j: int|
                    0 <= j < i ==> {
                        let s = old(self).sources@[j];
                        if s.enabled {
                            super::world::injected_into(#[trigger] ws[j], ws[j + 1], s.position, s.fluid, s.rate_vu)
                        } else {
                            ws[j + 1] == ws[j]
                        }
                    },
            decreases self.sources@.len() - i,
        {
            let source = self.sources[i];
            let ghost before = *self;
            if source.enabled {
                let ghost w0 = *self;
                proof {
                    assert(injection_accepted(*self, source.position, source.fluid, source.rate_vu) <= CELL_CAPACITY_VU);
                    assert(CELL_CAPACITY_VU * i + CELL_CAPACITY_VU <= CELL_CAPACITY_VU * self.sources@.len()) by (nonlinear_arith)
                        requires i < self.sources@.len();
                }
                self.inject(source.position, source.fluid, source.rate_vu);
                proof {
                    assert forall|k: int| 0 <= k < self.cells@.len() implies same_but_layers(
                        old(self).cells@[k],
                        #[trigger] self.cells@[k],
                    ) by {
                        assert(same_but_layers(old(self).cells@[k], w0.cells@[k]));
                        if let Some(idx) = w0.index_of(source.position) {
                            lemma_grid_index_bound(w0.width, w0.height, source.position);
                            if k != idx as int {
                                assert(self.cells@[k] == w0.cells@[k]);
                            }
                        } else {
                            assert(self.cells@[k] == w0.cells@[k]);
                        }
                    }
                }
            } else {
                proof {
                    assert(CELL_CAPACITY_VU * i <= CELL_CAPACITY_VU * (i + 1)) by (nonlinear_arith);
                }
            }
            proof {
                assert(source == old(self).sources@[i as int]);
                let ws2 = ws.push(*self);
                assert forall|j: int|
                    0 <= j < i + 1 implies {
                        let s = old(self).sources@[j];
                        if s.enabled {
                            super::world::injected_into(#[trigger] ws2[j], ws2[j + 1], s.position, s.fluid, s.rate_vu)
                        } else {
                            ws2[j + 1] == ws2[j]
                        }
                    } by {
                    if j < i {
                        assert(ws2[j] == ws[j] && ws2[j + 1] == ws[j + 1]);
                    } else {
                        assert(ws2[j] == before && ws2[j + 1] == *self);
                    }
                }
                ws = ws2;
            }
            i = i + 1;
        }
        proof {
            assert(source_steps(ws));
        }
    }

    /// The fluid phases of a tick: sources, surface flow, drains, steam, reactions,
    /// heat and phase change, terrain products.
    fn physical_step(&mut self)
        requires
            old(self).wf(),
            old(self).room_for(1),
        ensures
            final(self).wf(),
            same_apart_from_cells(*old(self), *final(self)),
            within_one_tick(*old(self), *final(self)),
            final(self).balance() == old(self).balance(),
            events_extend(old(self).events@, final(self).events@),
            physically_stepped(*old(self), *final(self)),
    {
        proof {
            lemma_room_parts(*self);
        }
        let ghost w0 = *self;
        self.inject_sources();
        let ghost w1 = *self;
        self.flow_surface();
        let ghost w2 = *self;
        proof {
            assert(self.drain_room());
            assert forall|i: int| 0 <= i < self.cells@.len() implies cell_products(#[trigger] self.cells@[i])
                == cell_products(w0.cells@[i]) by {
                assert(same_but_layers(w0.cells@[i], w1.cells@[i]));
                assert(same_but_surface(w1.cells@[i], w2.cells@[i]));
            }
        }
        self.drain_surface_outlets();
        let ghost w3 = *self;
        self.flow_steam();
        let ghost w4 = *self;
        proof {
            assert forall|i: int| 0 <= i < self.cells@.len() implies cell_products(#[trigger] self.cells@[i])
                == cell_products(w0.cells@[i]) by {
                assert(same_but_surface(w2.cells@[i], w3.cells@[i]));
                assert(same_but_layers(w3.cells@[i], w4.cells@[i]));
            }
            assert(self.reaction_room());
        }
        self.react_materials();
        let ghost w5 = *self;
        proof {
            assert(self.products_room(80)) by {
                assert forall|i: int| 0 <= i < self.cells@.len() implies cell_products(#[trigger] self.cells@[i]) + 80
                    <= PRODUCT_LIMIT_VU by {
                    assert(cell_products(w4.cells@[i]) + PRODUCT_GROWTH_PER_TICK <= PRODUCT_LIMIT_VU);
                }
            }
        }
        self.heat_and_phase_change();
        let ghost w6 = *self;
        proof {
            assert forall|i: int| 0 <= i < self.cells@.len() implies cell_products(#[trigger] self.cells@[i])
                <= u32::MAX by {
                assert(cell_products(w4.cells@[i]) + PRODUCT_GROWTH_PER_TICK <= PRODUCT_LIMIT_VU);
                assert(cell_products(w5.cells@[i]) <= cell_products(w4.cells@[i]) + 490);
            }
        }
        self.apply_terrain_products();
        proof {
            assert forall|i: int| 0 <= i < self.cells@.len() implies cell_products(#[trigger] self.cells@[i])
                <= cell_products(w0.cells@[i]) + PRODUCT_GROWTH_PER_TICK by {
                assert(cell_products(w5.cells@[i]) <= cell_products(w4.cells@[i]) + 490);
                assert(cell_products(w6.cells@[i]) <= cell_products(w5.cells@[i]) + 80);
            }
            assert(w5.balance() == w4.balance());
            assert(w6.balance() == w5.balance());
            assert(w5.definitions == w4.definitions);
            assert(tick_stages(w0, w1, w2, w3, w4, w5, w6, *self));
        }
    }

    /// Total output of the enabled authored power sources.
    /// Whether the world can tick: every counter has room for one more tick, and
    /// the authored power plus the turbines' last output fits a `u32`.
    pub fn can_tick(&self) -> (ok: bool)
        requires
            self.wf(),
        ensures
            ok == (self.room_for(1) && authored_supply_spec(self.power_sources@) + turbine_generation(self.devices.devices@)
                <= u32::MAX),
    {
        let mut i: usize = 0;
        while i < self.cells.len()
            invariant
                i <= self.cells@.len(),
                forall|j: int|
                    0 <= j < i ==> cell_products(#[trigger] self.cells@[j]) + PRODUCT_GROWTH_PER_TICK <= PRODUCT_LIMIT_VU,
            decreases self.cells@.len() - i,
        {
            let c = &self.cells[i];
            let products: u64 = c.pending_rock_vu as u64 + c.pending_vitrified_vu as u64 + c.formed_rock_vu as u64
                + c.formed_vitrified_vu as u64;
            if products + PRODUCT_GROWTH_PER_TICK as u64 > PRODUCT_LIMIT_VU as u64 {
                return false;
            }
            i = i + 1;
        }
        let limit = LEDGER_LIMIT_VU as u128;
        let cells = self.cells.len() as u128;
        if self.ledger.injected as u128 + CELL_CAPACITY_VU as u128 * self.sources.len() as u128 > limit
            || self.ledger.drained as u128 + CELL_CAPACITY_VU as u128 * cells > limit || self.ledger.reacted as u128 + 740
            * cells > limit || self.ledger.products as u128 + 250 * cells > limit {
            return false;
        }
        let mut supply: u128 = 0;
        let mut k: usize = 0;
        while k < self.power_sources.len()
            invariant
                k <= self.power_sources@.len(),
                supply == authored_supply_spec(self.power_sources@.take(k as int)),
                supply <= k * 4294967295,
            decreases self.power_sources@.len() - k,
        {
            proof {
                assert(self.power_sources@.take(k as int + 1).drop_last() =~= self.power_sources@.take(k as int));
                assert(k * 4294967295 + 4294967295 <= usize::MAX * 4294967295) by (nonlinear_arith)
                    requires k < usize::MAX;
            }
            if self.power_sources[k].enabled {
                supply = supply + self.power_sources[k].output_eu_per_tick as u128;
            }
            proof {
                assert((k + 1) * 4294967295 == k * 4294967295 + 4294967295) by (nonlinear_arith);
            }
            k = k + 1;
        }
        let mut generation: u128 = 0;
        let mut d: usize = 0;
        while d < self.devices.devices.len()
            invariant
                d <= self.devices.devices@.len(),
                self.devices.devices@.len() <= 16_777_216,
                generation == turbine_generation(self.devices.devices@.take(d as int)),
                generation <= d * 4294967295,
            decreases self.devices.devices@.len() - d,
        {
            proof {
                assert(self.devices.devices@.take(d as int + 1).drop_last() =~= self.devices.devices@.take(d as int));
            }
            if self.devices.devices[d].device == crate::devices::DeviceId::FlowTurbine {
                generation = generation + self.devices.devices[d].power_generated as u128;
            }
            proof {
                assert((d + 1) * 4294967295 == d * 4294967295 + 4294967295) by (nonlinear_arith);
            }
            d = d + 1;
        }
        proof {
            assert(self.power_sources@.take(k as int) =~= self.power_sources@);
            assert(self.devices.devices@.take(d as int) =~= self.devices.devices@);
            assert(generation <= 16_777_216 * 4294967295) by (nonlinear_arith)
                requires generation <= d * 4294967295, d <= 16_777_216;
            assert(supply <= usize::MAX * 4294967295) by (nonlinear_arith)
                requires supply <= k * 4294967295, k <= usize::MAX;
        }
        supply + generation <= u32::MAX as u128
    }

    fn authored_supply(&self) -> (total: u32)
        requires
            authored_supply_spec(self.power_sources@) <= u32::MAX,
        ensures
            total == authored_supply_spec(self.power_sources@),
    {
        let mut total: u32 = 0;
        let mut i: usize = 0;
        while i < self.power_sources.len()
            invariant
                i <= self.power_sources@.len(),
                total == authored_supply_spec(self.power_sources@.take(i as int)),
                authored_supply_spec(self.power_sources@) <= u32::MAX,
            decreases self.power_sources@.len() - i,
        {
            proof {
                let t = self.power_sources@.take(i as int + 1);
                assert(t.drop_last() == self.power_sources@.take(i as int));
                lemma_authored_supply_prefix(self.power_sources@, i as int + 1);
            }
            if self.power_sources[i].enabled {
                total = total + self.power_sources[i].output_eu_per_tick;
            }
            i = i + 1;
        }
        proof {
            assert(self.power_sources@.take(self.power_sources@.len() as int) == self.power_sources@);
        }
        total
    }

    /// Advance the world by one tick. Events of the previous tick are cleared, the
    /// tick counter advances (saturating), the fluid phases run, then power is
    /// allocated from the authored supply and the turbine output of the previous
    /// tick, each brownout is reported, and every device acts.
    pub fn tick(&mut self)
        requires
            old(self).wf(),
            old(self).room_for(1),
            authored_supply_spec(old(self).power_sources@) + turbine_generation(old(self).devices.devices@) <= u32::MAX,
        ensures
            final(self).wf(),
            forall|n: nat| #[trigger] old(self).room_for(n) && n >= 1 ==> final(self).room_for((n - 1) as nat),
            within_one_tick(*old(self), *final(self)),
            final(self).tick == saturating_inc(old(self).tick),
            final(self).width == old(self).width,
            final(self).height == old(self).height,
            final(self).definitions == old(self).definitions,
            final(self).sources == old(self).sources,
            final(self).source_schedule == old(self).source_schedule,
            final(self).deposits == old(self).deposits,
            final(self).power_sources == old(self).power_sources,
            final(self).fabrication == old(self).fabrication,
            final(self).cells@.len() == old(self).cells@.len(),
            final(self).devices.next_entity_id == old(self).devices.next_entity_id,
            final(self).devices.next_plan_id == old(self).devices.next_plan_id,
            final(self).devices.queued == old(self).devices.queued,
            final(self).devices.devices@.len() == old(self).devices.devices@.len(),
            final(self).power.authored_generation_eu == authored_supply_spec(old(self).power_sources@),
            final(self).power.turbine_generation_eu == turbine_generation(old(self).devices.devices@),
            exists|order: Seq<usize>| #![trigger priority_order(old(self).devices.devices@, order)] {
                let devices = old(self).devices.devices@;
                let supply = authored_supply_spec(old(self).power_sources@) + turbine_generation(devices);
                let brownouts = brownout_events(brownouts_after(devices, order, supply, order.len() as int));
                &&& priority_order(devices, order)
                &&& forall|i: int|
                    0 <= i < devices.len() ==> device_ticked(
                        DeviceState { powered: powered_after(devices, order, supply, i), ..devices[i] },
                        #[trigger] final(self).devices.devices@[i],
                        old(self).index_of(devices[i].anchor) is Some,
                    )
                &&& final(self).events@.len() >= brownouts.len()
                &&& final(self).events@.subrange(
                    final(self).events@.len() - brownouts.len(),
                    final(self).events@.len() as int,
                ) == brownouts
            },
            forall|i: int|
                0 <= i < final(self).devices.devices@.len() && (#[trigger] final(self).devices.devices@[i]).device
                    == crate::devices::DeviceId::RuneRelay ==> final(self).devices.devices@[i].active == relay_online(
                    final(self).devices.devices@,
                    final(self).devices.devices@[i],
                ),
            conserving(old(self).devices.devices@) ==> final(self).balance() == old(self).balance(),
            world_ticked(*old(self), *final(self)),
    {
        self.events.clear();
        self.tick = self.tick.saturating_add(1);
        let ghost w0 = *self;
        proof {
            assert(w0.room_for(1));
        }
        self.physical_step();
        let ghost w1 = *self;
        proof {
            lemma_turbine_generation_prefix(self.devices.devices@, 0);
            assert(physically_stepped(w0, w1));
        }
        let authored = self.authored_supply();
        let mut devices = DeviceSystem::default();
        std::mem::swap(&mut devices, &mut self.devices);
        let ghost listed = devices.devices@;
        let brownouts = devices.allocate_power(&mut self.power, authored);
        let ghost allocated = devices.devices@;
        let ghost wa = *self;
        let ghost events0 = self.events@;
        let mut k: usize = 0;
        while k < brownouts.len()
            invariant
                k <= brownouts@.len(),
                self.events@ == events0 + brownout_events(brownouts@.take(k as int)),
                *self == (SimulationWorld { events: self.events, ..wa }),
            decreases brownouts@.len() - k,
        {
            let (entity_id, demand_eu) = brownouts[k];
            self.events.push(SimEvent::PowerBrownout { entity_id, demand_eu });
            proof {
                assert(brownout_events(brownouts@.take(k as int + 1)) == brownout_events(brownouts@.take(k as int)).push(
                    SimEvent::PowerBrownout { entity_id, demand_eu },
                ));
            }
            k = k + 1;
        }
        proof {
            assert(brownouts@.take(brownouts@.len() as int) == brownouts@);
            assert(devices.wf());
            assert(self.wf());
        }
        let ghost w2 = *self;
        devices.tick(self);
        let ghost w3 = *self;
        std::mem::swap(&mut devices, &mut self.devices);
        proof {
            let supply = authored as int + turbine_generation(listed);
            let order = choose|order: Seq<usize>| #[trigger] priority_order(listed, order)
                && (forall|i: int| 0 <= i < listed.len() ==> #[trigger] allocated[i] == (DeviceState {
                    powered: powered_after(listed, order, supply, i),
                    ..listed[i]
                })) && brownouts@ == brownouts_after(listed, order, supply, order.len() as int);
            assert(self.wf());
            assert forall|i: int| 0 <= i < self.cells@.len() implies cell_products(#[trigger] self.cells@[i])
                <= cell_products(old(self).cells@[i]) + PRODUCT_GROWTH_PER_TICK by {
                assert(cell_products(w1.cells@[i]) <= cell_products(w0.cells@[i]) + PRODUCT_GROWTH_PER_TICK);
                assert(same_but_layers(w2.cells@[i], w3.cells@[i]));
            }
            assert(within_one_tick(*old(self), *self));
            assert forall|i: int| 0 <= i < self.cells@.len() implies same_but_layers(w1.cells@[i], #[trigger] self.cells@[i]) by {
                assert(same_but_layers(w2.cells@[i], w3.cells@[i]));
            }
            reveal(world_ticked);
            let (ws, acted) = choose|ws: Seq<SimulationWorld>, acted: Seq<DeviceState>| {
                &&& #[trigger] devices_acted(allocated, acted, ws)
                &&& ws[0] == w2
                &&& ws.last() == w3
                &&& forall|k: int| 0 <= k < acted.len() ==> #[trigger] self.devices.devices@[k] == (DeviceState {
                    active: self.devices.devices@[k].active,
                    ..acted[k]
                })
            };
            assert(listed == old(self).devices.devices@);
            assert(devices_acted(allocated, acted, ws) && ws[0].cells == w1.cells && ws.last().cells == self.cells);
            assert(world_ticked(*old(self), *self));
            assert forall|n: nat| #[trigger] old(self).room_for(n) && n >= 1 implies self.room_for((n - 1) as nat) by {
                lemma_room_after_tick(*old(self), *self, (n - 1) as nat);
            }
            let fin = self.devices.devices@;
            assert forall|i: int| 0 <= i < listed.len() implies device_ticked(
                DeviceState { powered: powered_after(listed, order, supply, i), ..listed[i] },
                #[trigger] fin[i],
                old(self).index_of(listed[i].anchor) is Some,
            ) by {
                assert(allocated[i] == (DeviceState { powered: powered_after(listed, order, supply, i), ..listed[i] }));
            }
            let be = brownout_events(brownouts_after(listed, order, supply, order.len() as int));
            assert(self.events@ == w1.events@ + be);
            assert(self.events@.subrange(self.events@.len() - be.len(), self.events@.len() as int) =~= be);
            if conserving(listed) {
                assert(conserving(allocated)) by {
                    assert forall|i: int| 0 <= i < allocated.len() implies (#[trigger] allocated[i]).device
                        != crate::devices::DeviceId::Reservoir && allocated[i].device != crate::devices::DeviceId::FlowTurbine by {
                        assert(allocated[i].device == listed[i].device);
                    }
                }
                lemma_devices_stored_frame(allocated, listed);
            }
        }
    }
}

/// The authored supply of a prefix never exceeds that of the whole list.
proof fn lemma_authored_supply_prefix(sources: Seq<PowerSource>, n: int)
    requires
        0 <= n <= sources.len(),
    ensures
        authored_supply_spec(sources.take(n)) <= authored_supply_spec(sources),
    decreases sources.len(),
{
    if n < sources.len() {
        assert(sources.drop_last().take(n) == sources.take(n));
        lemma_authored_supply_prefix(sources.drop_last(), n);
    } else {
        assert(sources.take(n) == sources);
    }
}

} // verus!
