//! The material laboratory: nine sealed bays (four filled, five reserved),
//! interaction lanes and an automatic 300-tick scenario.

use vstd::prelude::*;

use crate::campaign::edit::{edit_cell, edit_holds, in_rect, same_but_grid, CellEdit};
use crate::simulation::world::{fresh_world, injected_into, poured};
use crate::devices::power::turbine_generation;
use crate::devices::showcase::lemma_room_when_small;
use crate::simulation::fingerprint::world_fingerprint;
use crate::simulation::step::{authored_supply_spec, world_ticked};
use crate::simulation::min_int;
use crate::simulation::{cell_products, lemma_room_monotone, FluidId, SimEvent, SimulationWorld};
use crate::state::{lemma_grid_index_bound, CellPos};

verus! {

pub const LAB_WIDTH: u16 = 64;

pub const LAB_HEIGHT: u16 = 48;

/// One laboratory bay: its name, its fluid (none for a reserved bay) and the
/// corner of its 4 by 4 sealed floor.
#[derive(Debug, Clone, Copy, PartialEq, Eq)]
pub struct FluidBay {
    pub name: &'static str,
    pub fluid: Option<FluidId>,
    pub origin: CellPos,
}

/// The bay fluids and origins in order.
pub open spec fn bay_spec(k: int) -> (Option<FluidId>, CellPos) {
    if k == 0 {
        (Some(FluidId::Water), CellPos { x: 2, y: 2 })
    } else if k == 1 {
        (None, CellPos { x: 27, y: 2 })
    } else if k == 2 {
        (Some(FluidId::Lava), CellPos { x: 52, y: 2 })
    } else if k == 3 {
        (Some(FluidId::Steam), CellPos { x: 2, y: 20 })
    } else if k == 4 {
        (None, CellPos { x: 52, y: 20 })
    } else if k == 5 {
        (None, CellPos { x: 2, y: 38 })
    } else if k == 6 {
        (Some(FluidId::ToxicSlurry), CellPos { x: 52, y: 38 })
    } else if k == 7 {
        (None, CellPos { x: 20, y: 38 })
    } else {
        (None, CellPos { x: 38, y: 38 })
    }
}

/// The number of filled bays among the first `k`.
pub open spec fn filled_bays(k: int) -> int
    decreases k,
{
    if k <= 0 {
        0
    } else {
        filled_bays(k - 1) + if bay_spec(k - 1).0 is Some {
            1int
        } else {
            0int
        }
    }
}

/// The nine laboratory bays.
pub fn lab_bays() -> (bays: [FluidBay; 9])
    ensures
        forall|k: int| 0 <= k < 9 ==> (#[trigger] bays@[k]).fluid == bay_spec(k).0 && bays@[k].origin == bay_spec(k).1,
{
    let bays = [
        FluidBay { name: "north_west_water", fluid: Some(FluidId::Water), origin: CellPos { x: 2, y: 2 } },
        FluidBay { name: "north_brine_reserved", fluid: None, origin: CellPos { x: 27, y: 2 } },
        FluidBay { name: "north_east_lava", fluid: Some(FluidId::Lava), origin: CellPos { x: 52, y: 2 } },
        FluidBay { name: "west_north_steam", fluid: Some(FluidId::Steam), origin: CellPos { x: 2, y: 20 } },
        FluidBay { name: "east_north_cryofluid_reserved", fluid: None, origin: CellPos { x: 52, y: 20 } },
        FluidBay { name: "west_south_acid_reserved", fluid: None, origin: CellPos { x: 2, y: 38 } },
        FluidBay { name: "east_south_slurry", fluid: Some(FluidId::ToxicSlurry), origin: CellPos { x: 52, y: 38 } },
        FluidBay { name: "south_west_nutrient_reserved", fluid: None, origin: CellPos { x: 20, y: 38 } },
        FluidBay { name: "south_east_aether_reserved", fluid: None, origin: CellPos { x: 38, y: 38 } },
    ];
    bays
}

/// What the automatic scenario reports.
#[derive(Debug, Clone, Copy, PartialEq, Eq, Structural)]
pub struct LabReport {
    pub tick: u64,
    pub state_hash: u64,
    pub active_bays: usize,
    pub reserved_bays_empty: bool,
    pub reaction_events: usize,
    pub mass_balance_ok: bool,
    pub passed: bool,
}

/// The laboratory world.
#[derive(Debug, Clone)]
pub struct FluidsLab {
    pub world: SimulationWorld,
}

/// A laboratory world: the lab grid, well formed, balanced, with small counters,
/// no devices, sources or authored power.
pub open spec fn lab_shape(world: SimulationWorld) -> bool {
    &&& world.wf()
    &&& world.width == LAB_WIDTH
    &&& world.height == LAB_HEIGHT
    &&& world.balance() == 0
    &&& world.devices.devices@.len() == 0
    &&& world.sources@.len() == 0
    &&& world.power_sources@.len() == 0
}

/// `b` is `a` once bay `k` is built (see `FluidsLab::new`): its floor sealed and, for
/// a filled bay, its source cell raised to 2000 hU, the cell five east of it
/// lowered to 0 hU, and 2000 vU of its fluid poured at the source.
pub open spec fn bay_built(a: SimulationWorld, b: SimulationWorld, k: int) -> bool {
    let o = bay_spec(k).1;
    let source = CellPos { x: (o.x + 1) as u16, y: (o.y + 1) as u16 };
    let lower = CellPos { x: (o.x + 6) as u16, y: (o.y + 1) as u16 };
    match bay_spec(k).0 {
        Some(f) => exists|m1: SimulationWorld, m2: SimulationWorld, m3: SimulationWorld|
            #![trigger same_but_grid(a, m1), same_but_grid(m1, m2), same_but_grid(m2, m3)]
            {
                &&& same_but_grid(a, m1)
                &&& forall|p: CellPos| #![trigger a.index_of(p)] edit_holds(a, m1, p, CellEdit::Seal,
                    in_rect(p, o.x, (o.x + 3) as u16, o.y, (o.y + 3) as u16))
                &&& same_but_grid(m1, m2)
                &&& forall|p: CellPos| #![trigger m1.index_of(p)] edit_holds(m1, m2, p, CellEdit::Height(2_000), p == source)
                &&& same_but_grid(m2, m3)
                &&& forall|p: CellPos| #![trigger m2.index_of(p)] edit_holds(m2, m3, p, CellEdit::Height(0), p == lower)
                &&& injected_into(m3, b, source, f, 2_000)
            },
        None => {
            &&& same_but_grid(a, b)
            &&& forall|p: CellPos| #![trigger a.index_of(p)] edit_holds(a, b, p, CellEdit::Seal,
                in_rect(p, o.x, (o.x + 3) as u16, o.y, (o.y + 3) as u16))
        },
    }
}

/// `w` is the laboratory as `FluidsLab::new` builds it: a new 64 by 48 world, the
/// nine bays built in order, then the interaction lanes poured.
#[verifier::opaque]
pub open spec fn lab_built(w: SimulationWorld) -> bool {
    exists|ws: Seq<SimulationWorld>| {
        &&& ws.len() == 10
        &&& #[trigger] fresh_world(ws[0], LAB_WIDTH, LAB_HEIGHT)
        &&& forall|k: int| 0 <= k < 9 ==> bay_built(#[trigger] ws[k], ws[k + 1], k)
        &&& poured(ws[9], w, lane_pours(), 1_000)
    }
}

/// How many of the events are material reactions.
pub open spec fn reactions_in(events: Seq<SimEvent>) -> nat
    decreases events.len(),
{
    if events.len() == 0 {
        0
    } else {
        reactions_in(events.drop_last()) + if events.last() is MaterialReacted { 1nat } else { 0nat }
    }
}

/// The reactions reported over the first `n` ticks of the worlds `ws`.
pub open spec fn reactions_over(ws: Seq<SimulationWorld>, n: int) -> nat
    decreases n,
{
    if n <= 0 {
        0
    } else {
        reactions_over(ws, n - 1) + reactions_in(ws[n].events@)
    }
}

/// `ws` is a run of world ticks (see `world_ticked`).
pub open spec fn tick_run(ws: Seq<SimulationWorld>) -> bool {
    forall|t: int| 0 <= t < ws.len() - 1 ==> world_ticked(#[trigger] ws[t], ws[t + 1])
}

/// Every reserved bay's corner cell holds no fluid.
pub open spec fn reserved_bays_empty_spec(world: SimulationWorld) -> bool {
    forall|k: int|
        0 <= k < 9 && (#[trigger] bay_spec(k)).0 is None ==> {
            let c = world.cells@[world.index_of(bay_spec(k).1)->0 as int];
            c.surface@.len() == 0 && c.airborne@.len() == 0
        }
}

/// Where the interaction lanes are poured, and with what: water with lava, lava
/// with slurry, steam alone, water with slurry.
pub open spec fn lane_pours() -> Seq<(CellPos, FluidId)> {
    seq![
        (CellPos { x: 29, y: 20 }, FluidId::Water),
        (CellPos { x: 29, y: 20 }, FluidId::Lava),
        (CellPos { x: 34, y: 20 }, FluidId::Lava),
        (CellPos { x: 34, y: 20 }, FluidId::ToxicSlurry),
        (CellPos { x: 29, y: 26 }, FluidId::Steam),
        (CellPos { x: 34, y: 26 }, FluidId::Water),
        (CellPos { x: 34, y: 26 }, FluidId::ToxicSlurry),
    ]
}

/// Seal a bay's 4 by 4 floor.
fn seal_bay(world: &mut SimulationWorld, origin: CellPos)
    requires
        old(world).wf(),
        origin.x <= 60,
        origin.y <= 44,
    ensures
        final(world).wf(),
        final(world).balance() == old(world).balance(),
        crate::campaign::edit::edited_where(
            *old(world),
            *final(world),
            CellEdit::Seal,
            |p: CellPos| crate::campaign::edit::in_rect(p, origin.x, (origin.x + 3) as u16, origin.y, (origin.y + 3) as u16),
        ),
        crate::campaign::edit::same_but_grid(*old(world), *final(world)),
        forall|i: int| 0 <= i < final(world).cells@.len() ==> cell_products(#[trigger] final(world).cells@[i])
            == cell_products(old(world).cells@[i]),
{
    crate::campaign::edit::edit_rect(world, origin.x, origin.x + 3, origin.y, origin.y + 3, CellEdit::Seal);
}

/// The reactions over a prefix depend only on the worlds in it.
proof fn lemma_reactions_prefix(a: Seq<SimulationWorld>, b: Seq<SimulationWorld>, n: int)
    requires
        0 <= n < a.len(),
        a.len() <= b.len(),
        forall|k: int| 0 <= k < a.len() ==> a[k] == b[k],
    ensures
        reactions_over(a, n) == reactions_over(b, n),
    decreases n,
{
    if n > 0 {
        lemma_reactions_prefix(a, b, n - 1);
    }
}

impl FluidsLab {
    /// Build the laboratory: every bay floor sealed; each filled bay gets a
    /// 2000 hU source cell one in from its corner holding 2000 vU of its fluid and
    /// a 0 hU sink five cells east of it; the interaction lanes are seeded.
    pub fn new() -> (lab: Self)
        ensures
            lab_shape(lab.world),
            lab.world.tick == 0,
            lab.world.room_for(1000),
            lab_built(lab.world),
    {
        let mut world = SimulationWorld::new(LAB_WIDTH, LAB_HEIGHT);
        let ghost mut ws: Seq<SimulationWorld> = seq![world];
        let bays = lab_bays();
        let mut k: usize = 0;
        while k < 9
            invariant
                k <= 9,
                ws.len() == k + 1,
                fresh_world(ws[0], LAB_WIDTH, LAB_HEIGHT),
                ws.last() == world,
                forall|j: int| 0 <= j < k ==> bay_built(#[trigger] ws[j], ws[j + 1], j),
                lab_shape(world),
                world.tick == 0,
                world.ledger.drained == 0 && world.ledger.reacted == 0 && world.ledger.products == 0,
                world.ledger.injected <= k * 2000,
                forall|i: int| 0 <= i < world.cells@.len() ==> cell_products(#[trigger] world.cells@[i]) == 0,
                forall|j: int| 0 <= j < 9 ==> (#[trigger] bays@[j]).fluid == bay_spec(j).0 && bays@[j].origin == bay_spec(j).1,
            decreases 9 - k,
        {
            let bay = bays[k];
            let origin = bay.origin;
            let ghost w0 = world;
            seal_bay(&mut world, origin);
            let ghost m1 = world;
            if let Some(fluid) = bay.fluid {
                let source = CellPos { x: origin.x + 1, y: origin.y + 1 };
                edit_cell(&mut world, source, CellEdit::Height(2_000));
                let ghost m2 = world;
                let lower = CellPos { x: origin.x + 6, y: origin.y + 1 };
                edit_cell(&mut world, lower, CellEdit::Height(0));
                let ghost before = world;
                world.inject(source, fluid, 2_000);
                proof {
                    assert(same_but_grid(w0, m1) && same_but_grid(m1, m2) && same_but_grid(m2, before));
                    assert(bay_built(w0, world, k as int));
                }
                proof {
                    assert forall|i: int| 0 <= i < world.cells@.len() implies cell_products(#[trigger] world.cells@[i]) == 0 by {
                        lemma_grid_index_bound(world.width, world.height, source);
                        assert(cell_products(before.cells@[i]) == 0);
                    }
                }
            }
            proof {
                assert(bay_built(w0, world, k as int));
                let ws2 = ws.push(world);
                assert forall|j: int| 0 <= j < k + 1 implies bay_built(#[trigger] ws2[j], ws2[j + 1], j) by {
                    if j < k {
                        assert(ws2[j] == ws[j] && ws2[j + 1] == ws[j + 1]);
                    } else {
                        assert(ws2[j] == w0);
                    }
                }
                ws = ws2;
            }
            k = k + 1;
        }
        let ghost built = world;
        Self::seed_interaction_lanes(&mut world);
        proof {
            lemma_room_when_small(world, 1000);
            assert(fresh_world(ws[0], LAB_WIDTH, LAB_HEIGHT));
            reveal(lab_built);
            assert(lab_built(world));
        }
        FluidsLab { world }
    }

    /// Pour the interaction lanes: water with lava, lava with slurry, steam alone
    /// to condense, water with slurry that does not react.
    fn seed_interaction_lanes(world: &mut SimulationWorld)
        requires
            lab_shape(*old(world)),
            old(world).ledger.injected <= 18_000,
            forall|i: int| 0 <= i < old(world).cells@.len() ==> cell_products(#[trigger] old(world).cells@[i]) == 0,
        ensures
            lab_shape(*final(world)),
            final(world).tick == old(world).tick,
            final(world).ledger.injected <= old(world).ledger.injected + 7 * 8000,
            final(world).ledger.drained == old(world).ledger.drained,
            final(world).ledger.reacted == old(world).ledger.reacted,
            final(world).ledger.products == old(world).ledger.products,
            forall|i: int| 0 <= i < final(world).cells@.len() ==> cell_products(#[trigger] final(world).cells@[i]) == 0,
            crate::simulation::world::poured(*old(world), *final(world), lane_pours(), 1_000),
    {
        let lanes: [(u16, u16, FluidId); 7] = [
            (29, 20, FluidId::Water),
            (29, 20, FluidId::Lava),
            (34, 20, FluidId::Lava),
            (34, 20, FluidId::ToxicSlurry),
            (29, 26, FluidId::Steam),
            (34, 26, FluidId::Water),
            (34, 26, FluidId::ToxicSlurry),
        ];
        let mut k: usize = 0;
        proof {
            crate::simulation::world::lemma_poured_none(*world, 1_000);
            assert(lane_pours().take(0) =~= seq![]);
        }
        while k < 7
            invariant
                k <= 7,
                lab_shape(*world),
                world.tick == old(world).tick,
                world.ledger.injected <= old(world).ledger.injected + k * 8000,
                old(world).ledger.injected <= 18_000,
                world.ledger.drained == old(world).ledger.drained,
                world.ledger.reacted == old(world).ledger.reacted,
                world.ledger.products == old(world).ledger.products,
                forall|i: int| 0 <= i < world.cells@.len() ==> cell_products(#[trigger] world.cells@[i]) == 0,
                forall|j: int| 0 <= j < 7 ==> lane_pours()[j] == (CellPos { x: (#[trigger] lanes@[j]).0, y: lanes@[j].1 }, lanes@[j].2),
                crate::simulation::world::poured(*old(world), *world, lane_pours().take(k as int), 1_000),
            decreases 7 - k,
        {
            let (x, y, fluid) = lanes[k];
            let ghost before = *world;
            world.inject(CellPos { x, y }, fluid, 1_000);
            proof {
                let next = lane_pours().take(k as int + 1);
                assert(next.drop_last() =~= lane_pours().take(k as int));
                assert(next.last() == (CellPos { x, y }, fluid));
                assert(crate::simulation::world::poured(*old(world), before, next.drop_last(), 1_000));
                assert(crate::simulation::world::injected_into(before, *world, CellPos { x, y }, fluid, 1_000));
                assert(next.len() == k + 1);
                crate::simulation::world::lemma_poured_step(*old(world), before, *world, next, 1_000);
                assert forall|i: int| 0 <= i < world.cells@.len() implies cell_products(#[trigger] world.cells@[i]) == 0 by {
                    lemma_grid_index_bound(world.width, world.height, CellPos { x, y });
                    assert(cell_products(before.cells@[i]) == 0);
                }
            }
            k = k + 1;
        }
        proof {
            assert(lane_pours().take(7) =~= lane_pours());
        }
    }

    /// Rebuild the laboratory from scratch.
    pub fn reset(&mut self)
        ensures
            lab_shape(final(self).world),
            final(self).world.tick == 0,
            final(self).world.room_for(1000),
            lab_built(final(self).world),
    {
        *self = Self::new();
    }

    /// Reset, run 300 ticks counting reaction events, then report: the tick, the
    /// fingerprint, the four filled bays, whether every reserved bay's corner is
    /// dry, whether mass balances, and whether all of that passed with material
    /// injected.
    pub fn automatic_scenario(&mut self) -> (report: LabReport)
        ensures
            lab_shape(final(self).world),
            final(self).world.tick == 300,
            report.tick == 300,
            report.state_hash == world_fingerprint(final(self).world),
            report.active_bays == 4,
            report.mass_balance_ok,
            report.reserved_bays_empty == reserved_bays_empty_spec(final(self).world),
            report.passed == (report.reserved_bays_empty && final(self).world.ledger.injected > 0),
            exists|ws: Seq<SimulationWorld>| {
                &&& ws.len() == 301
                &&& #[trigger] lab_built(ws[0])
                &&& tick_run(ws)
                &&& ws.last() == final(self).world
                &&& report.reaction_events == min_int(reactions_over(ws, 300) as int, usize::MAX as int)
            },
    {
        self.reset();
        let mut reaction_events: usize = 0;
        let mut t: u64 = 0;
        let ghost mut ws: Seq<SimulationWorld> = seq![self.world];
        while t < 300
            invariant
                t <= 300,
                lab_shape(self.world),
                self.world.tick == t,
                self.world.room_for((1000 - t) as nat),
                ws.len() == t + 1,
                lab_built(ws[0]),
                tick_run(ws),
                ws.last() == self.world,
                reaction_events == min_int(reactions_over(ws, t as int) as int, usize::MAX as int),
            decreases 300 - t,
        {
            let ghost before = self.world;
            proof {
                assert(authored_supply_spec(self.world.power_sources@) == 0);
                assert(turbine_generation(self.world.devices.devices@) == 0);
                lemma_room_monotone(self.world, (1000 - t) as nat, 1);
            }
            self.world.tick();
            let ghost base = reactions_over(ws, t as int);
            let mut e: usize = 0;
            while e < self.world.events.len()
                invariant
                    e <= self.world.events@.len(),
                    reaction_events == min_int((base + reactions_in(self.world.events@.take(e as int))) as int, usize::MAX as int),
                decreases self.world.events@.len() - e,
            {
                proof {
                    assert(self.world.events@.take(e as int + 1).drop_last() =~= self.world.events@.take(e as int));
                }
                if let SimEvent::MaterialReacted { .. } = &self.world.events[e] {
                    reaction_events = reaction_events.saturating_add(1);
                }
                e = e + 1;
            }
            proof {
                assert(self.world.events@.take(e as int) =~= self.world.events@);
                let ws2 = ws.push(self.world);
                assert forall|k: int| 0 <= k < ws2.len() - 1 implies world_ticked(#[trigger] ws2[k], ws2[k + 1]) by {
                    if k < ws.len() - 1 {
                        assert(ws2[k] == ws[k] && ws2[k + 1] == ws[k + 1]);
                    } else {
                        assert(ws2[k] == before);
                    }
                }
                assert(reactions_over(ws2, t as int) == reactions_over(ws, t as int)) by {
                    lemma_reactions_prefix(ws, ws2, t as int);
                }
                ws = ws2;
            }
            t = t + 1;
        }
        let bays = lab_bays();
        let mut reserved_bays_empty = true;
        let mut active_bays: usize = 0;
        let mut k: usize = 0;
        while k < 9
            invariant
                k <= 9,
                lab_shape(self.world),
                forall|j: int| 0 <= j < 9 ==> (#[trigger] bays@[j]).fluid == bay_spec(j).0 && bays@[j].origin == bay_spec(j).1,
                active_bays == filled_bays(k as int),
                active_bays <= k,
                reserved_bays_empty == forall|j: int|
                    0 <= j < k && (#[trigger] bay_spec(j)).0 is None ==> {
                        let c = self.world.cells@[self.world.index_of(bay_spec(j).1)->0 as int];
                        c.surface@.len() == 0 && c.airborne@.len() == 0
                    },
            decreases 9 - k,
        {
            let bay = bays[k];
            if bay.fluid.is_none() {
                let index = match self.world.index(bay.origin) {
                    Some(i) => i,
                    None => 0,
                };
                proof {
                    lemma_grid_index_bound(self.world.width, self.world.height, bay.origin);
                }
                let dry = self.world.cells[index].surface.len() == 0 && self.world.cells[index].airborne.len() == 0;
                reserved_bays_empty = reserved_bays_empty && dry;
            } else {
                active_bays = active_bays + 1;
            }
            k = k + 1;
        }
        proof {
            lemma_room_monotone(self.world, 700, 0);
            reveal_with_fuel(filled_bays, 10);
        }
        let mass_balance_ok = self.world.mass_balance_error() == 0;
        let tick = self.world.tick;
        let passed = reserved_bays_empty && tick == 300 && self.world.ledger.injected > 0 && mass_balance_ok;
        LabReport {
            tick,
            state_hash: self.world.fingerprint(),
            active_bays,
            reserved_bays_empty,
            reaction_events,
            mass_balance_ok,
            passed,
        }
    }
}

} // verus!
