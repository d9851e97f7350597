//! World construction, lookup, injection, sources, deposits and terrain edits.

use vstd::prelude::*;

use super::entries::{entries_wf, fluid_volume, lemma_volume_by_fluid, seq_volume};
use super::{
    accepted_volume, cell_material, cells_material, default_definition, devices_stored,
    fresh_entry, layer_after_add, lemma_cells_material_update, lemma_totals_nonnegative,
    cell_products, CellDefinition, FluidEntry, FluidId, MassLedger, SimCell, SimEvent, SimulationWorld,
    SourceState, TerrainAction, TerrainError, CELL_CAPACITY_VU, ENTITY_LIMIT, LEDGER_LIMIT_VU, PRODUCT_GROWTH_PER_TICK, PRODUCT_LIMIT_VU,
};
use crate::devices::DeviceSystem;
use crate::economy::{FabricationError, FabricationState, PowerLedger, PowerSource, ResourceDeposit};
use crate::state::{grid_index, lemma_grid_index_bound, CellPos};
use crate::text::{decimal, push_decimal};

verus! {

/// The four orthogonal neighbours of `pos` that lie on the grid, in the order
/// north, east, south, west, each tagged with that direction number.
pub open spec fn neighbors_spec(width: u16, height: u16, pos: CellPos) -> Seq<(CellPos, u8)> {
    let north: Seq<(CellPos, u8)> = if pos.y >= 1 && pos.x < width && pos.y - 1 < height {
        seq![(CellPos { x: pos.x, y: (pos.y - 1) as u16 }, 0u8)]
    } else {
        seq![]
    };
    let east: Seq<(CellPos, u8)> = if pos.x + 1 < width && pos.y < height {
        seq![(CellPos { x: (pos.x + 1) as u16, y: pos.y }, 1u8)]
    } else {
        seq![]
    };
    let south: Seq<(CellPos, u8)> = if pos.x < width && pos.y + 1 < height {
        seq![(CellPos { x: pos.x, y: (pos.y + 1) as u16 }, 2u8)]
    } else {
        seq![]
    };
    let west: Seq<(CellPos, u8)> = if pos.x >= 1 && pos.x - 1 < width && pos.y < height {
        seq![(CellPos { x: (pos.x - 1) as u16, y: pos.y }, 3u8)]
    } else {
        seq![]
    };
    north + east + south + west
}

/// How much of an injection the target layer of cell `pos` accepts.
pub open spec fn injection_accepted(world: SimulationWorld, pos: CellPos, fluid: FluidId, volume_vu: u32) -> u32 {
    match world.index_of(pos) {
        Some(i) => if fluid == FluidId::Steam {
            accepted_volume(volume_vu, seq_volume(world.cells@[i as int].airborne@))
        } else {
            accepted_volume(volume_vu, seq_volume(world.cells@[i as int].surface@))
        },
        None => 0,
    }
}

/// Every field other than the cells, ledger and events is equal.
pub open spec fn same_apart_from_cells(a: SimulationWorld, b: SimulationWorld) -> bool {
    &&& a.width == b.width
    &&& a.height == b.height
    &&& a.definitions == b.definitions
    &&& a.tick == b.tick
    &&& a.devices == b.devices
    &&& a.sources == b.sources
    &&& a.source_schedule == b.source_schedule
    &&& a.deposits == b.deposits
    &&& a.power_sources == b.power_sources
    &&& a.fabrication == b.fabrication
    &&& a.power == b.power
}

/// First deposit carrying the identifier.
pub open spec fn first_deposit_with_id(deposits: Seq<ResourceDeposit>, id: Seq<char>, i: int) -> bool {
    &&& 0 <= i < deposits.len()
    &&& deposits[i].id@ == id
    &&& forall|j: int| 0 <= j < i ==> deposits[j].id@ != id
}

/// First deposit at the position.
pub open spec fn first_deposit_at(deposits: Seq<ResourceDeposit>, position: CellPos, i: int) -> bool {
    &&& 0 <= i < deposits.len()
    &&& deposits[i].position == position
    &&& forall|j: int| 0 <= j < i ==> deposits[j].position != position
}

/// The label of a cell position: its two coordinates in decimal around a comma.
fn position_label(x: u16, y: u16) -> (label: String)
    ensures
        label@ == decimal(x as nat) + seq![','] + decimal(y as nat),
{
    let mut label = String::new();
    push_decimal(&mut label, x as u64);
    label.append(",");
    push_decimal(&mut label, y as u64);
    proof {
        reveal_strlit(",");
        assert(label@ =~= decimal(x as nat) + seq![','] + decimal(y as nat));
    }
    label
}

/// A deposit carrying an identifier gives a first such deposit.
pub proof fn lemma_first_deposit_exists(deposits: Seq<ResourceDeposit>, id: Seq<char>, k: int)
    requires
        0 <= k < deposits.len(),
        deposits[k].id@ == id,
    ensures
        exists|i: int| first_deposit_with_id(deposits, id, i),
    decreases k,
{
    if forall|j: int| 0 <= j < k ==> deposits[j].id@ != id {
        assert(first_deposit_with_id(deposits, id, k));
    } else {
        let j = choose|j: int| 0 <= j < k && !(deposits[j].id@ != id);
        lemma_first_deposit_exists(deposits, id, j);
    }
}

/// `w1` is `w0` after pouring `volume_vu` of `fluid` into the cell at `pos` (see `SimulationWorld::inject`).
pub open spec fn injected_into(w0: SimulationWorld, w1: SimulationWorld, pos: CellPos, fluid: FluidId, volume_vu: u32) -> bool {
    &&& same_apart_from_cells(w0, w1)
    &&& w1.ledger == (MassLedger {
        injected: (w0.ledger.injected + injection_accepted(w0, pos, fluid, volume_vu)) as u64,
        ..w0.ledger
    })
    &&& match w0.index_of(pos) {
        None => w1.cells == w0.cells && w1.events == w0.events,
        Some(i) => {
            let accepted = injection_accepted(w0, pos, fluid, volume_vu);
            let before = w0.cells@[i as int];
            let after = w1.cells@[i as int];
            &&& w1.cells@ == w0.cells@.update(i as int, after)
            &&& if fluid == FluidId::Steam {
                &&& layer_after_add(before.airborne@, after.airborne@, fresh_entry(fluid, volume_vu), accepted)
                &&& after == SimCell { airborne: after.airborne, ..before }
            } else {
                &&& layer_after_add(before.surface@, after.surface@, fresh_entry(fluid, volume_vu), accepted)
                &&& after == SimCell { surface: after.surface, ..before }
            }
            &&& w1.events@ == if accepted < volume_vu {
                w0.events@.push(SimEvent::SourceBackpressure {
                    cell: pos,
                    requested_vu: volume_vu,
                    accepted_vu: accepted,
                })
            } else {
                w0.events@
            }
        },
    }
    &&& w1.material() == w0.material() + injection_accepted(w0, pos, fluid, volume_vu)
    &&& w1.balance() == w0.balance()
}

/// `w1` is `w0` after the terrain edit `action` at `pos` gave `result` (see `SimulationWorld::terrain_edit`).
pub open spec fn terrain_edited(w0: SimulationWorld, w1: SimulationWorld, pos: CellPos, action: TerrainAction, result: Result<(), TerrainError>) -> bool {
    &&& w1.balance() == w0.balance()
    &&& match w0.index_of(pos) {
        None => result == Err::<(), TerrainError>(TerrainError::OutOfBounds) && w1 == w0,
        Some(i) => {
            let cell = w0.cells@[i as int];
            let definition = w0.definitions@[i as int];
            if definition.protected {
                result == Err::<(), TerrainError>(TerrainError::Protected) && w1 == w0
            } else if action == TerrainAction::Raise && seq_volume(cell.surface@) > 0 {
                result == Err::<(), TerrainError>(TerrainError::Capacity) && w1 == w0
            } else {
                &&& result is Ok
                &&& w1.cells@ == w0.cells@.update(
                    i as int,
                    match action {
                        TerrainAction::Excavate => SimCell {
                            height_hu: if cell.height_hu - 250 >= definition.minimum_height_hu {
                                (cell.height_hu - 250) as i16
                            } else {
                                definition.minimum_height_hu
                            },
                            ..cell
                        },
                        TerrainAction::Raise => SimCell {
                            height_hu: if cell.height_hu + 250 <= definition.maximum_height_hu {
                                (cell.height_hu + 250) as i16
                            } else {
                                definition.maximum_height_hu
                            },
                            ..cell
                        },
                        TerrainAction::Seal => SimCell { sealed: true, ..cell },
                    },
                )
                &&& w1 == (SimulationWorld { cells: w1.cells, ..w0 })
            }
        },
    }
}

/// `w1` is `w0` after recovering the deposit at `position` gave `result` (see `SimulationWorld::recover_deposit_at`).
pub open spec fn recovered_at(w0: SimulationWorld, w1: SimulationWorld, position: CellPos, result: Result<u32, FabricationError>) -> bool {
    &&& w1.balance() == w0.balance()
    &&& w1.fabrication.balance() == w0.fabrication.balance()
    &&& (forall|i: int| !first_deposit_at(w0.deposits@, position, i)) ==> {
        &&& w1 == w0
        &&& result matches Err(FabricationError::DepositNotFound(label))
            && label@ == decimal(position.x as nat) + seq![','] + decimal(position.y as nat)
    }
    &&& forall|i: int| first_deposit_at(w0.deposits@, position, i) ==> {
        let id = w0.deposits@[i].id@;
        &&& (exists|k: int| first_deposit_with_id(w0.deposits@, id, k)
            && !w0.deposits@[k].depleted) <==> result is Ok
        &&& result matches Err(e) ==> (w1 == w0
            && (e matches FabricationError::DepositDepleted(d) && d@ == id))
        &&& result matches Ok(y) ==> exists|k: int| {
            &&& first_deposit_with_id(w0.deposits@, id, k)
            &&& y == w0.deposits@[k].yield_fu
            &&& w1.deposits@ == w0.deposits@.update(
                k,
                ResourceDeposit { depleted: true, ..w0.deposits@[k] },
            )
        }
    }
}

/// `ws` walks from one world to the next by pouring `volume_vu` at each of
/// `pours` in order (see `injected_into`).
pub open spec fn pour_steps(ws: Seq<SimulationWorld>, pours: Seq<(CellPos, FluidId)>, volume_vu: u32) -> bool {
    &&& ws.len() == pours.len() + 1
    &&& forall|i: int| 0 <= i < pours.len() ==> injected_into(#[trigger] ws[i], ws[i + 1], pours[i].0, pours[i].1, volume_vu)
}

/// `w1` is `w0` after pouring `volume_vu` at each of `pours` in order.
pub open spec fn poured(w0: SimulationWorld, w1: SimulationWorld, pours: Seq<(CellPos, FluidId)>, volume_vu: u32) -> bool {
    exists|ws: Seq<SimulationWorld>| #[trigger] pour_steps(ws, pours, volume_vu) && ws[0] == w0 && ws.last() == w1
}

/// No pour leaves the world as it was.
pub proof fn lemma_poured_none(w: SimulationWorld, volume_vu: u32)
    ensures
        poured(w, w, seq![], volume_vu),
{
    assert(pour_steps(seq![w], seq![], volume_vu));
}

/// One more pour extends a run of pours.
pub proof fn lemma_poured_step(w0: SimulationWorld, mid: SimulationWorld, w1: SimulationWorld, pours: Seq<(CellPos, FluidId)>, volume_vu: u32)
    requires
        pours.len() > 0,
        poured(w0, mid, pours.drop_last(), volume_vu),
        injected_into(mid, w1, pours.last().0, pours.last().1, volume_vu),
    ensures
        poured(w0, w1, pours, volume_vu),
{
    let ws = choose|ws: Seq<SimulationWorld>| #[trigger] pour_steps(ws, pours.drop_last(), volume_vu) && ws[0] == w0 && ws.last() == mid;
    let ws2 = ws.push(w1);
    assert forall|i: int| 0 <= i < pours.len() implies injected_into(#[trigger] ws2[i], ws2[i + 1], pours[i].0, pours[i].1, volume_vu) by {
        if i < pours.len() - 1 {
            assert(ws2[i] == ws[i] && ws2[i + 1] == ws[i + 1]);
            assert(pours[i] == pours.drop_last()[i]);
        }
    }
    assert(pour_steps(ws2, pours, volume_vu));
}

/// `w1` is `w0` after recovering the deposit `id` gave `result` (see `SimulationWorld::recover_deposit`).
pub open spec fn deposit_recovered(w0: SimulationWorld, w1: SimulationWorld, id: Seq<char>, result: Result<u32, FabricationError>) -> bool {
    &&& match result {
        Ok(yield_fu) => exists|i: int| {
            &&& first_deposit_with_id(w0.deposits@, id, i)
            &&& !w0.deposits@[i].depleted
            &&& yield_fu == w0.deposits@[i].yield_fu
            &&& w1.deposits@ == w0.deposits@.update(
                i,
                ResourceDeposit { depleted: true, ..w0.deposits@[i] },
            )
            &&& w1.fabrication == FabricationState {
                recovered_fu: (w0.fabrication.recovered_fu + yield_fu) as u32,
                available_fu: (w0.fabrication.available_fu + yield_fu) as u32,
                ..w0.fabrication
            }
            &&& w1.events@.len() == w0.events@.len() + 1
            &&& forall|j: int| 0 <= j < w0.events@.len() ==> #[trigger] w1.events@[j]
                == w0.events@[j]
            &&& w1.events@.last() matches SimEvent::DepositRecovered { id: event_id, yield_fu: y }
                && event_id@ == id && y == yield_fu
            &&& w1 == (SimulationWorld {
                deposits: w1.deposits,
                fabrication: w1.fabrication,
                events: w1.events,
                ..w0
            })
        },
        Err(error) => {
            &&& w1 == w0
            &&& if exists|i: int| first_deposit_with_id(w0.deposits@, id, i) {
                error matches FabricationError::DepositDepleted(e) && e@ == id
            } else {
                error matches FabricationError::DepositNotFound(e) && e@ == id
            }
        },
    }
    &&& (exists|i: int| first_deposit_with_id(w0.deposits@, id, i) && !w0.deposits@[i].depleted)
        <==> result is Ok
}

/// A flat, dry `width` by `height` world of default cells, as a new world is.
pub open spec fn fresh_world(world: SimulationWorld, width: u16, height: u16) -> bool {
    &&& world.width == width
    &&& world.height == height
    &&& world.definitions@.len() == width * height
    &&& world.cells@.len() == width * height
    &&& forall|i: int| 0 <= i < world.definitions@.len() ==> #[trigger] world.definitions@[i] == default_definition()
    &&& forall|i: int| 0 <= i < world.cells@.len() ==> {
        let c = #[trigger] world.cells@[i];
        &&& c.height_hu == 1_000
        &&& !c.sealed
        &&& !c.contained
        &&& c.ground_contamination_bp == 0
        &&& c.surface@.len() == 0
        &&& c.airborne@.len() == 0
        &&& c.pending_rock_vu == 0
        &&& c.pending_vitrified_vu == 0
        &&& c.formed_rock_vu == 0
        &&& c.formed_vitrified_vu == 0
    }
    &&& world.tick == 0
    &&& world.ledger == (MassLedger { injected: 0, drained: 0, reacted: 0, products: 0 })
    &&& world.events@.len() == 0
    &&& world.devices.next_entity_id == 0
    &&& world.devices.next_plan_id == 0
    &&& world.devices.queued@.len() == 0
    &&& world.devices.devices@.len() == 0
    &&& world.sources@.len() == 0
    &&& world.source_schedule is None
    &&& world.deposits@.len() == 0
    &&& world.power_sources@.len() == 0
    &&& world.fabrication == FabricationState::new_spec(0)
    &&& world.power == PowerLedger::zero()
}

impl SimulationWorld {
    /// A flat, dry `width` by `height` world of default cells.
    pub fn new(width: u16, height: u16) -> (world: Self)
        ensures
            fresh_world(world, width, height),
            width <= 32767 && height <= 32767 ==> world.wf(),
            world.material() == 0,
            world.balance() == 0,
    {
        proof {
            lemma_grid_index_bound(width, height, CellPos { x: 0, y: 0 });
        }
        let count: usize = width as usize * height as usize;
        let mut definitions: Vec<CellDefinition> = Vec::new();
        let mut cells: Vec<SimCell> = Vec::new();
        let mut i: usize = 0;
        while i < count
            invariant
                i <= count,
                definitions@.len() == i,
                cells@.len() == i,
                forall|j: int| 0 <= j < i ==> #[trigger] definitions@[j] == default_definition(),
                forall|j: int| 0 <= j < i ==> {
                    let c = #[trigger] cells@[j];
                    &&& c.height_hu == 1_000
                    &&& !c.sealed
                    &&& !c.contained
                    &&& c.ground_contamination_bp == 0
                    &&& c.surface@.len() == 0
                    &&& c.airborne@.len() == 0
                    &&& c.pending_rock_vu == 0
                    &&& c.pending_vitrified_vu == 0
                    &&& c.formed_rock_vu == 0
                    &&& c.formed_vitrified_vu == 0
                },
                cells_material(cells@) == 0,
            decreases count - i,
        {
            let definition = CellDefinition::default();
            definitions.push(definition);
            let cell = SimCell::empty(definition.base_height_hu, false);
            proof {
                assert(cells@.push(cell).drop_last() =~= cells@);
                assert(seq_volume(cell.surface@) == 0);
                assert(seq_volume(cell.airborne@) == 0);
            }
            cells.push(cell);
            i = i + 1;
        }
        let world = SimulationWorld {
            width,
            height,
            definitions,
            cells,
            tick: 0,
            ledger: MassLedger { injected: 0, drained: 0, reacted: 0, products: 0 },
            events: Vec::new(),
            devices: DeviceSystem::default(),
            sources: Vec::new(),
            source_schedule: None,
            deposits: Vec::new(),
            power_sources: Vec::new(),
            fabrication: FabricationState::new(0),
            power: PowerLedger::default(),
        };
        proof {
            assert forall|j: int| 0 <= j < world.cells@.len() implies (#[trigger] world.cells@[j]).wf() by {
                assert(seq_volume(world.cells@[j].surface@) == 0);
                assert(seq_volume(world.cells@[j].airborne@) == 0);
            }
            assert(devices_stored(world.devices.devices@) == 0);
        }
        world
    }

    /// Add a stopped authored source.
    pub fn add_source(&mut self, position: CellPos, fluid: FluidId, rate_vu: u32)
        ensures
            final(self).sources@ == old(self).sources@.push(
                SourceState { position, fluid, rate_vu, enabled: false },
            ),
            *final(self) == (SimulationWorld { sources: final(self).sources, ..*old(self) }),
            old(self).wf() && old(self).sources@.len() < ENTITY_LIMIT ==> final(self).wf(),
            final(self).balance() == old(self).balance(),
    {
        self.sources.push(SourceState { position, fluid, rate_vu, enabled: false });
    }

    /// Start or stop every authored source.
    pub fn set_sources_enabled(&mut self, enabled: bool)
        ensures
            final(self).sources@.len() == old(self).sources@.len(),
            forall|i: int| 0 <= i < final(self).sources@.len() ==> #[trigger] final(self).sources@[i]
                == (SourceState { enabled, ..old(self).sources@[i] }),
            *final(self) == (SimulationWorld { sources: final(self).sources, ..*old(self) }),
            old(self).wf() ==> final(self).wf(),
            final(self).balance() == old(self).balance(),
    {
        let mut i: usize = 0;
        while i < self.sources.len()
            invariant
                i <= self.sources@.len(),
                self.sources@.len() == old(self).sources@.len(),
                forall|j: int| 0 <= j < i ==> #[trigger] self.sources@[j]
                    == (SourceState { enabled, ..old(self).sources@[j] }),
                forall|j: int| i <= j < self.sources@.len() ==> #[trigger] self.sources@[j]
                    == old(self).sources@[j],
                *self == (SimulationWorld { sources: self.sources, ..*old(self) }),
            decreases self.sources@.len() - i,
        {
            let source = self.sources[i];
            self.sources.set(i, SourceState { enabled, ..source });
            i = i + 1;
        }
    }

    /// Enable or disable the first power source named `id`; false when none is.
    pub fn set_power_source_enabled(&mut self, id: &str, enabled: bool) -> (found: bool)
        ensures
            found == exists|i: int| 0 <= i < old(self).power_sources@.len()
                && (#[trigger] old(self).power_sources@[i]).id@ == id@,
            final(self).power_sources@.len() == old(self).power_sources@.len(),
            forall|i: int| 0 <= i < old(self).power_sources@.len() ==> {
                let before = #[trigger] old(self).power_sources@[i];
                let after = final(self).power_sources@[i];
                &&& after.id == before.id
                &&& after.position == before.position
                &&& after.output_eu_per_tick == before.output_eu_per_tick
                &&& after.asset_id == before.asset_id
                &&& after.enabled == if before.id@ == id@ && forall|j: int|
                    0 <= j < i ==> old(self).power_sources@[j].id@ != id@ {
                    enabled
                } else {
                    before.enabled
                }
            },
            *final(self) == (SimulationWorld { power_sources: final(self).power_sources, ..*old(self) }),
            old(self).wf() ==> final(self).wf(),
            final(self).balance() == old(self).balance(),
    {
        let key = id.to_owned();
        let mut i: usize = 0;
        while i < self.power_sources.len()
            invariant
                i <= self.power_sources@.len(),
                key@ == id@,
                *self == *old(self),
                forall|j: int| 0 <= j < i ==> (#[trigger] self.power_sources@[j]).id@ != id@,
            decreases self.power_sources@.len() - i,
        {
            if self.power_sources[i].id == key {
                self.power_sources[i].enabled = enabled;
                return true;
            }
            i = i + 1;
        }
        false
    }

    /// Add an untouched resource deposit.
    pub fn add_deposit(&mut self, id: &str, position: CellPos, yield_fu: u32, asset_id: &str)
        ensures
            final(self).deposits@.len() == old(self).deposits@.len() + 1,
            forall|i: int| 0 <= i < old(self).deposits@.len() ==> #[trigger] final(self).deposits@[i]
                == old(self).deposits@[i],
            ({
                let d = final(self).deposits@.last();
                &&& d.id@ == id@
                &&& d.position == position
                &&& d.yield_fu == yield_fu
                &&& d.asset_id@ == asset_id@
                &&& !d.depleted
            }),
            *final(self) == (SimulationWorld { deposits: final(self).deposits, ..*old(self) }),
            old(self).wf() ==> final(self).wf(),
            final(self).balance() == old(self).balance(),
    {
        self.deposits.push(ResourceDeposit {
            id: id.to_owned(),
            position,
            yield_fu,
            asset_id: asset_id.to_owned(),
            depleted: false,
        });
    }

    /// Add an enabled field generator.
    pub fn add_power_source(&mut self, id: &str, position: CellPos, output_eu_per_tick: u32, asset_id: &str)
        ensures
            final(self).power_sources@.len() == old(self).power_sources@.len() + 1,
            forall|i: int| 0 <= i < old(self).power_sources@.len() ==> #[trigger] final(self).power_sources@[i]
                == old(self).power_sources@[i],
            ({
                let p = final(self).power_sources@.last();
                &&& p.id@ == id@
                &&& p.position == position
                &&& p.output_eu_per_tick == output_eu_per_tick
                &&& p.asset_id@ == asset_id@
                &&& p.enabled
            }),
            *final(self) == (SimulationWorld { power_sources: final(self).power_sources, ..*old(self) }),
            old(self).wf() ==> final(self).wf(),
            final(self).balance() == old(self).balance(),
    {
        self.power_sources.push(PowerSource {
            id: id.to_owned(),
            position,
            output_eu_per_tick,
            enabled: true,
            asset_id: asset_id.to_owned(),
        });
    }

    /// Recover the first deposit named `id` into available fabrication stock.
    /// A missing or already depleted deposit is refused and nothing changes.
    pub fn recover_deposit(&mut self, id: &str) -> (result: Result<u32, FabricationError>)
        requires
            forall|i: int| first_deposit_with_id(old(self).deposits@, id@, i) && !old(self).deposits@[i].depleted ==> {
                &&& old(self).fabrication.recovered_fu + old(self).deposits@[i].yield_fu <= u32::MAX
                &&& old(self).fabrication.available_fu + old(self).deposits@[i].yield_fu <= u32::MAX
            },
        ensures
            final(self).balance() == old(self).balance(),
            final(self).fabrication.balance() == old(self).fabrication.balance(),
            old(self).wf() ==> final(self).wf(),
            deposit_recovered(*old(self), *final(self), id@, result),
    {
        let key = id.to_owned();
        let mut i: usize = 0;
        while i < self.deposits.len()
            invariant
                i <= self.deposits@.len(),
                key@ == id@,
                *self == *old(self),
                forall|j: int| 0 <= j < i ==> (#[trigger] self.deposits@[j]).id@ != id@,
                forall|k: int| first_deposit_with_id(old(self).deposits@, id@, k) && !old(self).deposits@[k].depleted ==> {
                    &&& old(self).fabrication.recovered_fu + old(self).deposits@[k].yield_fu <= u32::MAX
                    &&& old(self).fabrication.available_fu + old(self).deposits@[k].yield_fu <= u32::MAX
                },
            decreases self.deposits@.len() - i,
        {
            if self.deposits[i].id == key {
                proof {
                    assert(first_deposit_with_id(self.deposits@, id@, i as int));
                    assert forall|k: int| first_deposit_with_id(self.deposits@, id@, k) implies k == i by {
                        if k < i {
                        } else if k > i {
                            assert(self.deposits@[i as int].id@ == id@);
                        }
                    }
                }
                if self.deposits[i].depleted {
                    return Err(FabricationError::DepositDepleted(id.to_owned()));
                }
                let yield_fu = self.deposits[i].yield_fu;
                self.deposits[i].depleted = true;
                self.fabrication.recovered_fu = self.fabrication.recovered_fu + yield_fu;
                self.fabrication.available_fu = self.fabrication.available_fu + yield_fu;
                let event_id = self.deposits[i].id.clone();
                self.events.push(SimEvent::DepositRecovered { id: event_id, yield_fu });
                proof {
                    assert(self.deposits@ =~= old(self).deposits@.update(
                        i as int,
                        ResourceDeposit { depleted: true, ..old(self).deposits@[i as int] },
                    ));
                }
                return Ok(yield_fu);
            }
            i = i + 1;
        }
        proof {
            assert forall|k: int| !first_deposit_with_id(self.deposits@, id@, k) by {}
        }
        Err(FabricationError::DepositNotFound(id.to_owned()))
    }

    /// Recover the first deposit at `position`, by its identifier.
    pub fn recover_deposit_at(&mut self, position: CellPos) -> (result: Result<u32, FabricationError>)
        requires
            forall|i: int, k: int| first_deposit_at(old(self).deposits@, position, i)
                && first_deposit_with_id(old(self).deposits@, old(self).deposits@[i].id@, k)
                && !old(self).deposits@[k].depleted ==> {
                &&& old(self).fabrication.recovered_fu + old(self).deposits@[k].yield_fu <= u32::MAX
                &&& old(self).fabrication.available_fu + old(self).deposits@[k].yield_fu <= u32::MAX
            },
        ensures
            old(self).wf() ==> final(self).wf(),
            recovered_at(*old(self), *final(self), position, result),
    {
        let mut i: usize = 0;
        while i < self.deposits.len()
            invariant
                i <= self.deposits@.len(),
                *self == *old(self),
                forall|j: int| 0 <= j < i ==> (#[trigger] self.deposits@[j]).position != position,
                forall|a: int, k: int| first_deposit_at(old(self).deposits@, position, a)
                    && first_deposit_with_id(old(self).deposits@, old(self).deposits@[a].id@, k)
                    && !old(self).deposits@[k].depleted ==> {
                    &&& old(self).fabrication.recovered_fu + old(self).deposits@[k].yield_fu <= u32::MAX
                    &&& old(self).fabrication.available_fu + old(self).deposits@[k].yield_fu <= u32::MAX
                },
            decreases self.deposits@.len() - i,
        {
            if self.deposits[i].position == position {
                let id = self.deposits[i].id.clone();
                proof {
                    assert(first_deposit_at(self.deposits@, position, i as int));
                    assert forall|k: int| first_deposit_at(self.deposits@, position, k) implies k == i by {
                        if k > i {
                            assert(self.deposits@[i as int].position == position);
                        }
                    }
                    lemma_first_deposit_exists(self.deposits@, id@, i as int);
                }
                return self.recover_deposit(id.as_str());
            }
            i = i + 1;
        }
        proof {
            assert forall|k: int| !first_deposit_at(self.deposits@, position, k) by {}
        }
        Err(FabricationError::DepositNotFound(position_label(position.x, position.y)))
    }

    /// Every unit of material in the world: both fluid layers, pending and
    /// formed products of every cell, and material stored in devices.
    pub fn total_material_volume(&self) -> (total: u64)
        requires
            self.wf(),
            self.room_for(0),
        ensures
            total == self.material(),
            total < 0x4000_0000_0000_0000,
    {
        let ghost per_cell: int = 16_000 + PRODUCT_LIMIT_VU;
        let mut sum: u64 = 0;
        let mut i: usize = 0;
        proof {
            lemma_grid_index_bound(self.width, self.height, CellPos { x: 0, y: 0 });
        }
        while i < self.cells.len()
            invariant
                i <= self.cells@.len(),
                self.wf(),
                self.room_for(0),
                self.cells@.len() <= 4294836225,
                sum == cells_material(self.cells@.take(i as int)),
                sum <= i * per_cell,
                per_cell == 16_000 + PRODUCT_LIMIT_VU,
            decreases self.cells@.len() - i,
        {
            let cell = &self.cells[i];
            proof {
                assert(cell.wf());
                assert(cell_products(*cell) <= PRODUCT_LIMIT_VU);
                assert(self.cells@.take(i as int + 1).drop_last() =~= self.cells@.take(i as int));
                assert(i * per_cell + per_cell <= 4294836225 * per_cell) by (nonlinear_arith)
                    requires i < 4294836225, per_cell >= 0;
            }
            let cell_total: u64 = cell.surface_volume() as u64 + cell.airborne_volume() as u64
                + cell.pending_rock_vu as u64 + cell.pending_vitrified_vu as u64
                + cell.formed_rock_vu as u64 + cell.formed_vitrified_vu as u64;
            sum = sum + cell_total;
            proof {
                assert((i + 1) * per_cell == i * per_cell + per_cell) by (nonlinear_arith);
            }
            i = i + 1;
        }
        proof {
            assert(self.cells@.take(i as int) =~= self.cells@);
            assert(sum <= 4294836225 * per_cell) by (nonlinear_arith)
                requires sum <= i * per_cell, i <= 4294836225, per_cell >= 0;
        }
        let mut j: usize = 0;
        let mut stored: u64 = 0;
        while j < self.devices.devices.len()
            invariant
                j <= self.devices.devices@.len(),
                self.devices.devices@.len() <= ENTITY_LIMIT,
                stored == devices_stored(self.devices.devices@.take(j as int)),
                stored <= j * 4294967295,
            decreases self.devices.devices@.len() - j,
        {
            proof {
                assert(self.devices.devices@.take(j as int + 1).drop_last() =~= self.devices.devices@.take(j as int));
            }
            stored = stored + self.devices.devices[j].stored_vu as u64;
            j = j + 1;
        }
        proof {
            assert(self.devices.devices@.take(j as int) =~= self.devices.devices@);
            assert(stored <= 16_777_216 * 4294967295) by (nonlinear_arith)
                requires stored <= j * 4294967295, j <= 16_777_216;
        }
        sum + stored
    }

    /// Injected minus drained minus present material; zero when no material was
    /// created or lost.
    pub fn mass_balance_error(&self) -> (error: i64)
        requires
            self.wf(),
            self.room_for(0),
        ensures
            error == self.balance(),
    {
        let total = self.total_material_volume();
        self.ledger.injected as i64 - self.ledger.drained as i64 - total as i64
    }

    /// Excavate (lower by 250 hU, not below the cell minimum), raise (by 250 hU,
    /// not above the maximum, and only on a dry cell) or seal a cell. Protected and
    /// off-grid cells are refused.
    pub fn terrain_edit(&mut self, pos: CellPos, action: TerrainAction) -> (result: Result<(), TerrainError>)
        requires
            old(self).wf(),
            old(self).index_of(pos) matches Some(i) ==> {
                &&& action == TerrainAction::Excavate ==> old(self).cells@[i as int].height_hu - 250 >= i16::MIN
                &&& action == TerrainAction::Raise ==> old(self).cells@[i as int].height_hu + 250 <= i16::MAX
            },
        ensures
            final(self).wf(),
            terrain_edited(*old(self), *final(self), pos, action, result),
    {
        let index = match self.index(pos) {
            Some(index) => index,
            None => return Err(TerrainError::OutOfBounds),
        };
        proof {
            lemma_grid_index_bound(self.width, self.height, pos);
            assert(self.cells@[index as int].wf());
        }
        if self.definitions[index].protected {
            return Err(TerrainError::Protected);
        }
        if action == TerrainAction::Raise && self.cells[index].surface_volume() > 0 {
            return Err(TerrainError::Capacity);
        }
        let definition = self.definitions[index];
        let ghost before = self.cells@[index as int];
        match action {
            TerrainAction::Excavate => {
                let lowered = self.cells[index].height_hu - 250;
                self.cells[index].height_hu = if lowered >= definition.minimum_height_hu {
                    lowered
                } else {
                    definition.minimum_height_hu
                };
            },
            TerrainAction::Raise => {
                let raised = self.cells[index].height_hu + 250;
                self.cells[index].height_hu = if raised <= definition.maximum_height_hu {
                    raised
                } else {
                    definition.maximum_height_hu
                };
            },
            TerrainAction::Seal => {
                self.cells[index].sealed = true;
            },
        }
        proof {
            lemma_cells_material_update(old(self).cells@, index as int, self.cells@[index as int]);
            assert(self.cells@[index as int].wf());
        }
        Ok(())
    }

    /// Row-major cell index of `pos`, or `None` off the grid.
    pub fn index(&self, pos: CellPos) -> (result: Option<usize>)
        ensures
            result == self.index_of(pos),
    {
        if pos.x < self.width && pos.y < self.height {
            proof {
                assert(pos.y * self.width + pos.x <= 65534 * 65535 + 65535) by (nonlinear_arith)
                    requires pos.y < self.height, pos.x < self.width, self.height <= 65535, self.width <= 65535;
            }
            Some(pos.y as usize * self.width as usize + pos.x as usize)
        } else {
            None
        }
    }

    /// On-grid orthogonal neighbours in the order north, east, south, west.
    pub fn neighbors(&self, pos: CellPos) -> (result: Vec<(CellPos, u8)>)
        requires
            self.width <= 32767,
            self.height <= 32767,
        ensures
            result@ == neighbors_spec(self.width, self.height, pos),
    {
        let mut result: Vec<(CellPos, u8)> = Vec::new();
        if pos.y >= 1 && pos.x < self.width && pos.y - 1 < self.height {
            result.push((CellPos { x: pos.x, y: pos.y - 1 }, 0));
        }
        let ghost after_north = result@;
        if pos.x < self.width && pos.x + 1 < self.width && pos.y < self.height {
            result.push((CellPos { x: pos.x + 1, y: pos.y }, 1));
        }
        let ghost after_east = result@;
        if pos.x < self.width && pos.y < self.height && pos.y + 1 < self.height {
            result.push((CellPos { x: pos.x, y: pos.y + 1 }, 2));
        }
        let ghost after_south = result@;
        if pos.x >= 1 && pos.x - 1 < self.width && pos.y < self.height {
            result.push((CellPos { x: pos.x - 1, y: pos.y }, 3));
        }
        proof {
            assert(result@ =~= neighbors_spec(self.width, self.height, pos));
        }
        result
    }

    /// Pour `volume_vu` of `fluid` into the cell at `pos`; steam enters the air
    /// layer. Accepted material is credited to the ledger, and a refused part is
    /// reported as source backpressure. Off-grid positions are ignored.
    pub fn inject(&mut self, pos: CellPos, fluid: FluidId, volume_vu: u32)
        requires
            old(self).wf(),
            old(self).ledger.injected + injection_accepted(*old(self), pos, fluid, volume_vu) <= u64::MAX,
        ensures
            final(self).wf(),
            injected_into(*old(self), *final(self), pos, fluid, volume_vu),
    {
        let index = match self.index(pos) {
            Some(index) => index,
            None => return,
        };
        proof {
            lemma_grid_index_bound(self.width, self.height, pos);
            assert(self.cells@[index as int].wf());
        }
        let ghost before = self.cells@[index as int];
        let accepted = if fluid.is_airborne() {
            self.cells[index].add_airborne(FluidEntry::new(fluid, volume_vu))
        } else {
            self.cells[index].add_surface(FluidEntry::new(fluid, volume_vu))
        };
        proof {
            let after = self.cells@[index as int];
            lemma_volume_by_fluid(after.surface@);
            lemma_volume_by_fluid(after.airborne@);
            if fluid == FluidId::Steam {
                assert forall|k: int| 0 <= k < after.airborne@.len() implies #[trigger] after.airborne@[k].fluid == FluidId::Steam by {
                    if after.airborne@[k].fluid != FluidId::Steam {
                        super::entries::lemma_entry_at(after.airborne@, k);
                        super::entries::lemma_entry_at(before.airborne@, 0);
                    }
                }
            }
            assert(after.wf());
            lemma_cells_material_update(old(self).cells@, index as int, after);
        }
        self.ledger.injected = self.ledger.injected + accepted as u64;
        if accepted < volume_vu {
            self.events.push(SimEvent::SourceBackpressure {
                cell: pos,
                requested_vu: volume_vu,
                accepted_vu: accepted,
            });
        }
    }
}

/// Whether an entry list is well formed and within one cell's capacity.
fn entries_fit(s: &Vec<super::FluidEntry>) -> (ok: bool)
    ensures
        ok == (entries_wf(s@) && seq_volume(s@) <= CELL_CAPACITY_VU),
{
    let mut total: u64 = 0;
    let mut i: usize = 0;
    while i < s.len()
        invariant
            i <= s@.len(),
            total == seq_volume(s@.take(i as int)),
            total <= CELL_CAPACITY_VU,
            forall|a: int| 0 <= a < i ==> #[trigger] s@[a].volume_vu > 0,
            forall|a: int| 0 <= a < i ==> -super::entries::TEMPERATURE_LIMIT_DK <= #[trigger] s@[a].temperature_dk
                <= super::entries::TEMPERATURE_LIMIT_DK,
            forall|a: int, b: int| 0 <= a < b < i ==> (#[trigger] s@[a].fluid).rank_spec() < (#[trigger] s@[b].fluid).rank_spec(),
        decreases s@.len() - i,
    {
        let e = s[i];
        if e.volume_vu == 0 {
            return false;
        }
        if e.temperature_dk < -super::entries::TEMPERATURE_LIMIT_DK || e.temperature_dk > super::entries::TEMPERATURE_LIMIT_DK {
            return false;
        }
        if i > 0 && s[i - 1].fluid.rank() >= e.fluid.rank() {
            return false;
        }
        proof {
            assert(s@.take(i as int + 1).drop_last() =~= s@.take(i as int));
        }
        if total + e.volume_vu as u64 > CELL_CAPACITY_VU as u64 {
            proof {
                super::entries::lemma_seq_volume_prefix(s@, i as int + 1);
            }
            return false;
        }
        total = total + e.volume_vu as u64;
        proof {
            assert forall|a: int, b: int| 0 <= a < b < i + 1 implies (#[trigger] s@[a].fluid).rank_spec() < (#[trigger] s@[b].fluid).rank_spec() by {
                if b == i && a < i - 1 {
                    assert(s@[a].fluid.rank_spec() < s@[i - 1].fluid.rank_spec());
                }
            }
        }
        i = i + 1;
    }
    proof {
        assert(s@.take(i as int) =~= s@);
    }
    true
}

/// Whether a cell is well formed (see `SimCell::wf`).
fn cell_fits(c: &SimCell) -> (ok: bool)
    ensures
        ok == c.wf(),
{
    if !entries_fit(&c.surface) || !entries_fit(&c.airborne) {
        return false;
    }
    let mut i: usize = 0;
    while i < c.airborne.len()
        invariant
            i <= c.airborne@.len(),
            forall|a: int| 0 <= a < i ==> #[trigger] c.airborne@[a].fluid == super::FluidId::Steam,
        decreases c.airborne@.len() - i,
    {
        if c.airborne[i].fluid != super::FluidId::Steam {
            return false;
        }
        i = i + 1;
    }
    true
}

impl SimulationWorld {
    /// Whether the world is well formed (see `wf`): a grid within the coordinate
    /// range with one cell and one definition per position, every cell well
    /// formed, ambient temperatures in range, devices on the coordinate range with
    /// bounded output, and a bounded number of sources.
    pub fn is_well_formed(&self) -> (ok: bool)
        ensures
            ok == self.wf(),
    {
        if self.width > 32767 || self.height > 32767 {
            return false;
        }
        proof {
            assert(self.width * self.height <= 32767 * 32767) by (nonlinear_arith)
                requires self.width <= 32767, self.height <= 32767;
        }
        let n = self.width as usize * self.height as usize;
        if self.cells.len() != n || self.definitions.len() != n || self.sources.len() > ENTITY_LIMIT {
            return false;
        }
        let mut i: usize = 0;
        while i < n
            invariant
                i <= n,
                n == self.cells@.len(),
                n == self.definitions@.len(),
                forall|a: int| 0 <= a < i ==> (#[trigger] self.cells@[a]).wf(),
                forall|a: int| 0 <= a < i ==> -super::entries::TEMPERATURE_LIMIT_DK
                    <= (#[trigger] self.definitions@[a]).ambient_temperature_dk <= super::entries::TEMPERATURE_LIMIT_DK,
            decreases n - i,
        {
            if !cell_fits(&self.cells[i]) {
                return false;
            }
            let t = self.definitions[i].ambient_temperature_dk;
            if t < -super::entries::TEMPERATURE_LIMIT_DK || t > super::entries::TEMPERATURE_LIMIT_DK {
                return false;
            }
            i = i + 1;
        }
        let devices = &self.devices.devices;
        if devices.len() > 16_777_216 {
            return false;
        }
        let mut k: usize = 0;
        while k < devices.len()
            invariant
                k <= devices@.len(),
                devices@ == self.devices.devices@,
                forall|a: int| 0 <= a < k ==> {
                    &&& (#[trigger] devices@[a]).anchor.x < 32767
                    &&& devices@[a].anchor.y < 32767
                    &&& devices@[a].power_generated <= 4
                },
            decreases devices@.len() - k,
        {
            let d = devices[k];
            if d.anchor.x >= 32767 || d.anchor.y >= 32767 || d.power_generated > 4 {
                proof {
                    assert(self.devices.devices@[k as int] == d);
                }
                return false;
            }
            k = k + 1;
        }
        true
    }
}

impl SimulationWorld {
    /// Whether the counters are within their limits (`room_for(0)`), as reading
    /// the mass balance needs.
    pub fn counters_in_range(&self) -> (ok: bool)
        ensures
            ok == self.room_for(0),
    {
        let mut i: usize = 0;
        while i < self.cells.len()
            invariant
                i <= self.cells@.len(),
                forall|j: int| 0 <= j < i ==> cell_products(#[trigger] self.cells@[j]) <= PRODUCT_LIMIT_VU,
            decreases self.cells@.len() - i,
        {
            let c = &self.cells[i];
            let products: u64 = c.pending_rock_vu as u64 + c.pending_vitrified_vu as u64 + c.formed_rock_vu as u64
                + c.formed_vitrified_vu as u64;
            if products > PRODUCT_LIMIT_VU as u64 {
                proof {
                    assert(cell_products(self.cells@[i as int]) > PRODUCT_LIMIT_VU);
                }
                return false;
            }
            i = i + 1;
        }
        proof {
            assert forall|j: int| 0 <= j < self.cells@.len() implies cell_products(#[trigger] self.cells@[j])
                + PRODUCT_GROWTH_PER_TICK * 0nat <= PRODUCT_LIMIT_VU by {}
        }
        let ok = self.ledger.injected <= LEDGER_LIMIT_VU && self.ledger.drained <= LEDGER_LIMIT_VU
            && self.ledger.reacted <= LEDGER_LIMIT_VU && self.ledger.products <= LEDGER_LIMIT_VU;
        proof {
            let z: nat = 0;
            let a = self.sources@.len();
            let b = self.cells@.len();
            assert(z * CELL_CAPACITY_VU * a == 0 && z * CELL_CAPACITY_VU * b == 0 && z * 740 * b == 0 && z * 250 * b
                == 0) by (nonlinear_arith)
                requires z == 0;
        }
        ok
    }
}

} // verus!
