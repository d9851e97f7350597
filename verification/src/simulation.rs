//! Deterministic terrain, surface-fluid, steam, reaction and ledger state.
//!
//! The renderer consumes this state but never participates in its decisions.

use vstd::prelude::*;

use crate::devices::{DeviceState, DeviceSystem};
use crate::economy::{FabricationError, FabricationState, PowerLedger, PowerSource, ResourceDeposit};
use crate::state::{grid_index, CellPos};

pub mod entries;
pub mod world;
pub mod process;
pub mod step;
pub mod fingerprint;

pub use entries::volume;
use entries::{entries_wf, entry_of, fluid_volume, lemma_volume_by_fluid, merge_entry, merged_entry, seq_volume, total_volume};

verus! {

/// Most surface (or airborne) material one cell holds.
pub const CELL_CAPACITY_VU: u32 = 8_000;

/// Water at or above this temperature boils; steam at or below it condenses.
pub const WATER_BOIL_DK: i32 = 3_730;

/// The four simulated materials.
#[derive(Debug, Clone, Copy, PartialEq, Eq, Structural, PartialOrd, Ord, Hash)]
pub enum FluidId {
    Lava,
    Steam,
    ToxicSlurry,
    Water,
}

impl FluidId {
    /// Ordering used for entry lists: Lava, Steam, ToxicSlurry, Water.
    pub open spec fn rank_spec(self) -> u8 {
        match self {
            FluidId::Lava => 0,
            FluidId::Steam => 1,
            FluidId::ToxicSlurry => 2,
            FluidId::Water => 3,
        }
    }

    /// Ordering used for entry lists: Lava, Steam, ToxicSlurry, Water.
    #[verifier::when_used_as_spec(rank_spec)]
    pub fn rank(self) -> (r: u8)
        ensures
            r == self.rank_spec(),
    {
        match self {
            FluidId::Lava => 0,
            FluidId::Steam => 1,
            FluidId::ToxicSlurry => 2,
            FluidId::Water => 3,
        }
    }

    pub open spec fn max_transfer_spec(self) -> u32 {
        match self {
            FluidId::Water => 400,
            FluidId::Lava => 120,
            FluidId::ToxicSlurry => 180,
            FluidId::Steam => 300,
        }
    }

    /// Most of this fluid that leaves one cell per tick.
    #[verifier::when_used_as_spec(max_transfer_spec)]
    pub fn max_transfer(self) -> (m: u32)
        ensures
            m == self.max_transfer_spec(),
    {
        match self {
            FluidId::Water => 400,
            FluidId::Lava => 120,
            FluidId::ToxicSlurry => 180,
            FluidId::Steam => 300,
        }
    }

    pub open spec fn default_temperature_spec(self) -> i32 {
        match self {
            FluidId::Water => 2_930,
            FluidId::Lava => 12_730,
            FluidId::ToxicSlurry => 3_000,
            FluidId::Steam => 3_930,
        }
    }

    /// Temperature of freshly injected material, in deci-kelvin.
    #[verifier::when_used_as_spec(default_temperature_spec)]
    pub fn default_temperature(self) -> (t: i32)
        ensures
            t == self.default_temperature_spec(),
    {
        match self {
            FluidId::Water => 2_930,
            FluidId::Lava => 12_730,
            FluidId::ToxicSlurry => 3_000,
            FluidId::Steam => 3_930,
        }
    }

    pub open spec fn is_airborne_spec(self) -> bool {
        self == FluidId::Steam
    }

    /// Whether the fluid travels in the air layer rather than on the surface.
    #[verifier::when_used_as_spec(is_airborne_spec)]
    pub fn is_airborne(self) -> (b: bool)
        ensures
            b == (self == FluidId::Steam),
    {
        match self {
            FluidId::Steam => true,
            _ => false,
        }
    }
}

/// A quantity of one fluid in a cell.
#[derive(Debug, Clone, Copy, PartialEq, Eq, Structural)]
pub struct FluidEntry {
    pub fluid: FluidId,
    pub volume_vu: u32,
    pub temperature_dk: i32,
    pub contamination_bp: u16,
}

/// A fresh entry at the fluid's default temperature; slurry is fully contaminated.
pub open spec fn fresh_entry(fluid: FluidId, volume_vu: u32) -> FluidEntry {
    FluidEntry {
        fluid,
        volume_vu,
        temperature_dk: fluid.default_temperature_spec(),
        contamination_bp: if fluid == FluidId::ToxicSlurry {
            10_000u16
        } else {
            0u16
        },
    }
}

impl FluidEntry {
    /// A fresh entry at the fluid's default temperature; slurry is fully contaminated.
    pub fn new(fluid: FluidId, volume_vu: u32) -> (e: Self)
        ensures
            e == fresh_entry(fluid, volume_vu),
    {
        FluidEntry {
            fluid,
            volume_vu,
            temperature_dk: fluid.default_temperature(),
            contamination_bp: if fluid == FluidId::ToxicSlurry {
                10_000
            } else {
                0
            },
        }
    }
}

/// Authored, unchanging properties of one cell.
#[derive(Debug, Clone, Copy, PartialEq, Eq, Structural)]
pub struct CellDefinition {
    pub base_height_hu: i16,
    pub minimum_height_hu: i16,
    pub maximum_height_hu: i16,
    pub protected: bool,
    pub gas_blocked: bool,
    pub surface_drain_rate_vu: u32,
    pub ambient_temperature_dk: i32,
}

/// The default open cell: 1000 hU base, 0..8000 hU range, 2930 dK ambient.
pub open spec fn default_definition() -> CellDefinition {
    CellDefinition {
        base_height_hu: 1_000,
        minimum_height_hu: 0,
        maximum_height_hu: 8_000,
        protected: false,
        gas_blocked: false,
        surface_drain_rate_vu: 0,
        ambient_temperature_dk: 2_930,
    }
}

impl Default for CellDefinition {
    fn default() -> (d: Self)
        ensures
            d == default_definition(),
    {
        CellDefinition {
            base_height_hu: 1_000,
            minimum_height_hu: 0,
            maximum_height_hu: 8_000,
            protected: false,
            gas_blocked: false,
            surface_drain_rate_vu: 0,
            ambient_temperature_dk: 2_930,
        }
    }
}

/// Mutable state of one cell.
#[derive(Debug, Clone)]
pub struct SimCell {
    pub height_hu: i16,
    pub sealed: bool,
    pub contained: bool,
    pub ground_contamination_bp: u16,
    pub surface: Vec<FluidEntry>,
    pub airborne: Vec<FluidEntry>,
    pub pending_rock_vu: u32,
    pub pending_vitrified_vu: u32,
    pub formed_rock_vu: u32,
    pub formed_vitrified_vu: u32,
}

/// `a - b`, or zero when `b` exceeds `a`.
pub open spec fn sat_sub(a: int, b: int) -> int {
    if a >= b {
        a - b
    } else {
        0
    }
}

/// The smaller of two integers.
pub open spec fn min_int(a: int, b: int) -> int {
    if a <= b {
        a
    } else {
        b
    }
}

/// The part of a requested volume a layer holding `held` accepts.
pub open spec fn accepted_volume(requested: u32, held: nat) -> u32 {
    min_int(requested as int, sat_sub(CELL_CAPACITY_VU as int, held as int)) as u32
}

/// A layer after pouring `entry` into it, of which `accepted` is kept.
pub open spec fn layer_after_add(
    old: Seq<FluidEntry>,
    new: Seq<FluidEntry>,
    entry: FluidEntry,
    accepted: u32,
) -> bool {
    &&& entries_wf(new)
    &&& accepted > 0 ==> entry_of(new, entry.fluid) == Some(
        merged_entry(entry_of(old, entry.fluid), FluidEntry { volume_vu: accepted, ..entry }),
    )
    &&& accepted == 0 ==> new == old
    &&& forall|g: FluidId| g != entry.fluid ==> entry_of(new, g) == entry_of(old, g)
    &&& seq_volume(new) == seq_volume(old) + accepted
    &&& fluid_volume(new, entry.fluid) == fluid_volume(old, entry.fluid) + accepted
}

/// Total material held by a cell: both fluid layers plus pending and formed products.
pub open spec fn cell_material(c: SimCell) -> int {
    seq_volume(c.surface@) + seq_volume(c.airborne@) + c.pending_rock_vu + c.pending_vitrified_vu
        + c.formed_rock_vu + c.formed_vitrified_vu
}

/// Pending and formed terrain products of a cell.
pub open spec fn cell_products(c: SimCell) -> int {
    c.pending_rock_vu + c.pending_vitrified_vu + c.formed_rock_vu + c.formed_vitrified_vu
}

impl SimCell {
    /// Both layers ordered and within capacity; the air layer holds only steam.
    pub open spec fn wf(self) -> bool {
        &&& entries_wf(self.surface@)
        &&& seq_volume(self.surface@) <= CELL_CAPACITY_VU
        &&& entries_wf(self.airborne@)
        &&& seq_volume(self.airborne@) <= CELL_CAPACITY_VU
        &&& forall|i: int| 0 <= i < self.airborne@.len() ==> #[trigger] self.airborne@[i].fluid == FluidId::Steam
    }

    /// A dry cell at the given height.
    pub fn empty(height_hu: i16, sealed: bool) -> (cell: Self)
        ensures
            cell.height_hu == height_hu,
            cell.sealed == sealed,
            !cell.contained,
            cell.ground_contamination_bp == 0,
            cell.surface@.len() == 0,
            cell.airborne@.len() == 0,
            cell.pending_rock_vu == 0,
            cell.pending_vitrified_vu == 0,
            cell.formed_rock_vu == 0,
            cell.formed_vitrified_vu == 0,
            cell.wf(),
    {
        SimCell {
            height_hu,
            sealed,
            contained: false,
            ground_contamination_bp: 0,
            surface: Vec::new(),
            airborne: Vec::new(),
            pending_rock_vu: 0,
            pending_vitrified_vu: 0,
            formed_rock_vu: 0,
            formed_vitrified_vu: 0,
        }
    }

    /// Total surface volume.
    pub fn surface_volume(&self) -> (v: u32)
        requires
            seq_volume(self.surface@) <= u32::MAX,
        ensures
            v == seq_volume(self.surface@),
    {
        total_volume(&self.surface)
    }

    /// Total airborne volume.
    pub fn airborne_volume(&self) -> (v: u32)
        requires
            seq_volume(self.airborne@) <= u32::MAX,
        ensures
            v == seq_volume(self.airborne@),
    {
        total_volume(&self.airborne)
    }

    /// Hydraulic head: terrain height plus surface volume.
    pub fn surface_head_hu(&self) -> (head: i32)
        requires
            seq_volume(self.surface@) <= i32::MAX - i16::MAX,
        ensures
            head == self.height_hu + seq_volume(self.surface@),
    {
        self.height_hu as i32 + self.surface_volume() as i32
    }

    /// Pour `entry` onto the surface, keeping as much as capacity allows;
    /// returns the accepted volume.
    pub fn add_surface(&mut self, entry: FluidEntry) -> (accepted: u32)
        requires
            entries_wf(old(self).surface@),
            seq_volume(old(self).surface@) <= u32::MAX,
            -entries::TEMPERATURE_LIMIT_DK <= entry.temperature_dk <= entries::TEMPERATURE_LIMIT_DK,
        ensures
            accepted == accepted_volume(entry.volume_vu, seq_volume(old(self).surface@)),
            layer_after_add(old(self).surface@, final(self).surface@, entry, accepted),
            final(self).airborne == old(self).airborne,
            final(self).height_hu == old(self).height_hu,
            final(self).sealed == old(self).sealed,
            final(self).contained == old(self).contained,
            final(self).ground_contamination_bp == old(self).ground_contamination_bp,
            final(self).pending_rock_vu == old(self).pending_rock_vu,
            final(self).pending_vitrified_vu == old(self).pending_vitrified_vu,
            final(self).formed_rock_vu == old(self).formed_rock_vu,
            final(self).formed_vitrified_vu == old(self).formed_vitrified_vu,
    {
        let accepted = add_to_layer(&mut self.surface, entry);
        accepted
    }

    /// Pour `entry` into the air layer, keeping as much as capacity allows;
    /// returns the accepted volume.
    pub fn add_airborne(&mut self, entry: FluidEntry) -> (accepted: u32)
        requires
            entries_wf(old(self).airborne@),
            seq_volume(old(self).airborne@) <= u32::MAX,
            -entries::TEMPERATURE_LIMIT_DK <= entry.temperature_dk <= entries::TEMPERATURE_LIMIT_DK,
        ensures
            accepted == accepted_volume(entry.volume_vu, seq_volume(old(self).airborne@)),
            layer_after_add(old(self).airborne@, final(self).airborne@, entry, accepted),
            final(self).surface == old(self).surface,
            final(self).height_hu == old(self).height_hu,
            final(self).sealed == old(self).sealed,
            final(self).contained == old(self).contained,
            final(self).ground_contamination_bp == old(self).ground_contamination_bp,
            final(self).pending_rock_vu == old(self).pending_rock_vu,
            final(self).pending_vitrified_vu == old(self).pending_vitrified_vu,
            final(self).formed_rock_vu == old(self).formed_rock_vu,
            final(self).formed_vitrified_vu == old(self).formed_vitrified_vu,
    {
        let accepted = add_to_layer(&mut self.airborne, entry);
        accepted
    }
}

/// Shared body of the two layer additions.
fn add_to_layer(layer: &mut Vec<FluidEntry>, entry: FluidEntry) -> (accepted: u32)
    requires
        entries_wf(old(layer)@),
        seq_volume(old(layer)@) <= u32::MAX,
        -entries::TEMPERATURE_LIMIT_DK <= entry.temperature_dk <= entries::TEMPERATURE_LIMIT_DK,
    ensures
        accepted == accepted_volume(entry.volume_vu, seq_volume(old(layer)@)),
        layer_after_add(old(layer)@, final(layer)@, entry, accepted),
{
    let held = total_volume(layer);
    let room = CELL_CAPACITY_VU.saturating_sub(held);
    let accepted = if entry.volume_vu <= room {
        entry.volume_vu
    } else {
        room
    };
    if accepted > 0 {
        proof {
            lemma_volume_by_fluid(layer@);
        }
        merge_entry(layer, FluidEntry { volume_vu: accepted, ..entry });
    }
    accepted
}

} // verus!

verus! {

/// Material injected into and drained out of the world, plus reaction counters.
#[derive(Debug, Clone, Copy, PartialEq, Eq, Structural)]
pub struct MassLedger {
    pub injected: u64,
    pub drained: u64,
    pub reacted: u64,
    pub products: u64,
}

/// A map-authored fixed-rate fluid source.
#[derive(Debug, Clone, Copy, PartialEq, Eq, Structural)]
pub struct SourceState {
    pub position: CellPos,
    pub fluid: FluidId,
    pub rate_vu: u32,
    pub enabled: bool,
}

/// An authored surge of the first source between two ticks.
#[derive(Debug, Clone, Copy, PartialEq, Eq, Structural)]
pub struct SourceSchedule {
    pub start_tick: u64,
    pub end_tick: u64,
    pub base_rate_vu: u32,
    pub surge_rate_vu: u32,
}

/// Observable events of one tick.
#[derive(Debug, Clone, PartialEq, Eq)]
pub enum SimEvent {
    SourceBackpressure { cell: CellPos, requested_vu: u32, accepted_vu: u32 },
    MaterialReacted { reaction: String, cell: CellPos, volume_vu: u32 },
    HighPressureSteam { cell: CellPos },
    DepositRecovered { id: String, yield_fu: u32 },
    PowerBrownout { entity_id: u32, demand_eu: u32 },
}

/// Terrain edits a player can make.
#[derive(Debug, Clone, Copy, PartialEq, Eq, Structural)]
pub enum TerrainAction {
    Excavate,
    Raise,
    Seal,
}

/// Why a terrain edit was refused.
#[derive(Debug, Clone, Copy, PartialEq, Eq, Structural)]
pub enum TerrainError {
    OutOfBounds,
    Protected,
    Capacity,
}

/// The whole deterministic simulation state of one map.
#[derive(Debug, Clone)]
pub struct SimulationWorld {
    pub width: u16,
    pub height: u16,
    pub definitions: Vec<CellDefinition>,
    pub cells: Vec<SimCell>,
    pub tick: u64,
    pub ledger: MassLedger,
    pub events: Vec<SimEvent>,
    pub devices: DeviceSystem,
    pub sources: Vec<SourceState>,
    pub source_schedule: Option<SourceSchedule>,
    pub deposits: Vec<ResourceDeposit>,
    pub power_sources: Vec<PowerSource>,
    pub fabrication: FabricationState,
    pub power: PowerLedger,
}

/// Room for `n` ticks is room for any fewer.
pub proof fn lemma_room_monotone(w: SimulationWorld, n: nat, m: nat)
    requires
        w.room_for(n),
        m <= n,
    ensures
        w.room_for(m),
{
    let s = w.sources@.len() as int;
    let c = w.cells@.len() as int;
    assert(m * CELL_CAPACITY_VU * s <= n * CELL_CAPACITY_VU * s) by (nonlinear_arith)
        requires
            m <= n,
            s >= 0,
    ;
    assert(m * CELL_CAPACITY_VU * c <= n * CELL_CAPACITY_VU * c) by (nonlinear_arith)
        requires
            m <= n,
            c >= 0,
    ;
    assert(m * 740 * c <= n * 740 * c) by (nonlinear_arith)
        requires
            m <= n,
            c >= 0,
    ;
    assert(m * 250 * c <= n * 250 * c) by (nonlinear_arith)
        requires
            m <= n,
            c >= 0,
    ;
    assert forall|i: int| 0 <= i < w.cells@.len() implies cell_products(#[trigger] w.cells@[i])
        + PRODUCT_GROWTH_PER_TICK * m <= PRODUCT_LIMIT_VU by {
        assert(PRODUCT_GROWTH_PER_TICK * m <= PRODUCT_GROWTH_PER_TICK * n) by (nonlinear_arith)
            requires
                m <= n,
        ;
    }
}

/// Sum of cell material over a sequence of cells.
pub open spec fn cells_material(s: Seq<SimCell>) -> int
    decreases s.len(),
{
    if s.len() == 0 {
        0
    } else {
        cells_material(s.drop_last()) + cell_material(s.last())
    }
}

/// Material held inside devices.
pub open spec fn devices_stored(s: Seq<DeviceState>) -> int
    decreases s.len(),
{
    if s.len() == 0 {
        0
    } else {
        devices_stored(s.drop_last()) + s.last().stored_vu
    }
}

/// Replacing one cell changes the cell total by the difference of the two cells.
pub proof fn lemma_cells_material_update(s: Seq<SimCell>, i: int, c: SimCell)
    requires
        0 <= i < s.len(),
    ensures
        cells_material(s.update(i, c)) == cells_material(s) - cell_material(s[i]) + cell_material(c),
    decreases s.len(),
{
    let t = s.update(i, c);
    if i == s.len() - 1 {
        assert(t.drop_last() =~= s.drop_last());
    } else {
        assert(t.drop_last() =~= s.drop_last().update(i, c));
        lemma_cells_material_update(s.drop_last(), i, c);
    }
}

/// Replacing one device changes the stored total by the difference of the two devices.
pub proof fn lemma_devices_stored_update(s: Seq<DeviceState>, i: int, d: DeviceState)
    requires
        0 <= i < s.len(),
    ensures
        devices_stored(s.update(i, d)) == devices_stored(s) - s[i].stored_vu + d.stored_vu,
    decreases s.len(),
{
    let t = s.update(i, d);
    if i == s.len() - 1 {
        assert(t.drop_last() =~= s.drop_last());
    } else {
        assert(t.drop_last() =~= s.drop_last().update(i, d));
        lemma_devices_stored_update(s.drop_last(), i, d);
    }
}

/// Cell material and stored device material are never negative.
pub proof fn lemma_totals_nonnegative(s: Seq<SimCell>, d: Seq<DeviceState>)
    ensures
        cells_material(s) >= 0,
        devices_stored(d) >= 0,
    decreases s.len() + d.len(),
{
    if s.len() > 0 {
        lemma_totals_nonnegative(s.drop_last(), d);
    } else if d.len() > 0 {
        lemma_totals_nonnegative(s, d.drop_last());
    }
}

/// Largest pending-plus-formed product volume a cell may hold.
pub const PRODUCT_LIMIT_VU: u32 = 536_870_912;

/// Largest value of any mass-ledger counter.
pub const LEDGER_LIMIT_VU: u64 = 1_152_921_504_606_846_976;

/// Most product volume one cell gains in one tick.
pub const PRODUCT_GROWTH_PER_TICK: u32 = 570;

/// Most devices or sources a world holds.
pub const ENTITY_LIMIT: usize = 16_777_216;

impl SimulationWorld {
    /// All material in the world: cells and device storage.
    pub open spec fn material(self) -> int {
        cells_material(self.cells@) + devices_stored(self.devices.devices@)
    }

    /// Injected minus drained minus present material: zero when mass is conserved.
    pub open spec fn balance(self) -> int {
        self.ledger.injected - self.ledger.drained - self.material()
    }

    /// Grid sizes agree, every cell is well formed and temperatures are in range.
    pub open spec fn wf(self) -> bool {
        &&& self.width <= 32767
        &&& self.height <= 32767
        &&& self.cells@.len() == self.width * self.height
        &&& self.definitions@.len() == self.width * self.height
        &&& forall|i: int| 0 <= i < self.cells@.len() ==> (#[trigger] self.cells@[i]).wf()
        &&& forall|i: int|
            0 <= i < self.definitions@.len() ==> -entries::TEMPERATURE_LIMIT_DK
                <= (#[trigger] self.definitions@[i]).ambient_temperature_dk
                <= entries::TEMPERATURE_LIMIT_DK
        &&& self.devices.wf()
        &&& self.sources@.len() <= ENTITY_LIMIT
    }

    /// Counters leave room for `ticks` more ticks without overflow.
    pub open spec fn room_for(self, ticks: nat) -> bool {
        &&& forall|i: int|
            0 <= i < self.cells@.len() ==> cell_products(#[trigger] self.cells@[i])
                + PRODUCT_GROWTH_PER_TICK * ticks <= PRODUCT_LIMIT_VU
        &&& self.ledger.injected + ticks * CELL_CAPACITY_VU * self.sources@.len() <= LEDGER_LIMIT_VU
        &&& self.ledger.drained + ticks * CELL_CAPACITY_VU * self.cells@.len() <= LEDGER_LIMIT_VU
        &&& self.ledger.reacted + ticks * 740 * self.cells@.len() <= LEDGER_LIMIT_VU
        &&& self.ledger.products + ticks * 250 * self.cells@.len() <= LEDGER_LIMIT_VU
    }

    /// Every cell's products can still grow by `growth` vU.
    pub open spec fn products_room(self, growth: int) -> bool {
        forall|i: int| 0 <= i < self.cells@.len() ==> cell_products(#[trigger] self.cells@[i]) + growth <= PRODUCT_LIMIT_VU
    }

    /// The reaction counters and cell products have room for one tick of reactions.
    pub open spec fn reaction_room(self) -> bool {
        &&& self.products_room(PRODUCT_GROWTH_PER_TICK as int)
        &&& self.ledger.reacted + 740 * self.cells@.len() <= LEDGER_LIMIT_VU
        &&& self.ledger.products + 250 * self.cells@.len() <= LEDGER_LIMIT_VU
    }

    /// The drain counter has room for one tick of draining.
    pub open spec fn drain_room(self) -> bool {
        self.ledger.drained + CELL_CAPACITY_VU * self.cells@.len() <= LEDGER_LIMIT_VU
    }

    /// The cell index of `pos`, when it lies on the grid.
    pub open spec fn index_of(self, pos: CellPos) -> Option<usize> {
        grid_index(self.width, self.height, pos)
    }
}

} // verus!
