//! A deterministic fingerprint of a world: FNV-1a over 64-bit words that list its
//! grid, counters, cells, devices and fabrication stock in a fixed order.

use vstd::prelude::*;

use super::{FluidEntry, SimCell, SimulationWorld};
use crate::devices::{DeviceId, DeviceState};
use crate::economy::FabricationState;

verus! {

/// FNV-1a offset basis.
pub const FNV_OFFSET: u64 = 1469598103934665603;

/// FNV-1a prime.
pub const FNV_PRIME: u64 = 1099511628211;

/// One FNV-1a step: mix a word in, then multiply by the prime, wrapping.
pub open spec fn fnv_step(hash: u64, word: u64) -> u64 {
    vstd::wrapping::u64_specs::wrapping_mul(hash ^ word, FNV_PRIME)
}

/// FNV-1a over a list of words, starting from `hash`.
pub open spec fn fnv_words(hash: u64, words: Seq<u64>) -> u64
    decreases words.len(),
{
    if words.len() == 0 {
        hash
    } else {
        fnv_step(fnv_words(hash, words.drop_last()), words.last())
    }
}

/// 1 for true, 0 for false.
pub open spec fn flag(b: bool) -> u64 {
    if b { 1 } else { 0 }
}

/// Position of a device kind in the registry order.
pub open spec fn device_code(d: DeviceId) -> u64 {
    match d {
        DeviceId::Channel => 0,
        DeviceId::Pipe => 1,
        DeviceId::Pump => 2,
        DeviceId::Floodgate => 3,
        DeviceId::Reservoir => 4,
        DeviceId::Spillway => 5,
        DeviceId::FlowTurbine => 6,
        DeviceId::Sensor => 7,
        DeviceId::Filter => 8,
        DeviceId::RuneRelay => 9,
    }
}

/// The words of one fluid entry.
pub open spec fn entry_words(e: FluidEntry) -> Seq<u64> {
    seq![e.fluid.rank_spec() as u64, e.volume_vu as u64, e.temperature_dk as u64, e.contamination_bp as u64]
}

/// The words of a list of entries, one after another.
pub open spec fn entries_words(s: Seq<FluidEntry>) -> Seq<u64>
    decreases s.len(),
{
    if s.len() == 0 {
        seq![]
    } else {
        entries_words(s.drop_last()) + entry_words(s.last())
    }
}

/// The words of one cell: its scalars, then each layer as a length and entries.
pub open spec fn cell_words(c: SimCell) -> Seq<u64> {
    seq![
        c.height_hu as u64,
        flag(c.sealed),
        flag(c.contained),
        c.ground_contamination_bp as u64,
        c.pending_rock_vu as u64,
        c.pending_vitrified_vu as u64,
        c.formed_rock_vu as u64,
        c.formed_vitrified_vu as u64,
        c.surface@.len() as u64,
    ] + entries_words(c.surface@) + seq![c.airborne@.len() as u64] + entries_words(c.airborne@)
}

/// The words of a list of cells, one after another.
pub open spec fn cells_words(s: Seq<SimCell>) -> Seq<u64>
    decreases s.len(),
{
    if s.len() == 0 {
        seq![]
    } else {
        cells_words(s.drop_last()) + cell_words(s.last())
    }
}

/// The words of one device.
pub open spec fn device_words(d: DeviceState) -> Seq<u64> {
    seq![
        d.entity_id as u64,
        device_code(d.device),
        d.anchor.x as u64,
        d.anchor.y as u64,
        d.rotation as u64,
        d.health_bp as u64,
        flag(d.powered),
        d.setting_bp as u64,
        d.stored_vu as u64,
        match d.stored_fluid {
            Some(f) => (f.rank_spec() + 1) as u64,
            None => 0,
        },
        d.power_generated as u64,
        d.cumulative_power,
        flag(d.active),
        flag(d.enabled),
        d.operated_ticks,
        flag(d.authored),
    ]
}

/// The words of a list of devices, one after another.
pub open spec fn devices_words(s: Seq<DeviceState>) -> Seq<u64>
    decreases s.len(),
{
    if s.len() == 0 {
        seq![]
    } else {
        devices_words(s.drop_last()) + device_words(s.last())
    }
}

/// The words of the fabrication stock.
pub open spec fn fabrication_words(f: FabricationState) -> Seq<u64> {
    seq![
        f.authored_start_fu as u64,
        f.recovered_fu as u64,
        f.available_fu as u64,
        f.reserved_fu as u64,
        f.spent_fu as u64,
        f.refunded_fu as u64,
    ]
}

/// All words of a world, in order.
pub open spec fn world_words(w: SimulationWorld) -> Seq<u64> {
    seq![
        w.width as u64,
        w.height as u64,
        w.tick,
        w.ledger.injected,
        w.ledger.drained,
        w.ledger.reacted,
        w.ledger.products,
        w.cells@.len() as u64,
    ] + cells_words(w.cells@) + seq![w.devices.devices@.len() as u64] + devices_words(w.devices.devices@)
        + fabrication_words(w.fabrication)
}

/// The fingerprint of a world.
pub open spec fn world_fingerprint(w: SimulationWorld) -> u64 {
    fnv_words(FNV_OFFSET, world_words(w))
}

/// Hashing two lists in turn is hashing their concatenation.
pub proof fn lemma_fnv_concat(hash: u64, a: Seq<u64>, b: Seq<u64>)
    ensures
        fnv_words(hash, a + b) == fnv_words(fnv_words(hash, a), b),
    decreases b.len(),
{
    if b.len() == 0 {
        assert(a + b =~= a);
    } else {
        lemma_fnv_concat(hash, a, b.drop_last());
        assert((a + b).drop_last() =~= a + b.drop_last());
    }
}

/// Mix a list of words into `hash`.
pub(crate) fn fnv_slice(hash: u64, words: &[u64]) -> (r: u64)
    ensures
        r == fnv_words(hash, words@),
{
    let mut h = hash;
    let mut i: usize = 0;
    while i < words.len()
        invariant
            i <= words@.len(),
            h == fnv_words(hash, words@.take(i as int)),
        decreases words@.len() - i,
    {
        proof {
            assert(words@.take(i as int + 1).drop_last() =~= words@.take(i as int));
        }
        h = (h ^ words[i]).wrapping_mul(FNV_PRIME);
        i = i + 1;
    }
    proof {
        assert(words@.take(words@.len() as int) =~= words@);
    }
    h
}

/// Mix a list of entries into `hash`.
fn fnv_entries(hash: u64, entries: &Vec<FluidEntry>) -> (r: u64)
    ensures
        r == fnv_words(hash, entries_words(entries@)),
{
    let mut h = hash;
    let mut i: usize = 0;
    while i < entries.len()
        invariant
            i <= entries@.len(),
            h == fnv_words(hash, entries_words(entries@.take(i as int))),
        decreases entries@.len() - i,
    {
        let e = entries[i];
        let words = [e.fluid.rank() as u64, e.volume_vu as u64, e.temperature_dk as u64, e.contamination_bp as u64];
        proof {
            assert(entries@.take(i as int + 1).drop_last() =~= entries@.take(i as int));
            assert(words@ =~= entry_words(e));
            lemma_fnv_concat(hash, entries_words(entries@.take(i as int)), entry_words(e));
        }
        h = fnv_slice(h, &words);
        i = i + 1;
    }
    proof {
        assert(entries@.take(entries@.len() as int) =~= entries@);
    }
    h
}

/// Mix one cell into `hash`.
fn fnv_cell(hash: u64, c: &SimCell) -> (r: u64)
    ensures
        r == fnv_words(hash, cell_words(*c)),
{
    let head = [
        c.height_hu as u64,
        if c.sealed { 1 } else { 0 },
        if c.contained { 1 } else { 0 },
        c.ground_contamination_bp as u64,
        c.pending_rock_vu as u64,
        c.pending_vitrified_vu as u64,
        c.formed_rock_vu as u64,
        c.formed_vitrified_vu as u64,
        c.surface.len() as u64,
    ];
    let h1 = fnv_slice(hash, &head);
    let h2 = fnv_entries(h1, &c.surface);
    let middle = [c.airborne.len() as u64];
    let h3 = fnv_slice(h2, &middle);
    let h4 = fnv_entries(h3, &c.airborne);
    proof {
        let a = head@;
        let b = entries_words(c.surface@);
        let m = middle@;
        let d = entries_words(c.airborne@);
        lemma_fnv_concat(hash, a, b);
        lemma_fnv_concat(hash, a + b, m);
        lemma_fnv_concat(hash, a + b + m, d);
        assert(cell_words(*c) =~= a + b + m + d);
    }
    h4
}

/// Mix one device into `hash`.
fn fnv_device(hash: u64, d: &DeviceState) -> (r: u64)
    ensures
        r == fnv_words(hash, device_words(*d)),
{
    let code: u64 = match d.device {
        DeviceId::Channel => 0,
        DeviceId::Pipe => 1,
        DeviceId::Pump => 2,
        DeviceId::Floodgate => 3,
        DeviceId::Reservoir => 4,
        DeviceId::Spillway => 5,
        DeviceId::FlowTurbine => 6,
        DeviceId::Sensor => 7,
        DeviceId::Filter => 8,
        DeviceId::RuneRelay => 9,
    };
    let stored: u64 = match d.stored_fluid {
        Some(f) => f.rank() as u64 + 1,
        None => 0,
    };
    let words = [
        d.entity_id as u64,
        code,
        d.anchor.x as u64,
        d.anchor.y as u64,
        d.rotation as u64,
        d.health_bp as u64,
        if d.powered { 1 } else { 0 },
        d.setting_bp as u64,
        d.stored_vu as u64,
        stored,
        d.power_generated as u64,
        d.cumulative_power,
        if d.active { 1 } else { 0 },
        if d.enabled { 1 } else { 0 },
        d.operated_ticks,
        if d.authored { 1 } else { 0 },
    ];
    proof {
        assert(words@ =~= device_words(*d));
    }
    fnv_slice(hash, &words)
}

impl SimulationWorld {
    /// The world's fingerprint: FNV-1a over its grid size, tick, mass ledger,
    /// cells, devices and fabrication stock. Equal worlds give equal fingerprints.
    pub fn fingerprint(&self) -> (hash: u64)
        ensures
            hash == world_fingerprint(*self),
    {
        let head = [
            self.width as u64,
            self.height as u64,
            self.tick,
            self.ledger.injected,
            self.ledger.drained,
            self.ledger.reacted,
            self.ledger.products,
            self.cells.len() as u64,
        ];
        let mut h = fnv_slice(FNV_OFFSET, &head);
        let mut i: usize = 0;
        while i < self.cells.len()
            invariant
                i <= self.cells@.len(),
                h == fnv_words(fnv_words(FNV_OFFSET, head@), cells_words(self.cells@.take(i as int))),
            decreases self.cells@.len() - i,
        {
            proof {
                assert(self.cells@.take(i as int + 1).drop_last() =~= self.cells@.take(i as int));
                lemma_fnv_concat(
                    fnv_words(FNV_OFFSET, head@),
                    cells_words(self.cells@.take(i as int)),
                    cell_words(self.cells@[i as int]),
                );
            }
            h = fnv_cell(h, &self.cells[i]);
            i = i + 1;
        }
        let ghost after_cells = h;
        let count = [self.devices.devices.len() as u64];
        h = fnv_slice(h, &count);
        let ghost after_count = h;
        let mut j: usize = 0;
        while j < self.devices.devices.len()
            invariant
                j <= self.devices.devices@.len(),
                h == fnv_words(after_count, devices_words(self.devices.devices@.take(j as int))),
            decreases self.devices.devices@.len() - j,
        {
            proof {
                assert(self.devices.devices@.take(j as int + 1).drop_last() =~= self.devices.devices@.take(j as int));
                lemma_fnv_concat(
                    after_count,
                    devices_words(self.devices.devices@.take(j as int)),
                    device_words(self.devices.devices@[j as int]),
                );
            }
            h = fnv_device(h, &self.devices.devices[j]);
            j = j + 1;
        }
        let f = &self.fabrication;
        let tail = [
            f.authored_start_fu as u64,
            f.recovered_fu as u64,
            f.available_fu as u64,
            f.reserved_fu as u64,
            f.spent_fu as u64,
            f.refunded_fu as u64,
        ];
        let ghost after_devices = h;
        h = fnv_slice(h, &tail);
        proof {
            assert(self.cells@.take(self.cells@.len() as int) =~= self.cells@);
            assert(self.devices.devices@.take(self.devices.devices@.len() as int) =~= self.devices.devices@);
            assert(tail@ =~= fabrication_words(*f));
            let a = head@;
            let b = cells_words(self.cells@);
            let c = count@;
            let d = devices_words(self.devices.devices@);
            let e = tail@;
            lemma_fnv_concat(FNV_OFFSET, a, b);
            lemma_fnv_concat(FNV_OFFSET, a + b, c);
            lemma_fnv_concat(FNV_OFFSET, a + b + c, d);
            lemma_fnv_concat(FNV_OFFSET, a + b + c + d, e);
            assert(world_words(*self) =~= a + b + c + d + e);
        }
        h
    }
}

} // verus!
