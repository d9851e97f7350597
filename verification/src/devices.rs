//! Deterministic slice device registry, placement rules and budgets.

use vstd::prelude::*;

use crate::economy::{FabricationState, PowerClass};
use crate::simulation::{FluidId, SimulationWorld};
use crate::state::CellPos;

pub mod network;
pub mod placement;
pub mod power;
pub mod runtime;
pub mod showcase;

use network::direction;

verus! {

/// The ten slice devices.
#[derive(Debug, Clone, Copy, PartialEq, Eq, Structural, PartialOrd, Ord, Hash)]
pub enum DeviceId {
    Channel,
    Pipe,
    Pump,
    Floodgate,
    Reservoir,
    Spillway,
    FlowTurbine,
    Sensor,
    Filter,
    RuneRelay,
}

impl DeviceId {
    pub const ALL: [DeviceId; 10] = [
        DeviceId::Channel,
        DeviceId::Pipe,
        DeviceId::Pump,
        DeviceId::Floodgate,
        DeviceId::Reservoir,
        DeviceId::Spillway,
        DeviceId::FlowTurbine,
        DeviceId::Sensor,
        DeviceId::Filter,
        DeviceId::RuneRelay,
    ];

    pub open spec fn cost_spec(self) -> u32 {
        match self {
            DeviceId::Channel => 2,
            DeviceId::Pipe => 3,
            DeviceId::Pump => 12,
            DeviceId::Floodgate => 8,
            DeviceId::Reservoir => 16,
            DeviceId::Spillway => 6,
            DeviceId::FlowTurbine => 14,
            DeviceId::Sensor => 5,
            DeviceId::Filter => 14,
            DeviceId::RuneRelay => 20,
        }
    }

    /// Fabrication cost in fabU.
    #[verifier::when_used_as_spec(cost_spec)]
    pub fn cost(self) -> (c: u32)
        ensures
            c == self.cost_spec(),
    {
        match self {
            DeviceId::Channel => 2,
            DeviceId::Pipe => 3,
            DeviceId::Pump => 12,
            DeviceId::Floodgate => 8,
            DeviceId::Reservoir => 16,
            DeviceId::Spillway => 6,
            DeviceId::FlowTurbine => 14,
            DeviceId::Sensor => 5,
            DeviceId::Filter => 14,
            DeviceId::RuneRelay => 20,
        }
    }

    pub open spec fn footprint_spec(self) -> (u16, u16) {
        match self {
            DeviceId::Reservoir | DeviceId::RuneRelay => (2u16, 2u16),
            _ => (1u16, 1u16),
        }
    }

    /// Width and height of the cells a device occupies from its anchor.
    #[verifier::when_used_as_spec(footprint_spec)]
    pub fn footprint(self) -> (f: (u16, u16))
        ensures
            f == self.footprint_spec(),
    {
        match self {
            DeviceId::Reservoir | DeviceId::RuneRelay => (2, 2),
            _ => (1, 1),
        }
    }

    pub open spec fn name_spec(self) -> Seq<char> {
        match self {
            DeviceId::Channel => "channel"@,
            DeviceId::Pipe => "pipe"@,
            DeviceId::Pump => "pump"@,
            DeviceId::Floodgate => "floodgate"@,
            DeviceId::Reservoir => "reservoir"@,
            DeviceId::Spillway => "spillway"@,
            DeviceId::FlowTurbine => "flow_turbine"@,
            DeviceId::Sensor => "sensor"@,
            DeviceId::Filter => "filter"@,
            DeviceId::RuneRelay => "rune_relay"@,
        }
    }

    /// Content identifier of the device.
    pub fn name(self) -> (n: &'static str)
        ensures
            n@ == self.name_spec(),
    {
        match self {
            DeviceId::Channel => "channel",
            DeviceId::Pipe => "pipe",
            DeviceId::Pump => "pump",
            DeviceId::Floodgate => "floodgate",
            DeviceId::Reservoir => "reservoir",
            DeviceId::Spillway => "spillway",
            DeviceId::FlowTurbine => "flow_turbine",
            DeviceId::Sensor => "sensor",
            DeviceId::Filter => "filter",
            DeviceId::RuneRelay => "rune_relay",
        }
    }

    pub open spec fn power_demand_spec(self) -> u32 {
        match self {
            DeviceId::Pump | DeviceId::Filter => 3,
            DeviceId::Reservoir | DeviceId::Sensor => 1,
            DeviceId::RuneRelay => 2,
            _ => 0,
        }
    }

    /// Field power drawn per tick while enabled.
    #[verifier::when_used_as_spec(power_demand_spec)]
    pub fn power_demand_eu(self) -> (d: u32)
        ensures
            d == self.power_demand_spec(),
    {
        match self {
            DeviceId::Pump | DeviceId::Filter => 3,
            DeviceId::Reservoir | DeviceId::Sensor => 1,
            DeviceId::RuneRelay => 2,
            _ => 0,
        }
    }

    pub open spec fn power_class_spec(self) -> Option<PowerClass> {
        match self {
            DeviceId::Reservoir | DeviceId::Sensor => Some(PowerClass::Safety),
            DeviceId::Pump => Some(PowerClass::Transport),
            DeviceId::Filter => Some(PowerClass::Process),
            DeviceId::RuneRelay => Some(PowerClass::Interface),
            _ => None,
        }
    }

    /// Allocation priority of a powered device.
    #[verifier::when_used_as_spec(power_class_spec)]
    pub fn power_class(self) -> (c: Option<PowerClass>)
        ensures
            c == self.power_class_spec(),
    {
        match self {
            DeviceId::Reservoir | DeviceId::Sensor => Some(PowerClass::Safety),
            DeviceId::Pump => Some(PowerClass::Transport),
            DeviceId::Filter => Some(PowerClass::Process),
            DeviceId::RuneRelay => Some(PowerClass::Interface),
            _ => None,
        }
    }
}

/// A named showcase map that exercises one device.
#[derive(Debug, Clone, Copy, PartialEq, Eq)]
pub struct ShowcaseMap {
    pub map_id: &'static str,
    pub device: DeviceId,
}

/// The ten device showcase maps, one per device.
pub fn showcase_maps() -> (maps: [ShowcaseMap; 10])
    ensures
        forall|i: int| 0 <= i < 10 ==> (#[trigger] maps@[i]).device == DeviceId::ALL@[i],
        forall|i: int| 0 <= i < 10 ==> (#[trigger] maps@[i]).map_id@ == "device_"@ + maps@[i].device.name_spec(),
{
    proof {
        reveal_strlit("device_channel");
        reveal_strlit("device_pipe");
        reveal_strlit("device_pump");
        reveal_strlit("device_floodgate");
        reveal_strlit("device_reservoir");
        reveal_strlit("device_spillway");
        reveal_strlit("device_flow_turbine");
        reveal_strlit("device_sensor");
        reveal_strlit("device_filter");
        reveal_strlit("device_rune_relay");
        reveal_strlit("device_");
        reveal_strlit("channel");
        reveal_strlit("pipe");
        reveal_strlit("pump");
        reveal_strlit("floodgate");
        reveal_strlit("reservoir");
        reveal_strlit("spillway");
        reveal_strlit("flow_turbine");
        reveal_strlit("sensor");
        reveal_strlit("filter");
        reveal_strlit("rune_relay");
    }
    let maps = [
        ShowcaseMap { map_id: "device_channel", device: DeviceId::Channel },
        ShowcaseMap { map_id: "device_pipe", device: DeviceId::Pipe },
        ShowcaseMap { map_id: "device_pump", device: DeviceId::Pump },
        ShowcaseMap { map_id: "device_floodgate", device: DeviceId::Floodgate },
        ShowcaseMap { map_id: "device_reservoir", device: DeviceId::Reservoir },
        ShowcaseMap { map_id: "device_spillway", device: DeviceId::Spillway },
        ShowcaseMap { map_id: "device_flow_turbine", device: DeviceId::FlowTurbine },
        ShowcaseMap { map_id: "device_sensor", device: DeviceId::Sensor },
        ShowcaseMap { map_id: "device_filter", device: DeviceId::Filter },
        ShowcaseMap { map_id: "device_rune_relay", device: DeviceId::RuneRelay },
    ];
    proof {
        assert(maps@[0].map_id@ =~= "device_"@ + "channel"@);
        assert(maps@[1].map_id@ =~= "device_"@ + "pipe"@);
        assert(maps@[2].map_id@ =~= "device_"@ + "pump"@);
        assert(maps@[3].map_id@ =~= "device_"@ + "floodgate"@);
        assert(maps@[4].map_id@ =~= "device_"@ + "reservoir"@);
        assert(maps@[5].map_id@ =~= "device_"@ + "spillway"@);
        assert(maps@[6].map_id@ =~= "device_"@ + "flow_turbine"@);
        assert(maps@[7].map_id@ =~= "device_"@ + "sensor"@);
        assert(maps@[8].map_id@ =~= "device_"@ + "filter"@);
        assert(maps@[9].map_id@ =~= "device_"@ + "rune_relay"@);
    }
    maps
}

/// Why a placement was refused.
#[derive(Debug, Clone, Copy, PartialEq, Eq, Structural)]
pub enum DeviceError {
    OutOfBounds,
    Occupied,
    InsufficientFabrication,
    Protected,
    InvalidRotation,
}

/// One placed device.
#[derive(Debug, Clone, Copy, PartialEq, Eq, Structural)]
pub struct DeviceState {
    pub entity_id: u32,
    pub device: DeviceId,
    pub anchor: CellPos,
    pub rotation: u8,
    pub health_bp: u16,
    pub powered: bool,
    pub setting_bp: u16,
    pub stored_vu: u32,
    pub stored_fluid: Option<FluidId>,
    pub power_generated: u32,
    pub cumulative_power: u64,
    pub active: bool,
    pub enabled: bool,
    pub operated_ticks: u64,
    pub authored: bool,
}

/// A queued build plan that holds a fabrication reservation.
#[derive(Debug, Clone, Copy, PartialEq, Eq, Structural)]
pub struct QueuedPlan {
    pub plan_id: u32,
    pub device: DeviceId,
    pub anchor: CellPos,
    pub rotation: u8,
    pub cost: u32,
}

/// Placed devices, queued plans and identifier counters.
#[derive(Debug, Clone)]
pub struct DeviceSystem {
    pub next_entity_id: u32,
    pub next_plan_id: u32,
    pub queued: Vec<QueuedPlan>,
    pub devices: Vec<DeviceState>,
}

impl DeviceSystem {
    /// A bounded number of devices, anchored where signed 16-bit steps around them
    /// stay exact, each reporting at most 4 eU of generation.
    pub open spec fn wf(self) -> bool {
        &&& self.devices@.len() <= 16_777_216
        &&& forall|i: int| 0 <= i < self.devices@.len() ==> {
            &&& (#[trigger] self.devices@[i]).anchor.x < 32767
            &&& self.devices@[i].anchor.y < 32767
            &&& self.devices@[i].power_generated <= 4
        }
    }
}

impl Default for DeviceSystem {
    fn default() -> (system: Self)
        ensures
            system.next_entity_id == 0,
            system.next_plan_id == 0,
            system.queued@.len() == 0,
            system.devices@.len() == 0,
            system.wf(),
    {
        DeviceSystem { next_entity_id: 0, next_plan_id: 0, queued: Vec::new(), devices: Vec::new() }
    }
}

/// The edge between two orthogonally adjacent cells, as a step from the first.
pub open spec fn edge_delta(source: CellPos, destination: CellPos) -> (int, int) {
    (destination.x - source.x, destination.y - source.y)
}

/// Whether a floodgate device sits on the edge between the two cells, lying along
/// its rotation axis.
pub open spec fn gate_controls(device: DeviceState, source: CellPos, destination: CellPos) -> bool {
    let d = network::direction_spec(device.rotation);
    let delta = edge_delta(source, destination);
    &&& device.device == DeviceId::Floodgate
    &&& (source == device.anchor || destination == device.anchor)
    &&& (delta == (d.0 as int, d.1 as int) || delta == (-d.0, -d.1))
}

/// Coordinates small enough for signed 16-bit edge arithmetic.
pub open spec fn small_pos(p: CellPos) -> bool {
    p.x <= 32767 && p.y <= 32767
}

/// Whether `device` is a floodgate controlling the edge between the two cells.
fn floodgate_controls_edge(device: &DeviceState, source: CellPos, destination: CellPos) -> (b: bool)
    requires
        small_pos(source),
        small_pos(destination),
    ensures
        b == gate_controls(*device, source, destination),
{
    if device.device != DeviceId::Floodgate {
        return false;
    }
    let dx: i16 = destination.x as i16 - source.x as i16;
    let dy: i16 = destination.y as i16 - source.y as i16;
    let d = direction(device.rotation);
    let source_side = source == device.anchor || destination == device.anchor;
    let matches_edge = (dx == d.0 && dy == d.1) || (dx == -d.0 && dy == -d.1);
    source_side && matches_edge
}

/// Index of the first device for which the predicate holds.
pub open spec fn first_gate_on_edge(devices: Seq<DeviceState>, source: CellPos, destination: CellPos, i: int) -> bool {
    &&& 0 <= i < devices.len()
    &&& gate_controls(devices[i], source, destination)
    &&& forall|j: int| 0 <= j < i ==> !gate_controls(#[trigger] devices[j], source, destination)
}

/// Flow factor of an edge in basis points: the setting of the first floodgate on
/// the edge, or 10000 when no gate controls it.
pub open spec fn flow_factor_spec(devices: Seq<DeviceState>, source: CellPos, destination: CellPos) -> u32 {
    if exists|i: int| first_gate_on_edge(devices, source, destination, i) {
        devices[choose|i: int| first_gate_on_edge(devices, source, destination, i)].setting_bp as u32
    } else {
        10_000
    }
}

/// Position of the first device of an allowed kind anchored at `anchor`.
pub open spec fn first_flow_device(devices: Seq<DeviceState>, anchor: CellPos, allowed: Seq<DeviceId>, i: int) -> bool {
    &&& 0 <= i < devices.len()
    &&& allowed.contains(devices[i].device)
    &&& devices[i].anchor == anchor
    &&& forall|j: int| 0 <= j < i ==> !(allowed.contains(#[trigger] devices[j].device) && devices[j].anchor == anchor)
}

/// The devices `d1` after setting the flow device anchored at `anchor` (see `DeviceSystem::set_selected_flow`).
pub open spec fn flow_set(d0: DeviceSystem, d1: DeviceSystem, anchor: CellPos, setting_bp: u16, found: bool) -> bool {
    &&& found == exists|i: int| first_flow_device(
        d0.devices@,
        anchor,
        seq![DeviceId::Floodgate, DeviceId::Pump, DeviceId::Reservoir],
        i,
    )
    &&& forall|i: int| first_flow_device(
        d0.devices@,
        anchor,
        seq![DeviceId::Floodgate, DeviceId::Pump, DeviceId::Reservoir],
        i,
    ) ==> d1.devices@ == d0.devices@.update(
        i,
        DeviceState {
            setting_bp: if setting_bp <= 10_000 { setting_bp } else { 10_000 },
            ..d0.devices@[i]
        },
    )
    &&& !found ==> d1.devices == d0.devices
    &&& d1.queued == d0.queued
    &&& d1.next_entity_id == d0.next_entity_id
    &&& d1.next_plan_id == d0.next_plan_id
}

/// The devices `d1` after enabling or disabling the device `entity_id` (see `DeviceSystem::set_enabled`).
pub open spec fn enabled_set(d0: DeviceSystem, d1: DeviceSystem, entity_id: u32, enabled: bool, found: bool) -> bool {
    &&& found == exists|i: int| 0 <= i < d0.devices@.len() && (#[trigger] d0.devices@[i]).entity_id == entity_id
    &&& found ==> exists|i: int| {
        &&& 0 <= i < d0.devices@.len()
        &&& d0.devices@[i].entity_id == entity_id
        &&& forall|j: int| 0 <= j < i ==> (#[trigger] d0.devices@[j]).entity_id != entity_id
        &&& d1.devices@ == d0.devices@.update(
            i,
            if enabled {
                DeviceState { enabled: true, ..d0.devices@[i] }
            } else {
                DeviceState { enabled: false, powered: false, active: false, ..d0.devices@[i] }
            },
        )
    }
    &&& !found ==> d1.devices == d0.devices
    &&& d1.queued == d0.queued
    &&& d1.next_entity_id == d0.next_entity_id
    &&& d1.next_plan_id == d0.next_plan_id
}

/// The devices `d1` after setting the floodgate anchored at `anchor` (see `DeviceSystem::set_selected_gate`).
pub open spec fn gate_devices_set(d0: DeviceSystem, d1: DeviceSystem, anchor: CellPos, setting_bp: u16, found: bool) -> bool {
    &&& found == exists|i: int| first_flow_device(d0.devices@, anchor, seq![DeviceId::Floodgate], i)
    &&& forall|i: int| first_flow_device(d0.devices@, anchor, seq![DeviceId::Floodgate], i)
        ==> d1.devices@ == d0.devices@.update(
        i,
        DeviceState {
            setting_bp: if setting_bp <= 10_000 { setting_bp } else { 10_000 },
            ..d0.devices@[i]
        },
    )
    &&& !found ==> d1.devices == d0.devices
    &&& d1.queued == d0.queued
    &&& d1.next_entity_id == d0.next_entity_id
    &&& d1.next_plan_id == d0.next_plan_id
}

impl DeviceSystem {
    /// Flow factor of the edge from `source` to `destination` in basis points.
    pub fn surface_flow_factor(&self, source: CellPos, destination: CellPos) -> (factor: u32)
        requires
            small_pos(source),
            small_pos(destination),
        ensures
            factor == flow_factor_spec(self.devices@, source, destination),
            factor <= 65535,
    {
        let mut i: usize = 0;
        while i < self.devices.len()
            invariant
                i <= self.devices@.len(),
                small_pos(source),
                small_pos(destination),
                forall|j: int| 0 <= j < i ==> !gate_controls(#[trigger] self.devices@[j], source, destination),
            decreases self.devices@.len() - i,
        {
            if floodgate_controls_edge(&self.devices[i], source, destination) {
                proof {
                    assert(first_gate_on_edge(self.devices@, source, destination, i as int));
                    assert forall|k: int| first_gate_on_edge(self.devices@, source, destination, k) implies k == i by {
                        if k > i {
                            assert(gate_controls(self.devices@[i as int], source, destination));
                        }
                    }
                }
                return self.devices[i].setting_bp as u32;
            }
            i = i + 1;
        }
        10_000
    }

    /// Whether any floodgate controls the edge between the two cells.
    pub fn controls_surface_edge(&self, source: CellPos, destination: CellPos) -> (b: bool)
        requires
            small_pos(source),
            small_pos(destination),
        ensures
            b == exists|i: int| 0 <= i < self.devices@.len() && gate_controls(
                #[trigger] self.devices@[i],
                source,
                destination,
            ),
    {
        let mut i: usize = 0;
        while i < self.devices.len()
            invariant
                i <= self.devices@.len(),
                small_pos(source),
                small_pos(destination),
                forall|j: int| 0 <= j < i ==> !gate_controls(#[trigger] self.devices@[j], source, destination),
            decreases self.devices@.len() - i,
        {
            if floodgate_controls_edge(&self.devices[i], source, destination) {
                return true;
            }
            i = i + 1;
        }
        false
    }

    /// Set the first device of an allowed kind at `anchor` to `setting_bp`,
    /// capped at 10000; false when there is none.
    fn set_selected_flow_for(&mut self, anchor: CellPos, setting_bp: u16, allowed: &[DeviceId]) -> (found: bool)
        ensures
            found == exists|i: int| first_flow_device(old(self).devices@, anchor, allowed@, i),
            forall|i: int| first_flow_device(old(self).devices@, anchor, allowed@, i) ==> final(self).devices@
                == old(self).devices@.update(
                i,
                DeviceState {
                    setting_bp: if setting_bp <= 10_000 { setting_bp } else { 10_000 },
                    ..old(self).devices@[i]
                },
            ),
            !found ==> final(self).devices == old(self).devices,
            final(self).queued == old(self).queued,
            final(self).next_entity_id == old(self).next_entity_id,
            final(self).next_plan_id == old(self).next_plan_id,
    {
        let mut i: usize = 0;
        while i < self.devices.len()
            invariant
                i <= self.devices@.len(),
                *self == *old(self),
                forall|j: int| 0 <= j < i ==> !(allowed@.contains(#[trigger] self.devices@[j].device)
                    && self.devices@[j].anchor == anchor),
            decreases self.devices@.len() - i,
        {
            let kind = self.devices[i].device;
            let mut allowed_kind = false;
            let mut k: usize = 0;
            while k < allowed.len()
                invariant
                    k <= allowed@.len(),
                    allowed_kind == exists|m: int| 0 <= m < k && allowed@[m] == kind,
                decreases allowed@.len() - k,
            {
                if allowed[k] == kind {
                    allowed_kind = true;
                }
                k = k + 1;
            }
            if allowed_kind && self.devices[i].anchor == anchor {
                proof {
                    assert(first_flow_device(self.devices@, anchor, allowed@, i as int));
                    assert forall|m: int| first_flow_device(self.devices@, anchor, allowed@, m) implies m == i by {
                        if m > i {
                            assert(allowed@.contains(self.devices@[i as int].device));
                        }
                    }
                }
                let capped = if setting_bp <= 10_000 { setting_bp } else { 10_000 };
                let device = self.devices[i];
                self.devices.set(i, DeviceState { setting_bp: capped, ..device });
                return true;
            }
            i = i + 1;
        }
        proof {
            assert forall|m: int| !first_flow_device(old(self).devices@, anchor, allowed@, m) by {}
        }
        false
    }

    /// Set the floodgate anchored at `anchor` to `setting_bp` (capped at 10000).
    pub fn set_selected_gate(&mut self, anchor: CellPos, setting_bp: u16) -> (found: bool)
        ensures
            gate_devices_set(*old(self), *final(self), anchor, setting_bp, found),
    {
        let allowed = [DeviceId::Floodgate];
        proof {
            assert(allowed@ =~= seq![DeviceId::Floodgate]);
        }
        self.set_selected_flow_for(anchor, setting_bp, &allowed)
    }

    /// Set the floodgate, pump or reservoir anchored at `anchor` to `setting_bp`
    /// (capped at 10000).
    pub fn set_selected_flow(&mut self, anchor: CellPos, setting_bp: u16) -> (found: bool)
        ensures
            flow_set(*old(self), *final(self), anchor, setting_bp, found),
    {
        let allowed = [DeviceId::Floodgate, DeviceId::Pump, DeviceId::Reservoir];
        proof {
            assert(allowed@ =~= seq![DeviceId::Floodgate, DeviceId::Pump, DeviceId::Reservoir]);
        }
        self.set_selected_flow_for(anchor, setting_bp, &allowed)
    }

    /// Enable or disable the device with `entity_id`; a disabled device is
    /// unpowered and inactive. False when no device has the identifier.
    pub fn set_enabled(&mut self, entity_id: u32, enabled: bool) -> (found: bool)
        ensures
            enabled_set(*old(self), *final(self), entity_id, enabled, found),
    {
        let mut i: usize = 0;
        while i < self.devices.len()
            invariant
                i <= self.devices@.len(),
                *self == *old(self),
                forall|j: int| 0 <= j < i ==> (#[trigger] self.devices@[j]).entity_id != entity_id,
            decreases self.devices@.len() - i,
        {
            if self.devices[i].entity_id == entity_id {
                let device = self.devices[i];
                let updated = if enabled {
                    DeviceState { enabled: true, ..device }
                } else {
                    DeviceState { enabled: false, powered: false, active: false, ..device }
                };
                self.devices.set(i, updated);
                return true;
            }
            i = i + 1;
        }
        false
    }
}

} // verus!
