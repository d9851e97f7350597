//! Where devices may stand: footprints, occupancy and the placement rules.

use vstd::prelude::*;

use super::{DeviceError, DeviceId, DeviceState, DeviceSystem, QueuedPlan};
use crate::economy::FabricationState;
use crate::simulation::SimulationWorld;
use crate::state::{lemma_grid_index_bound, CellPos};

verus! {

/// `device` anchored at `anchor` covers the cell at (x, y).
pub open spec fn covers(device: DeviceId, anchor: CellPos, x: int, y: int) -> bool {
    &&& anchor.x <= x < anchor.x + device.footprint_spec().0
    &&& anchor.y <= y < anchor.y + device.footprint_spec().1
}

/// A placed device or a queued plan covers `pos`.
pub open spec fn occupied(devices: Seq<DeviceState>, queued: Seq<QueuedPlan>, pos: CellPos) -> bool {
    ||| exists|i: int|
        0 <= i < devices.len() && covers((#[trigger] devices[i]).device, devices[i].anchor, pos.x as int, pos.y as int)
    ||| exists|j: int|
        0 <= j < queued.len() && covers((#[trigger] queued[j]).device, queued[j].anchor, pos.x as int, pos.y as int)
}

/// Why the cell `pos` cannot take part of a device, if it cannot: it is off the
/// grid, protected, or covered already.
pub open spec fn cell_error(
    world: SimulationWorld,
    devices: Seq<DeviceState>,
    queued: Seq<QueuedPlan>,
    pos: CellPos,
) -> Option<DeviceError> {
    match world.index_of(pos) {
        None => Some(DeviceError::OutOfBounds),
        Some(i) => if world.definitions@[i as int].protected {
            Some(DeviceError::Protected)
        } else if occupied(devices, queued, pos) {
            Some(DeviceError::Occupied)
        } else {
            None
        },
    }
}

/// Cell `k` of a footprint in scan order: along the first row, then the next.
pub open spec fn footprint_cell_at(device: DeviceId, anchor: CellPos, k: int) -> CellPos {
    let w = device.footprint_spec().0 as int;
    CellPos { x: (anchor.x + k % w) as u16, y: (anchor.y + k / w) as u16 }
}

/// Number of cells in a footprint.
pub open spec fn footprint_size(device: DeviceId) -> int {
    device.footprint_spec().0 * device.footprint_spec().1
}

/// The first error among footprint cells `k..`, in scan order.
pub open spec fn first_cell_error(
    world: SimulationWorld,
    devices: Seq<DeviceState>,
    queued: Seq<QueuedPlan>,
    device: DeviceId,
    anchor: CellPos,
    k: int,
) -> Option<DeviceError>
    decreases footprint_size(device) - k,
{
    if k < 0 || k >= footprint_size(device) {
        None
    } else {
        match cell_error(world, devices, queued, footprint_cell_at(device, anchor, k)) {
            Some(e) => Some(e),
            None => first_cell_error(world, devices, queued, device, anchor, k + 1),
        }
    }
}

/// Why `device` cannot be placed at `anchor` with `rotation`, if it cannot: a
/// rotation above 3, else the first refused footprint cell.
pub open spec fn placement_error(
    world: SimulationWorld,
    devices: Seq<DeviceState>,
    queued: Seq<QueuedPlan>,
    device: DeviceId,
    anchor: CellPos,
    rotation: u8,
) -> Option<DeviceError> {
    if rotation > 3 {
        Some(DeviceError::InvalidRotation)
    } else {
        first_cell_error(world, devices, queued, device, anchor, 0)
    }
}

/// Whether `device` anchored at `anchor` covers `pos`.
pub fn footprint_contains(device: DeviceId, anchor: CellPos, pos: CellPos) -> (r: bool)
    ensures
        r == covers(device, anchor, pos.x as int, pos.y as int),
{
    let (width, height) = device.footprint();
    pos.x >= anchor.x && pos.y >= anchor.y && (pos.x as u32) < anchor.x as u32 + width as u32 && (pos.y as u32)
        < anchor.y as u32 + height as u32
}

/// Whether a placed device or a queued plan covers `pos`.
fn is_occupied(devices: &[DeviceState], queued: &[QueuedPlan], pos: CellPos) -> (r: bool)
    ensures
        r == occupied(devices@, queued@, pos),
{
    let mut i: usize = 0;
    while i < devices.len()
        invariant
            i <= devices@.len(),
            forall|m: int| 0 <= m < i ==> !covers((#[trigger] devices@[m]).device, devices@[m].anchor, pos.x as int, pos.y as int),
        decreases devices@.len() - i,
    {
        if footprint_contains(devices[i].device, devices[i].anchor, pos) {
            return true;
        }
        i = i + 1;
    }
    let mut j: usize = 0;
    while j < queued.len()
        invariant
            j <= queued@.len(),
            forall|m: int| 0 <= m < j ==> !covers((#[trigger] queued@[m]).device, queued@[m].anchor, pos.x as int, pos.y as int),
        decreases queued@.len() - j,
    {
        if footprint_contains(queued[j].device, queued[j].anchor, pos) {
            return true;
        }
        j = j + 1;
    }
    false
}

/// Why the cell `pos` cannot take part of a device, if it cannot.
fn check_cell(world: &SimulationWorld, devices: &[DeviceState], queued: &[QueuedPlan], pos: CellPos) -> (r: Option<DeviceError>)
    requires
        world.wf(),
    ensures
        r == cell_error(*world, devices@, queued@, pos),
{
    let index = match world.index(pos) {
        Some(i) => i,
        None => return Some(DeviceError::OutOfBounds),
    };
    proof {
        lemma_grid_index_bound(world.width, world.height, pos);
    }
    if world.definitions[index].protected {
        return Some(DeviceError::Protected);
    }
    if is_occupied(devices, queued, pos) {
        Some(DeviceError::Occupied)
    } else {
        None
    }
}

/// Check a placement: the rotation, then each footprint cell in scan order (on the
/// grid, not protected, not covered by a placed device or a queued plan).
pub fn validate_placement(
    world: &SimulationWorld,
    devices: &[DeviceState],
    queued: &[QueuedPlan],
    device: DeviceId,
    anchor: CellPos,
    rotation: u8,
) -> (result: Result<(), DeviceError>)
    requires
        world.wf(),
    ensures
        result == match placement_error(*world, devices@, queued@, device, anchor, rotation) {
            Some(e) => Err::<(), DeviceError>(e),
            None => Ok(()),
        },
{
    if rotation > 3 {
        return Err(DeviceError::InvalidRotation);
    }
    let (width, height) = device.footprint();
    proof {
        assert(1 <= width <= 2 && 1 <= height <= 2);
    }
    proof {
        assert(width * height <= 4) by (nonlinear_arith)
            requires
                width <= 2,
                height <= 2,
        ;
    }
    let size: usize = width as usize * height as usize;
    let mut k: usize = 0;
    while k < size
        invariant
            world.wf(),
            rotation <= 3,
            k <= size,
            size == footprint_size(device),
            size == width * height,
            width == device.footprint_spec().0,
            1 <= width <= 2,
            1 <= height <= 2,
            k > 0 ==> world.index_of(anchor) is Some,
            first_cell_error(*world, devices@, queued@, device, anchor, 0) == first_cell_error(
                *world,
                devices@,
                queued@,
                device,
                anchor,
                k as int,
            ),
        decreases size - k,
    {
        proof {
            if k > 0 {
                lemma_grid_index_bound(world.width, world.height, anchor);
            }
        }
        let dx: u16 = (k % width as usize) as u16;
        let dy: u16 = (k / width as usize) as u16;
        proof {
            assert(k == 0 ==> dx == 0 && dy == 0) by (nonlinear_arith)
                requires dx == k % (width as usize), dy == k / (width as usize), 1 <= width;
            assert(dx < 2 && dy < 2) by (nonlinear_arith)
                requires dx == k % (width as usize), dy == k / (width as usize), 1 <= width <= 2, k < width * height, height <= 2;
        }
        let pos = CellPos { x: anchor.x + dx, y: anchor.y + dy };
        proof {
            assert(pos == footprint_cell_at(device, anchor, k as int));
        }
        match check_cell(world, devices, queued, pos) {
            Some(e) => {
                proof {
                    assert(first_cell_error(*world, devices@, queued@, device, anchor, k as int) == Some(e));
                }
                return Err(e);
            },
            None => {},
        }
        proof {
            if k == 0 {
                assert(pos == anchor);
            }
        }
        k = k + 1;
    }
    Ok(())
}

/// A freshly built device: full health, powered, fully open, empty, enabled.
pub open spec fn built_device(entity_id: u32, device: DeviceId, anchor: CellPos, rotation: u8, authored: bool) -> DeviceState {
    DeviceState {
        entity_id,
        device,
        anchor,
        rotation,
        health_bp: 10_000,
        powered: true,
        setting_bp: 10_000,
        stored_vu: 0,
        stored_fluid: None,
        power_generated: 0,
        cumulative_power: 0,
        active: false,
        enabled: true,
        operated_ticks: 0,
        authored,
    }
}

/// The device a committed plan becomes.
pub open spec fn player_device(entity_id: u32, plan: QueuedPlan) -> DeviceState {
    built_device(entity_id, plan.device, plan.anchor, plan.rotation, false)
}

/// Some cell of `first`'s footprint lies in `second`'s footprint.
pub open spec fn footprints_overlap_spec(first: DeviceId, first_anchor: CellPos, second: DeviceId, second_anchor: CellPos) -> bool {
    exists|dx: int, dy: int|
        0 <= dx < first.footprint_spec().0 && 0 <= dy < first.footprint_spec().1 && #[trigger] covers(
            second,
            second_anchor,
            first_anchor.x + dx,
            first_anchor.y + dy,
        )
}

/// Why a queued plan cannot be committed beside the placed devices, if it cannot.
pub open spec fn plan_error(world: SimulationWorld, devices: Seq<DeviceState>, plan: QueuedPlan) -> Option<DeviceError> {
    match placement_error(world, devices, seq![], plan.device, plan.anchor, plan.rotation) {
        Some(e) => Some(e),
        None => if exists|i: int|
            0 <= i < devices.len() && #[trigger] footprints_overlap_spec(
                devices[i].device,
                devices[i].anchor,
                plan.device,
                plan.anchor,
            ) {
            Some(DeviceError::Occupied)
        } else {
            None
        },
    }
}

/// The first plan error in list order.
pub open spec fn commit_error(world: SimulationWorld, devices: Seq<DeviceState>, plans: Seq<QueuedPlan>, k: int) -> Option<DeviceError>
    decreases plans.len() - k,
{
    if k < 0 || k >= plans.len() {
        None
    } else {
        match plan_error(world, devices, plans[k]) {
            Some(e) => Some(e),
            None => commit_error(world, devices, plans, k + 1),
        }
    }
}

/// Placement checks read the world's grid alone: its size and cell definitions.
pub proof fn lemma_first_cell_error_frame(
    a: SimulationWorld,
    b: SimulationWorld,
    devices: Seq<DeviceState>,
    queued: Seq<QueuedPlan>,
    device: DeviceId,
    anchor: CellPos,
    k: int,
)
    requires
        a.width == b.width,
        a.height == b.height,
        a.definitions == b.definitions,
    ensures
        first_cell_error(a, devices, queued, device, anchor, k) == first_cell_error(b, devices, queued, device, anchor, k),
    decreases footprint_size(device) - k,
{
    if 0 <= k < footprint_size(device) {
        lemma_first_cell_error_frame(a, b, devices, queued, device, anchor, k + 1);
    }
}

/// Commit checks read the world's grid alone: its size and cell definitions.
pub proof fn lemma_commit_error_frame(a: SimulationWorld, b: SimulationWorld, devices: Seq<DeviceState>, plans: Seq<QueuedPlan>, k: int)
    requires
        a.width == b.width,
        a.height == b.height,
        a.definitions == b.definitions,
    ensures
        commit_error(a, devices, plans, k) == commit_error(b, devices, plans, k),
    decreases plans.len() - k,
{
    if 0 <= k < plans.len() {
        lemma_first_cell_error_frame(a, b, devices, seq![], plans[k].device, plans[k].anchor, 0);
        lemma_commit_error_frame(a, b, devices, plans, k + 1);
    }
}

/// Total reserved cost of the plans.
pub open spec fn plans_cost(plans: Seq<QueuedPlan>) -> int
    decreases plans.len(),
{
    if plans.len() == 0 {
        0
    } else {
        plans_cost(plans.drop_last()) + plans.last().cost
    }
}

/// The devices a commit adds: one per plan, numbered from `first_id`.
pub open spec fn committed_devices(plans: Seq<QueuedPlan>, first_id: int) -> Seq<DeviceState> {
    Seq::new(plans.len(), |k: int| player_device((first_id + k) as u32, plans[k]))
}

/// The first device carrying `entity_id` is at `i`.
pub open spec fn first_with_id(devices: Seq<DeviceState>, entity_id: u32, i: int) -> bool {
    &&& 0 <= i < devices.len()
    &&& devices[i].entity_id == entity_id
    &&& forall|j: int| 0 <= j < i ==> (#[trigger] devices[j]).entity_id != entity_id
}

/// What removing a device gives back: nothing for authored fixtures, the full cost
/// for a device that never operated, three quarters of it otherwise.
pub open spec fn removal_refund(device: DeviceState) -> u32 {
    if device.authored {
        0
    } else if device.operated_ticks == 0 {
        device.device.cost_spec()
    } else {
        (device.device.cost_spec() * 3 / 4) as u32
    }
}

/// A committed plan's device.
fn new_player_device(entity_id: u32, plan: &QueuedPlan) -> (d: DeviceState)
    ensures
        d == player_device(entity_id, *plan),
{
    DeviceState {
        entity_id,
        device: plan.device,
        anchor: plan.anchor,
        rotation: plan.rotation,
        health_bp: 10_000,
        powered: true,
        setting_bp: 10_000,
        stored_vu: 0,
        stored_fluid: None,
        power_generated: 0,
        cumulative_power: 0,
        active: false,
        enabled: true,
        operated_ticks: 0,
        authored: false,
    }
}

/// Whether some cell of `first`'s footprint lies in `second`'s footprint.
pub fn footprints_overlap(first: DeviceId, first_anchor: CellPos, second: DeviceId, second_anchor: CellPos) -> (r: bool)
    requires
        first_anchor.x < 32767,
        first_anchor.y < 32767,
    ensures
        r == footprints_overlap_spec(first, first_anchor, second, second_anchor),
{
    let (width, height) = first.footprint();
    let mut dy: u16 = 0;
    while dy < height
        invariant
            dy <= height,
            width == first.footprint_spec().0,
            height == first.footprint_spec().1,
            height <= 2,
            width <= 2,
            first_anchor.x < 32767,
            first_anchor.y < 32767,
            forall|x: int, y: int| 0 <= x < width && 0 <= y < dy ==> !#[trigger] covers(
                second,
                second_anchor,
                first_anchor.x + x,
                first_anchor.y + y,
            ),
        decreases height - dy,
    {
        let mut dx: u16 = 0;
        while dx < width
            invariant
                dx <= width,
                dy < height,
                width == first.footprint_spec().0,
                height == first.footprint_spec().1,
                height <= 2,
                width <= 2,
                first_anchor.x < 32767,
                first_anchor.y < 32767,
                forall|x: int, y: int| 0 <= x < width && 0 <= y < dy ==> !#[trigger] covers(
                    second,
                    second_anchor,
                    first_anchor.x + x,
                    first_anchor.y + y,
                ),
                forall|x: int| 0 <= x < dx ==> !#[trigger] covers(second, second_anchor, first_anchor.x + x, first_anchor.y + dy),
            decreases width - dx,
        {
            let pos = CellPos { x: first_anchor.x + dx, y: first_anchor.y + dy };
            if footprint_contains(second, second_anchor, pos) {
                proof {
                    assert(covers(second, second_anchor, first_anchor.x + dx, first_anchor.y + dy));
                }
                return true;
            }
            dx = dx + 1;
        }
        dy = dy + 1;
    }
    proof {
        assert forall|x: int, y: int| 0 <= x < width && 0 <= y < height implies !#[trigger] covers(
            second,
            second_anchor,
            first_anchor.x + x,
            first_anchor.y + y,
        ) by {}
    }
    false
}

impl DeviceSystem {
    /// Install map-authored infrastructure without charging player fabrication.
    /// Fixtures still occupy their footprint and run through the same device
    /// simulation as player-built equipment.
    pub fn install_fixture(&mut self, world: &SimulationWorld, device: DeviceId, anchor: CellPos, rotation: u8) -> (result: Result<u32, DeviceError>)
        requires
            world.wf(),
            placement_error(*world, old(self).devices@, seq![], device, anchor, rotation) is None
                ==> old(self).next_entity_id < u32::MAX,
        ensures
            match placement_error(*world, old(self).devices@, seq![], device, anchor, rotation) {
                Some(e) => result == Err::<u32, DeviceError>(e) && *final(self) == *old(self),
                None => {
                    &&& result == Ok::<u32, DeviceError>(old(self).next_entity_id)
                    &&& final(self).devices@ == old(self).devices@.push(
                        built_device(old(self).next_entity_id, device, anchor, rotation, true),
                    )
                    &&& final(self).next_entity_id == old(self).next_entity_id + 1
                    &&& final(self).next_plan_id == old(self).next_plan_id
                    &&& final(self).queued == old(self).queued
                },
            },
            old(self).wf() && old(self).devices@.len() < crate::simulation::ENTITY_LIMIT ==> final(self).wf(),
    {
        let empty: Vec<QueuedPlan> = Vec::new();
        match validate_placement(world, self.devices.as_slice(), empty.as_slice(), device, anchor, rotation) {
            Err(e) => {
                return Err(e);
            },
            Ok(()) => {},
        }
        proof {
            assert(empty@ == Seq::<QueuedPlan>::empty());
            lemma_placed_anchor_on_grid(*world, self.devices@, device, anchor, rotation);
        }
        let entity_id = self.next_entity_id;
        self.next_entity_id = self.next_entity_id + 1;
        self.devices.push(DeviceState {
            entity_id,
            device,
            anchor,
            rotation,
            health_bp: 10_000,
            powered: true,
            setting_bp: 10_000,
            stored_vu: 0,
            stored_fluid: None,
            power_generated: 0,
            cumulative_power: 0,
            active: false,
            enabled: true,
            operated_ticks: 0,
            authored: true,
        });
        Ok(entity_id)
    }
}

/// An accepted placement's anchor lies on the grid.
proof fn lemma_placed_anchor_on_grid(world: SimulationWorld, devices: Seq<DeviceState>, device: DeviceId, anchor: CellPos, rotation: u8)
    requires
        world.wf(),
        placement_error(world, devices, seq![], device, anchor, rotation) is None,
    ensures
        anchor.x < world.width <= 32767,
        anchor.y < world.height <= 32767,
        rotation <= 3,
{
    let w = device.footprint_spec().0 as int;
    assert(footprint_cell_at(device, anchor, 0) == anchor);
}

/// The devices `d1` and stock `f1` after queueing a plan for `device` at `anchor` on `world` gave `result` (see `DeviceSystem::queue`).
pub open spec fn plan_queued(world: SimulationWorld, d0: DeviceSystem, d1: DeviceSystem, f0: FabricationState, f1: FabricationState, device: DeviceId, anchor: CellPos, rotation: u8, result: Result<u32, DeviceError>) -> bool {
    &&& match placement_error(world, d0.devices@, d0.queued@, device, anchor, rotation) {
        Some(e) => result == Err::<u32, DeviceError>(e) && d1 == d0 && f1
            == f0,
        None => if device.cost_spec() > f0.available_fu {
            &&& result == Err::<u32, DeviceError>(DeviceError::InsufficientFabrication)
            &&& d1 == d0
            &&& f1 == f0
        } else {
            &&& result == Ok::<u32, DeviceError>(d0.next_plan_id)
            &&& d1.queued@ == d0.queued@.push(
                QueuedPlan { plan_id: d0.next_plan_id, device, anchor, rotation, cost: device.cost_spec() },
            )
            &&& d1.next_plan_id == d0.next_plan_id + 1
            &&& d1.next_entity_id == d0.next_entity_id
            &&& d1.devices == d0.devices
            &&& f1.available_fu == f0.available_fu - device.cost_spec()
            &&& f1.reserved_fu == f0.reserved_fu + device.cost_spec()
            &&& f1.spent_fu == f0.spent_fu
            &&& f1.same_sources(f0)
        },
    }
    &&& f1.balance() == f0.balance()
}

/// The devices `d1` and stock `f1` after cancelling the last plan (see `DeviceSystem::cancel_last_plan`).
pub open spec fn plan_cancelled(d0: DeviceSystem, d1: DeviceSystem, f0: FabricationState, f1: FabricationState, cancelled: bool) -> bool {
    &&& cancelled == (d0.queued@.len() > 0)
    &&& cancelled ==> {
        let cost = d0.queued@.last().cost;
        let released = crate::simulation::min_int(cost as int, f0.reserved_fu as int);
        &&& d1.queued@ == d0.queued@.drop_last()
        &&& f1.reserved_fu == f0.reserved_fu - released
        &&& f1.available_fu == f0.available_fu + released
        &&& f1.spent_fu == f0.spent_fu
        &&& f1.same_sources(f0)
    }
    &&& !cancelled ==> d1 == d0 && f1 == f0
    &&& d1.devices == d0.devices
    &&& d1.next_entity_id == d0.next_entity_id
    &&& d1.next_plan_id == d0.next_plan_id
    &&& f1.balance() == f0.balance()
}

impl DeviceSystem {
    /// Build a device at once, paying its cost from available fabrication. The
    /// rotation is checked first, then the footprint, then the stock.
    pub fn place(
        &mut self,
        world: &SimulationWorld,
        device: DeviceId,
        anchor: CellPos,
        rotation: u8,
        fabrication: &mut FabricationState,
    ) -> (result: Result<u32, DeviceError>)
        requires
            world.wf(),
            placement_error(*world, old(self).devices@, seq![], device, anchor, rotation) is None
                && device.cost_spec() <= old(fabrication).available_fu ==> {
                &&& old(self).next_entity_id < u32::MAX
                &&& old(fabrication).spent_fu + device.cost_spec() <= u32::MAX
            },
        ensures
            match placement_error(*world, old(self).devices@, seq![], device, anchor, rotation) {
                Some(e) => result == Err::<u32, DeviceError>(e) && *final(self) == *old(self) && *final(fabrication)
                    == *old(fabrication),
                None => if device.cost_spec() > old(fabrication).available_fu {
                    &&& result == Err::<u32, DeviceError>(DeviceError::InsufficientFabrication)
                    &&& *final(self) == *old(self)
                    &&& *final(fabrication) == *old(fabrication)
                } else {
                    &&& result == Ok::<u32, DeviceError>(old(self).next_entity_id)
                    &&& final(self).devices@ == old(self).devices@.push(
                        built_device(old(self).next_entity_id, device, anchor, rotation, false),
                    )
                    &&& final(self).next_entity_id == old(self).next_entity_id + 1
                    &&& final(self).next_plan_id == old(self).next_plan_id
                    &&& final(self).queued == old(self).queued
                    &&& final(fabrication).available_fu == old(fabrication).available_fu - device.cost_spec()
                    &&& final(fabrication).spent_fu == old(fabrication).spent_fu + device.cost_spec()
                    &&& final(fabrication).reserved_fu == old(fabrication).reserved_fu
                    &&& final(fabrication).same_sources(*old(fabrication))
                },
            },
            final(fabrication).balance() == old(fabrication).balance(),
            old(self).wf() && old(self).devices@.len() < crate::simulation::ENTITY_LIMIT ==> final(self).wf(),
    {
        if rotation > 3 {
            return Err(DeviceError::InvalidRotation);
        }
        let empty: Vec<QueuedPlan> = Vec::new();
        match validate_placement(world, self.devices.as_slice(), empty.as_slice(), device, anchor, rotation) {
            Err(e) => {
                return Err(e);
            },
            Ok(()) => {},
        }
        proof {
            assert(empty@ == Seq::<QueuedPlan>::empty());
            lemma_placed_anchor_on_grid(*world, self.devices@, device, anchor, rotation);
        }
        match fabrication.spend_immediately(device.cost()) {
            Err(_) => {
                return Err(DeviceError::InsufficientFabrication);
            },
            Ok(()) => {},
        }
        let entity_id = self.next_entity_id;
        self.next_entity_id = self.next_entity_id + 1;
        self.devices.push(DeviceState {
            entity_id,
            device,
            anchor,
            rotation,
            health_bp: 10_000,
            powered: true,
            setting_bp: 10_000,
            stored_vu: 0,
            stored_fluid: None,
            power_generated: 0,
            cumulative_power: 0,
            active: false,
            enabled: true,
            operated_ticks: 0,
            authored: false,
        });
        Ok(entity_id)
    }

    /// Queue a build plan, reserving its cost. The footprint must also stay clear
    /// of earlier plans.
    pub fn queue(
        &mut self,
        world: &SimulationWorld,
        device: DeviceId,
        anchor: CellPos,
        rotation: u8,
        fabrication: &mut FabricationState,
    ) -> (result: Result<u32, DeviceError>)
        requires
            world.wf(),
            placement_error(*world, old(self).devices@, old(self).queued@, device, anchor, rotation) is None
                && device.cost_spec() <= old(fabrication).available_fu ==> {
                &&& old(self).next_plan_id < u32::MAX
                &&& old(fabrication).reserved_fu + device.cost_spec() <= u32::MAX
            },
        ensures
            old(self).wf() ==> final(self).wf(),
            plan_queued(*world, *old(self), *final(self), *old(fabrication), *final(fabrication), device, anchor, rotation, result),
    {
        match validate_placement(world, self.devices.as_slice(), self.queued.as_slice(), device, anchor, rotation) {
            Err(e) => {
                return Err(e);
            },
            Ok(()) => {},
        }
        let cost = device.cost();
        match fabrication.reserve(cost) {
            Err(_) => {
                return Err(DeviceError::InsufficientFabrication);
            },
            Ok(()) => {},
        }
        let plan_id = self.next_plan_id;
        self.next_plan_id = self.next_plan_id + 1;
        self.queued.push(QueuedPlan { plan_id, device, anchor, rotation, cost });
        Ok(plan_id)
    }

    /// Drop the last queued plan and release its reservation.
    pub fn cancel_last_plan(&mut self, fabrication: &mut FabricationState) -> (cancelled: bool)
        requires
            old(self).queued@.len() > 0 ==> old(fabrication).available_fu + crate::simulation::min_int(
                old(self).queued@.last().cost as int,
                old(fabrication).reserved_fu as int,
            ) <= u32::MAX,
        ensures
            old(self).wf() ==> final(self).wf(),
            plan_cancelled(*old(self), *final(self), *old(fabrication), *final(fabrication), cancelled),
    {
        if self.queued.len() == 0 {
            return false;
        }
        match self.queued.pop() {
            Some(plan) => {
                fabrication.release_reservation(plan.cost);
                true
            },
            None => false,
        }
    }
}

/// No plan from `k` on has an error when the scan from `k` finds none.
proof fn lemma_commit_error_none(world: SimulationWorld, devices: Seq<DeviceState>, plans: Seq<QueuedPlan>, k: int)
    requires
        0 <= k,
        commit_error(world, devices, plans, k) is None,
    ensures
        forall|j: int| k <= j < plans.len() ==> plan_error(world, devices, #[trigger] plans[j]) is None,
    decreases plans.len() - k,
{
    if k < plans.len() {
        lemma_commit_error_none(world, devices, plans, k + 1);
    }
}

/// The cost of a prefix plus the next plan is the cost of the longer prefix.
proof fn lemma_plans_cost_prefix(plans: Seq<QueuedPlan>, k: int)
    requires
        0 <= k < plans.len(),
    ensures
        plans_cost(plans.take(k + 1)) == plans_cost(plans.take(k)) + plans[k].cost,
        plans_cost(plans.take(k)) >= 0,
        plans_cost(plans.take(k)) <= plans_cost(plans),
{
    assert(plans.take(k + 1).drop_last() == plans.take(k));
    lemma_plans_cost_monotone(plans, k);
}

/// Plan costs never exceed the total of the whole list.
proof fn lemma_plans_cost_monotone(plans: Seq<QueuedPlan>, k: int)
    requires
        0 <= k <= plans.len(),
    ensures
        0 <= plans_cost(plans.take(k)) <= plans_cost(plans),
    decreases plans.len(),
{
    if k < plans.len() {
        assert(plans.drop_last().take(k) == plans.take(k));
        lemma_plans_cost_monotone(plans.drop_last(), k);
    } else {
        assert(plans.take(k) == plans);
        if plans.len() > 0 {
            lemma_plans_cost_monotone(plans.drop_last(), plans.len() - 1);
            assert(plans.drop_last().take(plans.len() - 1) == plans.drop_last());
        }
    }
}

/// The devices `d1` and stock `f1` after committing the queued plans on `world` gave `result` (see `DeviceSystem::commit_plan`).
pub open spec fn plans_committed(world: SimulationWorld, d0: DeviceSystem, d1: DeviceSystem, f0: FabricationState, f1: FabricationState, result: Result<Vec<u32>, DeviceError>) -> bool {
    &&& match commit_error(world, d0.devices@, d0.queued@, 0) {
        Some(e) => result == Err::<Vec<u32>, DeviceError>(e) && d1 == d0 && f1
            == f0,
        None => if plans_cost(d0.queued@) > f0.reserved_fu {
            &&& result == Err::<Vec<u32>, DeviceError>(DeviceError::InsufficientFabrication)
            &&& d1 == d0
            &&& f1 == f0
        } else {
            let n = d0.queued@.len();
            let first = d0.next_entity_id;
            &&& result matches Ok(ids) && ids@ == Seq::new(n, |k: int| (first + k) as u32)
            &&& d1.devices@ == d0.devices@ + committed_devices(d0.queued@, first as int)
            &&& d1.queued@.len() == 0
            &&& d1.next_entity_id == first + n
            &&& d1.next_plan_id == d0.next_plan_id
            &&& f1.reserved_fu == f0.reserved_fu - plans_cost(d0.queued@)
            &&& f1.spent_fu == f0.spent_fu + plans_cost(d0.queued@)
            &&& f1.available_fu == f0.available_fu
            &&& f1.same_sources(f0)
        },
    }
    &&& f1.balance() == f0.balance()
}

/// The devices `d1` and stock `f1` after removing the device `entity_id` (see `DeviceSystem::remove`).
pub open spec fn device_removed(d0: DeviceSystem, d1: DeviceSystem, f0: FabricationState, f1: FabricationState, entity_id: u32, removed: bool) -> bool {
    &&& removed == exists|i: int| 0 <= i < d0.devices@.len() && (#[trigger] d0.devices@[i]).entity_id == entity_id
    &&& forall|i: int| #[trigger] first_with_id(d0.devices@, entity_id, i) ==> {
        let refund = removal_refund(d0.devices@[i]);
        &&& d1.devices@ == d0.devices@.remove(i)
        &&& f1.available_fu == f0.available_fu + refund
        &&& f1.refunded_fu == f0.refunded_fu + refund
        &&& f1.reserved_fu == f0.reserved_fu
        &&& f1.spent_fu == f0.spent_fu
        &&& f1.authored_start_fu == f0.authored_start_fu
        &&& f1.recovered_fu == f0.recovered_fu
    }
    &&& !removed ==> d1 == d0 && f1 == f0
    &&& d1.next_entity_id == d0.next_entity_id
    &&& d1.next_plan_id == d0.next_plan_id
    &&& d1.queued == d0.queued
    &&& f1.balance() == f0.balance()
}

impl DeviceSystem {
    /// Build every queued plan at once. Each plan is checked against the placed
    /// devices, in order; the first refused plan refuses the whole commit and
    /// nothing changes. Otherwise the plans' total cost is spent from the
    /// reservation (an insufficient reservation also refuses the whole commit), the
    /// plans become devices with consecutive entity ids, and the queue empties.
    pub fn commit_plan(&mut self, world: &SimulationWorld, fabrication: &mut FabricationState) -> (result: Result<Vec<u32>, DeviceError>)
        requires
            world.wf(),
            old(self).wf(),
            plans_cost(old(self).queued@) <= u32::MAX,
            commit_error(*world, old(self).devices@, old(self).queued@, 0) is None && plans_cost(old(self).queued@)
                <= old(fabrication).reserved_fu ==> {
                &&& old(self).next_entity_id + old(self).queued@.len() <= u32::MAX
                &&& old(fabrication).spent_fu + plans_cost(old(self).queued@) <= u32::MAX
            },
        ensures
            old(self).devices@.len() + old(self).queued@.len() <= crate::simulation::ENTITY_LIMIT ==> final(self).wf(),
            plans_committed(*world, *old(self), *final(self), *old(fabrication), *final(fabrication), result),
    {
        let n = self.queued.len();
        let mut k: usize = 0;
        while k < n
            invariant
                world.wf(),
                old(self).wf(),
                *self == *old(self),
                n == self.queued@.len(),
                k <= n,
                commit_error(*world, self.devices@, self.queued@, 0) == commit_error(*world, self.devices@, self.queued@, k as int),
            decreases n - k,
        {
            let plan = self.queued[k];
            let empty: Vec<QueuedPlan> = Vec::new();
            proof {
                assert(empty@ == Seq::<QueuedPlan>::empty());
            }
            match validate_placement(world, self.devices.as_slice(), empty.as_slice(), plan.device, plan.anchor, plan.rotation) {
                Err(e) => {
                    proof {
                        assert(commit_error(*world, self.devices@, self.queued@, k as int) == Some(e));
                    }
                    return Err(e);
                },
                Ok(()) => {},
            }
            proof {
                lemma_placed_anchor_on_grid(*world, self.devices@, plan.device, plan.anchor, plan.rotation);
            }
            let mut i: usize = 0;
            while i < self.devices.len()
                invariant
                    i <= self.devices@.len(),
                    old(self).wf(),
                    *self == *old(self),
                    world.wf(),
                    k < n,
                    n == self.queued@.len(),
                    plan == self.queued@[k as int],
                    placement_error(*world, self.devices@, seq![], plan.device, plan.anchor, plan.rotation) is None,
                    commit_error(*world, self.devices@, self.queued@, 0) == commit_error(
                        *world,
                        self.devices@,
                        self.queued@,
                        k as int,
                    ),
                    plan.anchor.x < 32767,
                    plan.anchor.y < 32767,
                    forall|m: int| 0 <= m < i ==> !#[trigger] footprints_overlap_spec(
                        self.devices@[m].device,
                        self.devices@[m].anchor,
                        plan.device,
                        plan.anchor,
                    ),
                decreases self.devices@.len() - i,
            {
                let placed = self.devices[i];
                if footprints_overlap(placed.device, placed.anchor, plan.device, plan.anchor) {
                    proof {
                        assert(plan_error(*world, self.devices@, plan) == Some(DeviceError::Occupied));
                        assert(commit_error(*world, self.devices@, self.queued@, k as int) == Some(DeviceError::Occupied));
                    }
                    return Err(DeviceError::Occupied);
                }
                i = i + 1;
            }
            proof {
                assert(plan_error(*world, self.devices@, plan) is None);
            }
            k = k + 1;
        }
        proof {
            lemma_commit_error_none(*world, self.devices@, self.queued@, 0);
        }
        let mut total: u32 = 0;
        let mut k: usize = 0;
        while k < n
            invariant
                *self == *old(self),
                n == self.queued@.len(),
                k <= n,
                plans_cost(self.queued@) <= u32::MAX,
                total == plans_cost(self.queued@.take(k as int)),
            decreases n - k,
        {
            proof {
                lemma_plans_cost_prefix(self.queued@, k as int);
                lemma_plans_cost_monotone(self.queued@, k as int + 1);
            }
            total = total + self.queued[k].cost;
            k = k + 1;
        }
        proof {
            assert(self.queued@.take(n as int) == self.queued@);
        }
        match fabrication.spend_reservation(total) {
            Err(_) => {
                return Err(DeviceError::InsufficientFabrication);
            },
            Ok(()) => {},
        }
        let ghost first = self.next_entity_id;
        let ghost plans = self.queued@;
        let mut committed: Vec<u32> = Vec::new();
        let mut k: usize = 0;
        while k < n
            invariant
                k <= n,
                n == plans.len(),
                plans == old(self).queued@,
                self.queued@ == plans,
                first == old(self).next_entity_id,
                first + n <= u32::MAX,
                self.next_entity_id == first + k,
                self.next_plan_id == old(self).next_plan_id,
                self.devices@ == old(self).devices@ + committed_devices(plans.take(k as int), first as int),
                committed@ == Seq::new(k as nat, |j: int| (first + j) as u32),
                forall|j: int| 0 <= j < n ==> plan_error(*world, old(self).devices@, #[trigger] plans[j]) is None,
                world.wf(),
            decreases n - k,
        {
            let entity_id = self.next_entity_id;
            self.next_entity_id = self.next_entity_id + 1;
            let device = new_player_device(entity_id, &self.queued[k]);
            self.devices.push(device);
            committed.push(entity_id);
            proof {
                assert(committed_devices(plans.take(k as int + 1), first as int) == committed_devices(
                    plans.take(k as int),
                    first as int,
                ).push(device));
                assert(committed@ == Seq::new(k as nat + 1, |j: int| (first + j) as u32));
            }
            k = k + 1;
        }
        self.queued.clear();
        proof {
            assert(plans.take(n as int) == plans);
            if old(self).devices@.len() + old(self).queued@.len() <= crate::simulation::ENTITY_LIMIT {
                assert forall|i: int| 0 <= i < self.devices@.len() implies (#[trigger] self.devices@[i]).anchor.x < 32767
                    && self.devices@[i].anchor.y < 32767 && self.devices@[i].power_generated <= 4 by {
                    if i >= old(self).devices@.len() {
                        let j = i - old(self).devices@.len();
                        assert(plan_error(*world, old(self).devices@, plans[j]) is None);
                        lemma_placed_anchor_on_grid(*world, old(self).devices@, plans[j].device, plans[j].anchor, plans[j].rotation);
                    }
                }
            }
        }
        Ok(committed)
    }

    /// Remove the first device with `entity_id`. A player-built device refunds its
    /// full cost if it never operated and three quarters of it otherwise;
    /// authored fixtures refund nothing.
    pub fn remove(&mut self, entity_id: u32, fabrication: &mut FabricationState) -> (removed: bool)
        requires
            forall|i: int| #[trigger] first_with_id(old(self).devices@, entity_id, i) ==> {
                &&& old(fabrication).available_fu + removal_refund(old(self).devices@[i]) <= u32::MAX
                &&& old(fabrication).refunded_fu + removal_refund(old(self).devices@[i]) <= u32::MAX
            },
        ensures
            old(self).wf() ==> final(self).wf(),
            device_removed(*old(self), *final(self), *old(fabrication), *final(fabrication), entity_id, removed),
    {
        let mut index: usize = 0;
        while index < self.devices.len()
            invariant
                index <= self.devices@.len(),
                *self == *old(self),
                forall|j: int| 0 <= j < index ==> (#[trigger] self.devices@[j]).entity_id != entity_id,
            ensures
                index <= self.devices@.len(),
                *self == *old(self),
                forall|j: int| 0 <= j < index ==> (#[trigger] self.devices@[j]).entity_id != entity_id,
                index < self.devices@.len() ==> self.devices@[index as int].entity_id == entity_id,
            decreases self.devices@.len() - index,
        {
            if self.devices[index].entity_id == entity_id {
                break;
            }
            index = index + 1;
        }
        if index == self.devices.len() {
            return false;
        }
        proof {
            assert(first_with_id(old(self).devices@, entity_id, index as int));
            assert forall|i: int| #[trigger] first_with_id(old(self).devices@, entity_id, i) implies i == index by {
                if i < index {
                } else if i > index {
                    assert(old(self).devices@[index as int].entity_id == entity_id);
                }
            }
        }
        let device = self.devices.remove(index);
        if !device.authored {
            let refund = if device.operated_ticks == 0 {
                device.device.cost()
            } else {
                device.device.cost() * 3 / 4
            };
            fabrication.refund(refund);
        }
        true
    }
}

} // verus!
