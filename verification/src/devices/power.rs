//! Whole-device field power allocation in priority order.

use vstd::prelude::*;

use super::{DeviceId, DeviceState, DeviceSystem};
use crate::economy::{PowerClass, PowerLedger};

verus! {

/// Allocation class rank: a device without a class is served with the interface class.
pub open spec fn class_rank(d: DeviceState) -> int {
    match d.device.power_class_spec() {
        Some(c) => c.rank_spec() as int,
        None => PowerClass::Interface.rank_spec() as int,
    }
}

/// `a` is served before `b`: lower class rank, then lower entity id, then lower index.
pub open spec fn served_before(devices: Seq<DeviceState>, a: int, b: int) -> bool {
    let da = devices[a];
    let db = devices[b];
    ||| class_rank(da) < class_rank(db)
    ||| class_rank(da) == class_rank(db) && da.entity_id < db.entity_id
    ||| class_rank(da) == class_rank(db) && da.entity_id == db.entity_id && a < b
}

/// Enabled devices that draw power compete for the supply.
pub open spec fn competes(d: DeviceState) -> bool {
    d.enabled && d.device.power_demand_spec() > 0
}

/// `order` lists every competing device exactly once, in service order.
pub open spec fn priority_order(devices: Seq<DeviceState>, order: Seq<usize>) -> bool {
    &&& forall|k: int| 0 <= k < order.len() ==> (#[trigger] order[k]) < devices.len() && competes(devices[order[k] as int])
    &&& forall|i: int| 0 <= i < devices.len() && competes(#[trigger] devices[i]) ==> order.contains(i as usize)
    &&& forall|k: int, m: int| 0 <= k < m < order.len() ==> served_before(devices, #[trigger] order[k] as int, #[trigger] order[m] as int)
}

/// Supply left after serving the first `k` devices of `order`, each served whole
/// when what remains covers its demand.
pub open spec fn remaining_after(devices: Seq<DeviceState>, order: Seq<usize>, supply: int, k: int) -> int
    decreases k,
{
    if k <= 0 {
        supply
    } else {
        let before = remaining_after(devices, order, supply, k - 1);
        let demand = devices[order[k - 1] as int].device.power_demand_spec() as int;
        if before >= demand {
            before - demand
        } else {
            before
        }
    }
}

/// Devices that lose power they held, with their demand, in service order.
pub open spec fn brownouts_after(devices: Seq<DeviceState>, order: Seq<usize>, supply: int, k: int) -> Seq<(u32, u32)>
    decreases k,
{
    if k <= 0 {
        seq![]
    } else {
        let earlier = brownouts_after(devices, order, supply, k - 1);
        let d = devices[order[k - 1] as int];
        let demand = d.device.power_demand_spec();
        if remaining_after(devices, order, supply, k - 1) < demand && d.powered {
            earlier.push((d.entity_id, demand))
        } else {
            earlier
        }
    }
}

/// Total demand of competing devices.
pub open spec fn competing_demand(devices: Seq<DeviceState>) -> int
    decreases devices.len(),
{
    if devices.len() == 0 {
        0
    } else {
        competing_demand(devices.drop_last()) + if competes(devices.last()) {
            devices.last().device.power_demand_spec() as int
        } else {
            0
        }
    }
}

/// Generation reported by flow turbines on the previous tick.
pub open spec fn turbine_generation(devices: Seq<DeviceState>) -> int
    decreases devices.len(),
{
    if devices.len() == 0 {
        0
    } else {
        turbine_generation(devices.drop_last()) + if devices.last().device == DeviceId::FlowTurbine {
            devices.last().power_generated as int
        } else {
            0
        }
    }
}

/// The power flags that allocation leaves: served competing devices are powered,
/// unserved ones are not, devices without demand are always powered and disabled
/// devices keep their flag.
pub open spec fn powered_after(devices: Seq<DeviceState>, order: Seq<usize>, supply: int, i: int) -> bool {
    if competes(devices[i]) {
        let k = choose|k: int| 0 <= k < order.len() && order[k] == i;
        remaining_after(devices, order, supply, k) >= devices[i].device.power_demand_spec()
    } else if devices[i].device.power_demand_spec() == 0 {
        true
    } else {
        devices[i].powered
    }
}

/// `order` is sorted and lists distinct devices.
proof fn lemma_order_distinct(devices: Seq<DeviceState>, order: Seq<usize>, k: int, m: int)
    requires
        priority_order(devices, order),
        0 <= k < order.len(),
        0 <= m < order.len(),
        order[k] == order[m],
    ensures
        k == m,
{
    if k < m {
        assert(served_before(devices, order[k] as int, order[m] as int));
    } else if m < k {
        assert(served_before(devices, order[m] as int, order[k] as int));
    }
}

/// Sum of the per-device demands over a prefix is bounded by three per device.
proof fn lemma_competing_demand_bound(devices: Seq<DeviceState>)
    ensures
        0 <= competing_demand(devices) <= 3 * devices.len(),
        0 <= turbine_generation(devices),
    decreases devices.len(),
{
    if devices.len() > 0 {
        lemma_competing_demand_bound(devices.drop_last());
    }
}

impl DeviceSystem {
    /// Serve competing devices in priority order, each whole or not at all.
    ///
    /// Supply is the authored generation plus the turbine output measured on the
    /// previous tick. Safety devices are served first, then transport, process and
    /// interface devices, by entity id within a class. A device that cannot be
    /// covered by what remains is unpowered, and if it was powered it is reported as
    /// a brownout with its demand. Devices without demand are always powered. The
    /// ledger records allocated demand, curtailed (unallocated) supply and the
    /// deficit of total demand over supply.
    pub fn allocate_power(&mut self, ledger: &mut PowerLedger, authored_supply_eu: u32) -> (brownouts: Vec<(u32, u32)>)
        requires
            old(self).devices@.len() <= 16_777_216,
            authored_supply_eu + turbine_generation(old(self).devices@) <= u32::MAX,
        ensures
            final(self).devices@.len() == old(self).devices@.len(),
            final(self).queued == old(self).queued,
            final(self).next_entity_id == old(self).next_entity_id,
            final(self).next_plan_id == old(self).next_plan_id,
            exists|order: Seq<usize>| {
                let supply = authored_supply_eu + turbine_generation(old(self).devices@);
                &&& #[trigger] priority_order(old(self).devices@, order)
                &&& forall|i: int| 0 <= i < old(self).devices@.len() ==> #[trigger] final(self).devices@[i] == (DeviceState {
                    powered: powered_after(old(self).devices@, order, supply, i),
                    ..old(self).devices@[i]
                })
                &&& brownouts@ == brownouts_after(old(self).devices@, order, supply, order.len() as int)
                &&& final(ledger).curtailed_supply_eu == remaining_after(old(self).devices@, order, supply, order.len() as int)
                &&& final(ledger).allocated_demand_eu == supply - remaining_after(old(self).devices@, order, supply, order.len() as int)
            },
            final(ledger).authored_generation_eu == authored_supply_eu,
            final(ledger).turbine_generation_eu == turbine_generation(old(self).devices@),
            final(ledger).deficit_eu == crate::simulation::sat_sub(
                competing_demand(old(self).devices@),
                authored_supply_eu + turbine_generation(old(self).devices@),
            ),
    {
        let mut turbine_supply: u32 = 0;
        let mut i: usize = 0;
        while i < self.devices.len()
            invariant
                i <= self.devices@.len(),
                turbine_supply == turbine_generation(self.devices@.take(i as int)),
                authored_supply_eu + turbine_generation(self.devices@) <= u32::MAX,
                *self == *old(self),
            decreases self.devices@.len() - i,
        {
            proof {
                assert(self.devices@.take(i as int + 1).drop_last() =~= self.devices@.take(i as int));
                lemma_turbine_generation_prefix(self.devices@, i as int + 1);
                lemma_competing_demand_bound(self.devices@.take(i as int));
            }
            if self.devices[i].device == DeviceId::FlowTurbine {
                turbine_supply = turbine_supply + self.devices[i].power_generated;
            }
            i = i + 1;
        }
        proof {
            assert(self.devices@.take(i as int) =~= self.devices@);
        }
        ledger.reset(authored_supply_eu, turbine_supply);
        let supply = ledger.supply_eu();
        let order = self.priority_indices();
        let mut total_demand: u32 = 0;
        let mut i: usize = 0;
        while i < self.devices.len()
            invariant
                i <= self.devices@.len(),
                self.devices@.len() <= 16_777_216,
                total_demand == competing_demand(self.devices@.take(i as int)),
                *self == *old(self),
            decreases self.devices@.len() - i,
        {
            proof {
                assert(self.devices@.take(i as int + 1).drop_last() =~= self.devices@.take(i as int));
                lemma_competing_demand_bound(self.devices@.take(i as int));
            }
            let device = self.devices[i];
            if device.enabled && device.device.power_demand_eu() > 0 {
                total_demand = total_demand + device.device.power_demand_eu();
            }
            i = i + 1;
        }
        proof {
            assert(self.devices@.take(i as int) =~= self.devices@);
        }
        let ghost devices0 = self.devices@;
        let mut remaining = supply;
        let mut brownouts: Vec<(u32, u32)> = Vec::new();
        let mut k: usize = 0;
        while k < order.len()
            invariant
                k <= order@.len(),
                priority_order(devices0, order@),
                devices0 == old(self).devices@,
                self.devices@.len() == devices0.len(),
                self.queued == old(self).queued,
                self.next_entity_id == old(self).next_entity_id,
                self.next_plan_id == old(self).next_plan_id,
                remaining == remaining_after(devices0, order@, supply as int, k as int),
                0 <= remaining <= supply,
                ledger.allocated_demand_eu == supply - remaining,
                ledger.authored_generation_eu == authored_supply_eu,
                ledger.turbine_generation_eu == turbine_generation(devices0),
                brownouts@ == brownouts_after(devices0, order@, supply as int, k as int),
                forall|m: int| 0 <= m < k ==> #[trigger] self.devices@[order@[m] as int] == (DeviceState {
                    powered: remaining_after(devices0, order@, supply as int, m) >= devices0[order@[m] as int].device.power_demand_spec(),
                    ..devices0[order@[m] as int]
                }),
                forall|i: int| 0 <= i < devices0.len() && !(exists|m: int| 0 <= m < k && order@[m] == i)
                    ==> #[trigger] self.devices@[i] == devices0[i],
            decreases order@.len() - k,
        {
            let index = order[k];
            let device = self.devices[index];
            proof {
                assert(!(exists|m: int| 0 <= m < k && order@[m] == index)) by {
                    if exists|m: int| 0 <= m < k && order@[m] == index {
                        let m = choose|m: int| 0 <= m < k && order@[m] == index;
                        lemma_order_distinct(devices0, order@, m, k as int);
                    }
                }
                assert(device == devices0[index as int]);
            }
            let demand = device.device.power_demand_eu();
            let was_powered = device.powered;
            let powered = remaining >= demand;
            self.devices.set(index, DeviceState { powered, ..device });
            if powered {
                remaining = remaining - demand;
                ledger.allocated_demand_eu = ledger.allocated_demand_eu + demand;
            } else if was_powered {
                brownouts.push((device.entity_id, demand));
            }
            proof {
                assert forall|m: int| 0 <= m < k + 1 implies #[trigger] self.devices@[order@[m] as int] == (DeviceState {
                    powered: remaining_after(devices0, order@, supply as int, m) >= devices0[order@[m] as int].device.power_demand_spec(),
                    ..devices0[order@[m] as int]
                }) by {
                    if m < k {
                        if order@[m] == index {
                            lemma_order_distinct(devices0, order@, m, k as int);
                        }
                    }
                }
                assert forall|i: int| 0 <= i < devices0.len() && !(exists|m: int| 0 <= m < k + 1 && order@[m] == i)
                    implies #[trigger] self.devices@[i] == devices0[i] by {
                    assert(order@[k as int] != i);
                }
            }
            k = k + 1;
        }
        let ghost allocated = self.devices@;
        let mut i: usize = 0;
        while i < self.devices.len()
            invariant
                i <= self.devices@.len(),
                self.devices@.len() == devices0.len(),
                self.queued == old(self).queued,
                self.next_entity_id == old(self).next_entity_id,
                self.next_plan_id == old(self).next_plan_id,
                forall|j: int| 0 <= j < i ==> #[trigger] self.devices@[j] == if allocated[j].device.power_demand_spec() == 0 {
                    DeviceState { powered: true, ..allocated[j] }
                } else {
                    allocated[j]
                },
                forall|j: int| i <= j < self.devices@.len() ==> #[trigger] self.devices@[j] == allocated[j],
            decreases self.devices@.len() - i,
        {
            let device = self.devices[i];
            if device.device.power_demand_eu() == 0 {
                self.devices.set(i, DeviceState { powered: true, ..device });
            }
            i = i + 1;
        }
        ledger.curtailed_supply_eu = remaining;
        ledger.deficit_eu = total_demand.saturating_sub(supply);
        proof {
            let supply_i = supply as int;
            assert forall|i: int| 0 <= i < old(self).devices@.len() implies #[trigger] self.devices@[i] == (DeviceState {
                powered: powered_after(old(self).devices@, order@, supply_i, i),
                ..old(self).devices@[i]
            }) by {
                if competes(devices0[i]) {
                    assert(order@.contains(i as usize));
                    let m = choose|m: int| 0 <= m < order@.len() && order@[m] == i as usize;
                    let c = choose|c: int| 0 <= c < order@.len() && order@[c] == i;
                    lemma_order_distinct(devices0, order@, m, c);
                    assert(allocated[i] == self.devices@[order@[m] as int]) by {
                        assert(allocated[order@[m] as int] == (DeviceState {
                            powered: remaining_after(devices0, order@, supply_i, m) >= devices0[order@[m] as int].device.power_demand_spec(),
                            ..devices0[order@[m] as int]
                        }));
                    }
                } else {
                    assert(!(exists|m: int| 0 <= m < order@.len() && order@[m] == i));
                }
            }
        }
        brownouts
    }

    /// Indices of competing devices in service order.
    fn priority_indices(&self) -> (order: Vec<usize>)
        ensures
            priority_order(self.devices@, order@),
    {
        let mut order: Vec<usize> = Vec::new();
        let mut i: usize = 0;
        while i < self.devices.len()
            invariant
                i <= self.devices@.len(),
                forall|k: int| 0 <= k < order@.len() ==> (#[trigger] order@[k]) < i && competes(self.devices@[order@[k] as int]),
                forall|j: int| 0 <= j < i && competes(#[trigger] self.devices@[j]) ==> order@.contains(j as usize),
                forall|k: int, m: int| 0 <= k < m < order@.len() ==> served_before(self.devices@, #[trigger] order@[k] as int, #[trigger] order@[m] as int),
            decreases self.devices@.len() - i,
        {
            let device = self.devices[i];
            if device.enabled && device.device.power_demand_eu() > 0 {
                let rank = class_rank_of(&device);
                let mut p: usize = 0;
                while p < order.len() && served_no_later(&self.devices[order[p]], &device)
                    invariant
                        p <= order@.len(),
                        i < self.devices@.len(),
                        rank == class_rank(self.devices@[i as int]),
                        device == self.devices@[i as int],
                        forall|k: int| 0 <= k < order@.len() ==> (#[trigger] order@[k]) < i,
                        forall|k: int| 0 <= k < p ==> served_before(self.devices@, #[trigger] order@[k] as int, i as int),
                    decreases order@.len() - p,
                {
                    p = p + 1;
                }
                proof {
                    assert forall|k: int| p <= k < order@.len() implies served_before(self.devices@, i as int, #[trigger] order@[k] as int) by {
                        if k > p {
                            assert(served_before(self.devices@, order@[p as int] as int, order@[k] as int));
                        }
                    }
                }
                let ghost before = order@;
                order.insert(p, i);
                proof {
                    assert forall|k: int, m: int| 0 <= k < m < order@.len() implies served_before(self.devices@, #[trigger] order@[k] as int, #[trigger] order@[m] as int) by {
                        if k < p && m > p {
                            assert(order@[k] == before[k]);
                            assert(order@[m] == before[m - 1]);
                        } else if k < p && m < p {
                            assert(order@[k] == before[k]);
                            assert(order@[m] == before[m]);
                        } else if k > p {
                            assert(order@[k] == before[k - 1]);
                            assert(order@[m] == before[m - 1]);
                        }
                    }
                    assert forall|j: int| 0 <= j < i + 1 && competes(#[trigger] self.devices@[j]) implies order@.contains(j as usize) by {
                        if j == i {
                            assert(order@[p as int] == i);
                        } else {
                            assert(before.contains(j as usize));
                            let k = choose|k: int| 0 <= k < before.len() && before[k] == j as usize;
                            if k < p {
                                assert(order@[k] == before[k]);
                            } else {
                                assert(order@[k + 1] == before[k]);
                            }
                        }
                    }
                }
            }
            i = i + 1;
        }
        order
    }
}

/// `other` is served no later than `device` when indices are set aside.
fn served_no_later(other: &DeviceState, device: &DeviceState) -> (b: bool)
    ensures
        b == (class_rank(*other) < class_rank(*device) || (class_rank(*other) == class_rank(*device)
            && other.entity_id <= device.entity_id)),
{
    let other_rank = class_rank_of(other);
    let rank = class_rank_of(device);
    other_rank < rank || (other_rank == rank && other.entity_id <= device.entity_id)
}

/// The allocation class rank of a device.
fn class_rank_of(device: &DeviceState) -> (rank: u8)
    ensures
        rank == class_rank(*device),
{
    match device.device.power_class() {
        Some(class) => class.rank(),
        None => PowerClass::Interface.rank(),
    }
}

/// A prefix's turbine generation never exceeds the whole.
pub proof fn lemma_turbine_generation_prefix(devices: Seq<DeviceState>, n: int)
    requires
        0 <= n <= devices.len(),
    ensures
        turbine_generation(devices.take(n)) <= turbine_generation(devices),
    decreases devices.len(),
{
    lemma_competing_demand_bound(devices);
    if n < devices.len() {
        assert(devices.drop_last().take(n) =~= devices.take(n));
        lemma_turbine_generation_prefix(devices.drop_last(), n);
        lemma_competing_demand_bound(devices.drop_last());
    } else {
        assert(devices.take(n) =~= devices);
    }
}

} // verus!
