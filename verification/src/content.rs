//! The slice's content registry: authored fluids, devices, missions, tutorials
//! and maps, their lookups and their cross-reference validation.

use vstd::prelude::*;

use crate::text::same_text;

pub mod validate;

verus! {

/// An authored fluid and whether the slice enables it.
#[derive(Debug, Clone)]
pub struct FluidRecord {
    pub id: String,
    pub enabled: bool,
}

/// An authored device entry.
#[derive(Debug, Clone)]
pub struct DeviceRecord {
    pub id: String,
    pub showcase_map_id: String,
    pub fabrication_cost_fu: u32,
    pub power_demand_eu_per_tick: u32,
    pub power_class: Option<String>,
    pub asset_id: String,
}

/// An authored recoverable deposit of a mission.
#[derive(Debug, Clone)]
pub struct DepositRecord {
    pub id: String,
    pub position: [u16; 2],
    pub yield_fu: u32,
    pub asset_id: String,
}

/// An authored power source of a mission.
#[derive(Debug, Clone)]
pub struct PowerSourceRecord {
    pub id: String,
    pub position: [u16; 2],
    pub output_eu_per_tick: u32,
    pub enabled: bool,
    pub asset_id: String,
}

/// An authored campaign mission: its map, stock, deposits, power sources, texts,
/// objective and hazard rules, reference completion window and source schedule.
#[derive(Debug, Clone)]
pub struct MissionRecord {
    pub id: String,
    pub map_id: String,
    pub sequence: u8,
    pub title: String,
    pub fabrication_start_fu: u32,
    pub deposits: Vec<DepositRecord>,
    pub power_sources: Vec<PowerSourceRecord>,
    pub briefing: String,
    pub objective: String,
    pub objective_min_vu: u32,
    pub objective_max_vu: u32,
    pub stability_ticks: u32,
    pub failure_ticks: u32,
    pub advisory_tick: u64,
    pub warning_tick: u64,
    pub hazard_threshold_vu: u32,
    pub hazard_reason: String,
    pub reference_tick_min: u64,
    pub reference_tick_max: u64,
    pub source_rate_vu: u32,
    pub surge_start_tick: Option<u64>,
    pub surge_end_tick: Option<u64>,
    pub surge_rate_vu: u32,
}

/// An authored tutorial and its step identifiers in order.
#[derive(Debug, Clone)]
pub struct TutorialRecord {
    pub id: String,
    pub steps: Vec<String>,
}

/// An authored map: its kind and grid size.
#[derive(Debug, Clone)]
pub struct MapRecord {
    pub id: String,
    pub kind: String,
    pub width: u16,
    pub height: u16,
}

/// All authored slice content.
#[derive(Debug, Clone)]
pub struct ContentRegistry {
    pub schema_version: u32,
    pub content_version: String,
    pub fluids: Vec<FluidRecord>,
    pub devices: Vec<DeviceRecord>,
    pub missions: Vec<MissionRecord>,
    pub tutorials: Vec<TutorialRecord>,
    pub maps: Vec<MapRecord>,
}

/// The first mission record with identifier `id` is at `i`.
pub open spec fn first_mission(missions: Seq<MissionRecord>, id: Seq<char>, i: int) -> bool {
    &&& 0 <= i < missions.len()
    &&& missions[i].id@ == id
    &&& forall|j: int| 0 <= j < i ==> (#[trigger] missions[j]).id@ != id
}

/// The first map record with identifier `id` is at `i`.
pub open spec fn first_map(maps: Seq<MapRecord>, id: Seq<char>, i: int) -> bool {
    &&& 0 <= i < maps.len()
    &&& maps[i].id@ == id
    &&& forall|j: int| 0 <= j < i ==> (#[trigger] maps[j]).id@ != id
}

/// The first tutorial record with identifier `id` is at `i`.
pub open spec fn first_tutorial(tutorials: Seq<TutorialRecord>, id: Seq<char>, i: int) -> bool {
    &&& 0 <= i < tutorials.len()
    &&& tutorials[i].id@ == id
    &&& forall|j: int| 0 <= j < i ==> (#[trigger] tutorials[j]).id@ != id
}

impl ContentRegistry {
    /// The first mission record with identifier `id`, if any.
    pub fn mission(&self, id: &str) -> (found: Option<&MissionRecord>)
        ensures
            found is None <==> forall|j: int| 0 <= j < self.missions@.len() ==> (#[trigger] self.missions@[j]).id@ != id@,
            found matches Some(r) ==> exists|i: int| #[trigger] first_mission(self.missions@, id@, i) && *r == self.missions@[i],
    {
        let mut i: usize = 0;
        while i < self.missions.len()
            invariant
                i <= self.missions@.len(),
                forall|j: int| 0 <= j < i ==> (#[trigger] self.missions@[j]).id@ != id@,
            decreases self.missions@.len() - i,
        {
            if same_text(&self.missions[i].id, id) {
                proof {
                    assert(first_mission(self.missions@, id@, i as int));
                }
                return Some(&self.missions[i]);
            }
            i = i + 1;
        }
        None
    }

    /// The first map record with identifier `id`, if any.
    pub fn map(&self, id: &str) -> (found: Option<&MapRecord>)
        ensures
            found is None <==> forall|j: int| 0 <= j < self.maps@.len() ==> (#[trigger] self.maps@[j]).id@ != id@,
            found matches Some(r) ==> exists|i: int| #[trigger] first_map(self.maps@, id@, i) && *r == self.maps@[i],
    {
        let mut i: usize = 0;
        while i < self.maps.len()
            invariant
                i <= self.maps@.len(),
                forall|j: int| 0 <= j < i ==> (#[trigger] self.maps@[j]).id@ != id@,
            decreases self.maps@.len() - i,
        {
            if same_text(&self.maps[i].id, id) {
                proof {
                    assert(first_map(self.maps@, id@, i as int));
                }
                return Some(&self.maps[i]);
            }
            i = i + 1;
        }
        None
    }

    /// The first tutorial record with identifier `id`, if any.
    pub fn tutorial(&self, id: &str) -> (found: Option<&TutorialRecord>)
        ensures
            found is None <==> forall|j: int| 0 <= j < self.tutorials@.len() ==> (#[trigger] self.tutorials@[j]).id@ != id@,
            found matches Some(r) ==> exists|i: int| #[trigger] first_tutorial(self.tutorials@, id@, i) && *r == self.tutorials@[i],
    {
        let mut i: usize = 0;
        while i < self.tutorials.len()
            invariant
                i <= self.tutorials@.len(),
                forall|j: int| 0 <= j < i ==> (#[trigger] self.tutorials@[j]).id@ != id@,
            decreases self.tutorials@.len() - i,
        {
            if same_text(&self.tutorials[i].id, id) {
                proof {
                    assert(first_tutorial(self.tutorials@, id@, i as int));
                }
                return Some(&self.tutorials[i]);
            }
            i = i + 1;
        }
        None
    }
}

} // verus!
