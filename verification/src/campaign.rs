//! Authored campaign maps and their scheduled events.

use vstd::prelude::*;

use crate::content::{first_map, first_mission, ContentRegistry, MissionRecord};
use crate::devices::{DeviceId, DeviceSystem};
use crate::economy::FabricationState;
use crate::mission::MissionId;
use crate::simulation::{CellDefinition, FluidId, SimCell, SimulationWorld, SourceSchedule, SourceState, ENTITY_LIMIT};
use crate::state::{lemma_grid_index_injective, CellPos};

pub mod edit;
pub mod author;

use edit::{edit_cell, edit_rect, edited_where, in_rect, CellEdit};

verus! {

/// A loaded campaign map: its world, its starting fabrication stock and the
/// window of ticks a reference solution takes.
#[derive(Debug)]
pub struct CampaignMap {
    pub world: SimulationWorld,
    pub fabrication_start_fu: u32,
    pub reference_tick_range: (u64, u64),
}

/// The cell at an on-grid position.
pub open spec fn cell_at(world: SimulationWorld, pos: CellPos) -> SimCell {
    world.cells@[world.index_of(pos)->0 as int]
}

/// The definition at an on-grid position.
pub open spec fn definition_at(world: SimulationWorld, pos: CellPos) -> CellDefinition {
    world.definitions@[world.index_of(pos)->0 as int]
}

/// The content record of mission `id`: its first record.
pub open spec fn campaign_record(content: ContentRegistry, id: MissionId) -> MissionRecord {
    content.missions@[choose|i: int| first_mission(content.missions@, id.content_id_spec(), i)]
}

/// The source schedule a mission record authors, when it has both surge ticks.
pub open spec fn schedule_spec(r: MissionRecord) -> Option<SourceSchedule> {
    match (r.surge_start_tick, r.surge_end_tick) {
        (Some(start_tick), Some(end_tick)) => Some(
            SourceSchedule { start_tick, end_tick, base_rate_vu: r.source_rate_vu, surge_rate_vu: r.surge_rate_vu },
        ),
        _ => None,
    }
}

/// Switch the first source to the surge rate on the schedule's start tick and back
/// to the base rate on its end tick.
pub fn apply_scheduled_events(world: &mut SimulationWorld, id: MissionId)
    ensures
        *final(world) == (SimulationWorld { sources: final(world).sources, ..*old(world) }),
        final(world).sources@ == match old(world).source_schedule {
            Some(s) => if old(world).sources@.len() > 0 && old(world).tick == s.start_tick {
                old(world).sources@.update(0, SourceState { rate_vu: s.surge_rate_vu, ..old(world).sources@[0] })
            } else if old(world).sources@.len() > 0 && old(world).tick == s.end_tick {
                old(world).sources@.update(0, SourceState { rate_vu: s.base_rate_vu, ..old(world).sources@[0] })
            } else {
                old(world).sources@
            },
            None => old(world).sources@,
        },
        old(world).wf() ==> final(world).wf(),
        final(world).balance() == old(world).balance(),
{
    let schedule = match world.source_schedule {
        Some(s) => s,
        None => {
            return;
        },
    };
    if world.tick == schedule.start_tick {
        if world.sources.len() > 0 {
            let first = world.sources[0];
            world.sources.set(0, SourceState { rate_vu: schedule.surge_rate_vu, ..first });
        }
    } else if world.tick == schedule.end_tick {
        if world.sources.len() > 0 {
            let first = world.sources[0];
            world.sources.set(0, SourceState { rate_vu: schedule.base_rate_vu, ..first });
        }
    }
}

/// The devices after installing authored `device` at `anchor` with `rotation`
/// and giving it `setting_bp` (see `DeviceSystem::install_fixture`): a refused
/// placement changes nothing; otherwise the fixture joins the list under the next
/// entity id, and the first device carrying that id takes the setting.
pub open spec fn fixture_installed(
    world: SimulationWorld,
    d0: DeviceSystem,
    d1: DeviceSystem,
    device: DeviceId,
    anchor: CellPos,
    rotation: u8,
    setting_bp: u16,
) -> bool {
    match crate::devices::placement::placement_error(world, d0.devices@, seq![], device, anchor, rotation) {
        Some(_) => d1 == d0,
        None => {
            let id = d0.next_entity_id;
            let placed = d0.devices@.push(crate::devices::placement::built_device(id, device, anchor, rotation, true));
            &&& exists|i: int|
                #[trigger] crate::devices::placement::first_with_id(placed, id, i) && d1.devices@ == placed.update(
                    i,
                    crate::devices::DeviceState { setting_bp, ..placed[i] },
                )
            &&& d1.next_entity_id == id + 1
            &&& d1.next_plan_id == d0.next_plan_id
            &&& d1.queued == d0.queued
        },
    }
}

/// Install authored infrastructure (no fabrication charged) and give it a setting.
/// A refused placement leaves the world as it was.
pub fn install_device(world: &mut SimulationWorld, device: DeviceId, anchor: CellPos, rotation: u8, setting_bp: u16)
    requires
        old(world).wf(),
        old(world).devices.next_entity_id < u32::MAX,
        old(world).devices.devices@.len() < ENTITY_LIMIT,
    ensures
        final(world).wf(),
        *final(world) == (SimulationWorld { devices: final(world).devices, ..*old(world) }),
        final(world).devices.next_entity_id <= old(world).devices.next_entity_id + 1,
        final(world).devices.devices@.len() <= old(world).devices.devices@.len() + 1,
        final(world).balance() == old(world).balance(),
        fixture_installed(*old(world), old(world).devices, final(world).devices, device, anchor, rotation, setting_bp),
{
    let mut devices = DeviceSystem::default();
    std::mem::swap(&mut devices, &mut world.devices);
    proof {
        crate::devices::placement::lemma_first_cell_error_frame(*world, *old(world), devices.devices@, seq![], device, anchor, 0);
    }
    let placed = devices.install_fixture(world, device, anchor, rotation);
    if let Ok(entity) = placed {
        let ghost s = old(world).devices.devices@.push(
            crate::devices::placement::built_device(old(world).devices.next_entity_id, device, anchor, rotation, true),
        );
        proof {
            assert(s.drop_last() =~= old(world).devices.devices@);
            assert(devices.devices@ == s);
        }
        let mut i: usize = 0;
        while i < devices.devices.len()
            invariant_except_break
                devices.devices@ == s,
                forall|j: int| 0 <= j < i ==> (#[trigger] s[j]).entity_id != entity,
            invariant
                i <= devices.devices@.len(),
                devices.wf(),
                entity == old(world).devices.next_entity_id,
                s.last().entity_id == entity,
                devices.devices@.len() == s.len(),
                devices.devices@.len() == old(world).devices.devices@.len() + 1,
                devices.next_entity_id == old(world).devices.next_entity_id + 1,
                devices.next_plan_id == old(world).devices.next_plan_id,
                devices.queued == old(world).devices.queued,
                crate::simulation::devices_stored(devices.devices@) == crate::simulation::devices_stored(
                    old(world).devices.devices@,
                ),
            ensures
                devices.wf(),
                devices.next_entity_id == old(world).devices.next_entity_id + 1,
                devices.next_plan_id == old(world).devices.next_plan_id,
                devices.queued == old(world).devices.queued,
                devices.devices@.len() == old(world).devices.devices@.len() + 1,
                crate::simulation::devices_stored(devices.devices@) == crate::simulation::devices_stored(
                    old(world).devices.devices@,
                ),
                exists|k: int|
                    #[trigger] crate::devices::placement::first_with_id(s, entity, k) && devices.devices@ == s.update(
                        k,
                        crate::devices::DeviceState { setting_bp, ..s[k] },
                    ),
            decreases devices.devices@.len() - i,
        {
            if devices.devices[i].entity_id == entity {
                let state = devices.devices[i];
                let ghost before = devices.devices@;
                devices.devices.set(i, crate::devices::DeviceState { setting_bp, ..state });
                proof {
                    crate::simulation::lemma_devices_stored_update(before, i as int, devices.devices@[i as int]);
                    assert(crate::devices::placement::first_with_id(s, entity, i as int));
                }
                break;
            }
            i = i + 1;
        }
    }
    std::mem::swap(&mut devices, &mut world.devices);
}

/// The map record of mission `id`'s record.
pub open spec fn campaign_map_record(content: ContentRegistry, id: MissionId) -> crate::content::MapRecord {
    content.maps@[choose|j: int| first_map(content.maps@, campaign_record(content, id).map_id@, j)]
}

/// Content that can be loaded as mission `id`: the mission has a record, the
/// record's map exists and fits a world, and its lists are of world size.
pub open spec fn campaign_loadable(content: ContentRegistry, id: MissionId) -> bool {
    &&& exists|i: int| first_mission(content.missions@, id.content_id_spec(), i)
    &&& exists|j: int| first_map(content.maps@, campaign_record(content, id).map_id@, j)
    &&& campaign_map_record(content, id).width <= 32767
    &&& campaign_map_record(content, id).height <= 32767
    &&& campaign_record(content, id).power_sources@.len() < ENTITY_LIMIT
}

/// Whether mission `id` can be loaded from the content (see `campaign_loadable`).
pub fn mission_loadable(content: &ContentRegistry, id: MissionId) -> (ok: bool)
    ensures
        ok == campaign_loadable(*content, id),
{
    let record = match content.mission(id.content_id()) {
        Some(r) => r,
        None => {
            proof {
                assert forall|i: int| !first_mission(content.missions@, id.content_id_spec(), i) by {
                    if 0 <= i < content.missions@.len() {
                        assert(content.missions@[i].id@ != id.content_id_spec());
                    }
                }
            }
            return false;
        },
    };
    proof {
        let i = choose|i: int| first_mission(content.missions@, id.content_id_spec(), i) && *record == content.missions@[i];
        let k = choose|k: int| first_mission(content.missions@, id.content_id_spec(), k);
        if i < k {
            assert(content.missions@[i].id@ == id.content_id_spec());
        } else if k < i {
            assert(content.missions@[k].id@ == id.content_id_spec());
        }
        assert(*record == campaign_record(*content, id));
    }
    let map_record = match content.map(record.map_id.as_str()) {
        Some(m) => m,
        None => {
            proof {
                assert forall|j: int| !first_map(content.maps@, record.map_id@, j) by {
                    if 0 <= j < content.maps@.len() {
                        assert(content.maps@[j].id@ != record.map_id@);
                    }
                }
            }
            return false;
        },
    };
    proof {
        let i = choose|i: int| first_map(content.maps@, record.map_id@, i) && *map_record == content.maps@[i];
        let k = choose|k: int| first_map(content.maps@, record.map_id@, k);
        if i < k {
            assert(content.maps@[i].id@ == record.map_id@);
        } else if k < i {
            assert(content.maps@[k].id@ == record.map_id@);
        }
        assert(*map_record == campaign_map_record(*content, id));
    }
    map_record.width <= 32767 && map_record.height <= 32767 && record.power_sources.len() < ENTITY_LIMIT
}

/// Whether every campaign mission can be loaded from the content.
pub fn campaign_ready(content: &ContentRegistry) -> (ok: bool)
    ensures
        ok == forall|id: MissionId| campaign_loadable(*content, id),
{
    let a = mission_loadable(content, MissionId::L01FirstFlow);
    let b = mission_loadable(content, MissionId::L02HoldingLine);
    let c = mission_loadable(content, MissionId::L03Firebreak);
    proof {
        if a && b && c {
            assert forall|id: MissionId| campaign_loadable(*content, id) by {
                match id {
                    MissionId::L01FirstFlow => {},
                    MissionId::L02HoldingLine => {},
                    MissionId::L03Firebreak => {},
                }
            }
        }
    }
    a && b && c
}

/// Where and what each mission's authored source pours.
pub open spec fn authored_source(id: MissionId) -> (CellPos, FluidId) {
    match id {
        MissionId::L01FirstFlow => (CellPos { x: 2, y: 9 }, FluidId::Water),
        MissionId::L02HoldingLine => (CellPos { x: 5, y: 16 }, FluidId::Water),
        MissionId::L03Firebreak => (CellPos { x: 5, y: 15 }, FluidId::Lava),
    }
}

/// Whether the first authored power source named `id` is enabled; false when none is.
pub open spec fn authored_enabled(sources: Seq<crate::content::PowerSourceRecord>, id: Seq<char>) -> bool {
    exists|j: int|
        0 <= j < sources.len() && (#[trigger] sources[j]).id@ == id && sources[j].enabled && forall|k: int|
            0 <= k < j ==> (#[trigger] sources[k]).id@ != id
}

/// Whether the first authored power source with `id` is enabled.
fn first_enabled(sources: &Vec<crate::content::PowerSourceRecord>, id: &String) -> (enabled: bool)
    ensures
        enabled == authored_enabled(sources@, id@),
{
    let mut j: usize = 0;
    while j < sources.len()
        invariant
            j <= sources@.len(),
            forall|k: int| 0 <= k < j ==> (#[trigger] sources@[k]).id@ != id@,
        decreases sources@.len() - j,
    {
        if sources[j].id == *id {
            proof {
                if !sources@[j as int].enabled {
                    assert forall|m: int|
                        0 <= m < sources@.len() && (#[trigger] sources@[m]).id@ == id@ && sources@[m].enabled implies exists|k: int|
                        0 <= k < m && (#[trigger] sources@[k]).id@ == id@ by {
                        assert(m != j);
                        if m < j {
                        } else {
                            assert(sources@[j as int].id@ == id@);
                        }
                    }
                }
            }
            return sources[j].enabled;
        }
        j = j + 1;
    }
    false
}

/// The world of campaign mission `id` as loaded from the content: its map's size,
/// authored for the mission, with its source schedule, starting fabrication
/// stock, deposits and power sources, and its source at the authored base rate,
/// not yet running.
pub open spec fn campaign_world(content: ContentRegistry, id: MissionId, w: SimulationWorld) -> bool {
    let r = campaign_record(content, id);
    let m = campaign_map_record(content, id);
    &&& w.wf()
    &&& w.width == m.width
    &&& w.height == m.height
    &&& w.tick == 0
    &&& w.balance() == 0
    &&& w.ledger.drained == 0
    &&& w.ledger.injected <= 128_000
    &&& w.fabrication == FabricationState::new_spec(r.fabrication_start_fu)
    &&& w.source_schedule == schedule_spec(r)
    &&& w.sources@.len() == 1
    &&& w.sources@[0] == (SourceState {
        position: authored_source(id).0,
        fluid: authored_source(id).1,
        rate_vu: r.source_rate_vu,
        enabled: false,
    })
    &&& w.deposits@.len() == r.deposits@.len()
    &&& forall|k: int| 0 <= k < r.deposits@.len() ==> {
        &&& (#[trigger] w.deposits@[k]).id@ == r.deposits@[k].id@
        &&& w.deposits@[k].position == (CellPos { x: r.deposits@[k].position[0], y: r.deposits@[k].position[1] })
        &&& w.deposits@[k].yield_fu == r.deposits@[k].yield_fu
        &&& w.deposits@[k].asset_id@ == r.deposits@[k].asset_id@
        &&& !w.deposits@[k].depleted
    }
    &&& w.power_sources@.len() == r.power_sources@.len()
    &&& forall|k: int| 0 <= k < r.power_sources@.len() ==> {
        &&& (#[trigger] w.power_sources@[k]).id@ == r.power_sources@[k].id@
        &&& w.power_sources@[k].position == (CellPos {
            x: r.power_sources@[k].position[0],
            y: r.power_sources@[k].position[1],
        })
        &&& w.power_sources@[k].output_eu_per_tick == r.power_sources@[k].output_eu_per_tick
        &&& w.power_sources@[k].asset_id@ == r.power_sources@[k].asset_id@
        &&& w.power_sources@[k].enabled == authored_enabled(r.power_sources@, r.power_sources@[k].id@)
    }
    &&& id == MissionId::L01FirstFlow && w.width >= 31 && w.height >= 16 ==> {
        &&& definition_at(w, CellPos { x: 24, y: 8 }).protected
        &&& forall|p: CellPos|
            #![trigger cell_at(w, p)]
            in_rect(p, 26, 30, 7, 11) ==> {
                &&& cell_at(w, p).height_hu == 600
                &&& cell_at(w, p).sealed
                &&& cell_at(w, p).contained
            }
        &&& definition_at(w, CellPos { x: 8, y: 14 }).protected
        &&& definition_at(w, CellPos { x: 8, y: 14 }).surface_drain_rate_vu == 800
    }
    &&& id == MissionId::L02HoldingLine && w.width >= 40 && w.height >= 24 ==> forall|p: CellPos|
        #![trigger cell_at(w, p)]
        in_rect(p, 31, 36, 7, 9) ==> cell_at(w, p).contained
    &&& id == MissionId::L03Firebreak ==> forall|p: CellPos|
        #![trigger cell_at(w, p)]
        #![trigger definition_at(w, p)]
        w.index_of(p) is Some ==> l03_start(w, p)
    &&& id == MissionId::L03Firebreak ==> exists|authored: SimulationWorld, d0: DeviceSystem|
        #[trigger] author::l03_works_installed(SimulationWorld { devices: d0, ..authored }, authored) && {
            &&& d0.next_entity_id == 0
            &&& d0.next_plan_id == 0
            &&& d0.queued@.len() == 0
            &&& d0.devices@.len() == 0
            &&& w.devices == authored.devices
            &&& w.cells == authored.cells
            &&& w.definitions == authored.definitions
        }
}

/// A cell of the third map as authored on fresh ground (see `author::author_l03`):
/// its authored height and ambient temperature, protected only in the works,
/// sealed only in the shelf, the pocket and at (27, 9), contained only along the
/// lava approach and in the pocket, dry air, and 750 vU of water in each cistern
/// cell with no other surface fluid elsewhere.
pub open spec fn l03_start(w: SimulationWorld, p: CellPos) -> bool {
    let c = cell_at(w, p);
    let d = definition_at(w, p);
    &&& c.height_hu == author::l03_height(p, w.width, w.height)
    &&& d.ambient_temperature_dk == author::l03_ambient(p)
    &&& d.protected == in_rect(p, 35, 40, 12, 18)
    &&& c.sealed == (in_rect(p, 20, 25, 12, 16) || in_rect(p, 38, 39, 5, 6) || p == CellPos { x: 27, y: 9 })
    &&& c.contained == (in_rect(p, 5, 19, 15, 15) || in_rect(p, 38, 39, 5, 6))
    &&& c.airborne@.len() == 0
    &&& if in_rect(p, 8, 11, 3, 6) {
        crate::simulation::entries::fluid_volume(c.surface@, FluidId::Water) == 750
    } else {
        c.surface@.len() == 0
    }
}

/// Load campaign mission `id` from the content: a world of its map's size,
/// authored for the mission, with its source schedule, starting fabrication
/// stock, deposits and power sources (each enabled as its first authored entry
/// says), and every source at the authored base rate.
pub fn load_campaign(id: MissionId, content: &ContentRegistry) -> (map: CampaignMap)
    requires
        campaign_loadable(*content, id),
    ensures
        campaign_world(*content, id, map.world),
        map.fabrication_start_fu == campaign_record(*content, id).fabrication_start_fu,
        map.reference_tick_range == (campaign_record(*content, id).reference_tick_min, campaign_record(*content, id).reference_tick_max),
{
    let record = match content.mission(id.content_id()) {
        Some(r) => r,
        None => {
            proof {
                let i = choose|i: int| first_mission(content.missions@, id.content_id_spec(), i);
                assert(content.missions@[i].id@ == id.content_id_spec());
            }
            return CampaignMap { world: SimulationWorld::new(0, 0), fabrication_start_fu: 0, reference_tick_range: (0, 0) };
        },
    };
    proof {
        let i = choose|i: int| first_mission(content.missions@, id.content_id_spec(), i) && *record == content.missions@[i];
        let k = choose|k: int| first_mission(content.missions@, id.content_id_spec(), k);
        if i < k {
            assert(content.missions@[i].id@ == id.content_id_spec());
        } else if k < i {
            assert(content.missions@[k].id@ == id.content_id_spec());
        }
        assert(*record == campaign_record(*content, id));
    }
    let map_record = match content.map(record.map_id.as_str()) {
        Some(m) => m,
        None => {
            proof {
                let j = choose|j: int| first_map(content.maps@, campaign_record(*content, id).map_id@, j);
                assert(content.maps@[j].id@ == record.map_id@);
            }
            return CampaignMap { world: SimulationWorld::new(0, 0), fabrication_start_fu: 0, reference_tick_range: (0, 0) };
        },
    };
    proof {
        let i = choose|i: int| first_map(content.maps@, record.map_id@, i) && *map_record == content.maps@[i];
        let k = choose|k: int| first_map(content.maps@, record.map_id@, k);
        if i < k {
            assert(content.maps@[i].id@ == record.map_id@);
        } else if k < i {
            assert(content.maps@[k].id@ == record.map_id@);
        }
        assert(*map_record == campaign_map_record(*content, id));
    }
    let mut world = SimulationWorld::new(map_record.width, map_record.height);
    world.source_schedule = match (record.surge_start_tick, record.surge_end_tick) {
        (Some(start_tick), Some(end_tick)) => Some(
            SourceSchedule {
                start_tick,
                end_tick,
                base_rate_vu: record.source_rate_vu,
                surge_rate_vu: record.surge_rate_vu,
            },
        ),
        _ => None,
    };
    proof {
        assert(world.balance() == 0);
    }
    let ghost pre = world;
    match id {
        MissionId::L01FirstFlow => author::author_l01(&mut world),
        MissionId::L02HoldingLine => author::author_l02(&mut world),
        MissionId::L03Firebreak => author::author_l03(&mut world),
    }
    let ghost authored = world;
    world.fabrication = FabricationState::new(record.fabrication_start_fu);
    let mut k: usize = 0;
    while k < record.deposits.len()
        invariant
            k <= record.deposits@.len(),
            world.wf(),
            world.cells == authored.cells,
            world.definitions == authored.definitions,
            world.devices == authored.devices,
            world.ledger == authored.ledger,
            world.width == authored.width,
            world.height == authored.height,
            world.sources == authored.sources,
            world.power_sources@.len() == 0,
            world.tick == 0,
            world.balance() == 0,
            world.source_schedule == schedule_spec(*record),
            world.fabrication == FabricationState::new_spec(record.fabrication_start_fu),
            world.deposits@.len() == k,
            forall|j: int| 0 <= j < k ==> {
                &&& (#[trigger] world.deposits@[j]).id@ == record.deposits@[j].id@
                &&& world.deposits@[j].position == (CellPos { x: record.deposits@[j].position[0], y: record.deposits@[j].position[1] })
                &&& world.deposits@[j].yield_fu == record.deposits@[j].yield_fu
                &&& world.deposits@[j].asset_id@ == record.deposits@[j].asset_id@
                &&& !world.deposits@[j].depleted
            },
        decreases record.deposits@.len() - k,
    {
        let deposit = &record.deposits[k];
        world.add_deposit(
            deposit.id.as_str(),
            CellPos { x: deposit.position[0], y: deposit.position[1] },
            deposit.yield_fu,
            deposit.asset_id.as_str(),
        );
        k = k + 1;
    }
    let mut k: usize = 0;
    while k < record.power_sources.len()
        invariant
            k <= record.power_sources@.len(),
            record.power_sources@.len() < ENTITY_LIMIT,
            world.wf(),
            world.cells == authored.cells,
            world.definitions == authored.definitions,
            world.devices == authored.devices,
            world.ledger == authored.ledger,
            world.width == authored.width,
            world.height == authored.height,
            world.sources == authored.sources,
            world.tick == 0,
            world.balance() == 0,
            world.source_schedule == schedule_spec(*record),
            world.fabrication == FabricationState::new_spec(record.fabrication_start_fu),
            world.deposits@.len() == record.deposits@.len(),
            forall|j: int| 0 <= j < record.deposits@.len() ==> {
                &&& (#[trigger] world.deposits@[j]).id@ == record.deposits@[j].id@
                &&& world.deposits@[j].position == (CellPos { x: record.deposits@[j].position[0], y: record.deposits@[j].position[1] })
                &&& world.deposits@[j].yield_fu == record.deposits@[j].yield_fu
                &&& world.deposits@[j].asset_id@ == record.deposits@[j].asset_id@
                &&& !world.deposits@[j].depleted
            },
            world.power_sources@.len() == k,
            forall|j: int| 0 <= j < k ==> {
                &&& (#[trigger] world.power_sources@[j]).id@ == record.power_sources@[j].id@
                &&& world.power_sources@[j].position == (CellPos {
                    x: record.power_sources@[j].position[0],
                    y: record.power_sources@[j].position[1],
                })
                &&& world.power_sources@[j].output_eu_per_tick == record.power_sources@[j].output_eu_per_tick
                &&& world.power_sources@[j].asset_id@ == record.power_sources@[j].asset_id@
                &&& world.power_sources@[j].enabled == authored_enabled(record.power_sources@, record.power_sources@[j].id@)
            },
        decreases record.power_sources@.len() - k,
    {
        let source = &record.power_sources[k];
        world.add_power_source(
            source.id.as_str(),
            CellPos { x: source.position[0], y: source.position[1] },
            source.output_eu_per_tick,
            source.asset_id.as_str(),
        );
        let last = world.power_sources.len() - 1;
        let enabled = first_enabled(&record.power_sources, &world.power_sources[last].id);
        let entry = crate::economy::PowerSource {
            id: world.power_sources[last].id.clone(),
            position: world.power_sources[last].position,
            output_eu_per_tick: world.power_sources[last].output_eu_per_tick,
            enabled,
            asset_id: world.power_sources[last].asset_id.clone(),
        };
        let ghost before = world.power_sources@;
        world.power_sources.set(last, entry);
        proof {
            assert(world.power_sources@ == before.update(last as int, entry));
        }
        k = k + 1;
    }
    if world.sources.len() > 0 {
        let first = world.sources[0];
        world.sources.set(0, SourceState { rate_vu: record.source_rate_vu, ..first });
    }
    proof {
        assert(world.sources@.len() == 1);
        if id == MissionId::L01FirstFlow && world.width >= 31 && world.height >= 16 {
            assert forall|p: CellPos| #![trigger cell_at(world, p)] in_rect(p, 26, 30, 7, 11) implies {
                &&& cell_at(world, p).height_hu == 600
                &&& cell_at(world, p).sealed
                &&& cell_at(world, p).contained
            } by {
                assert(cell_at(world, p) == cell_at(authored, p));
            }
        }
        if id == MissionId::L03Firebreak {
            assert forall|p: CellPos|
                #![trigger cell_at(world, p)]
                #![trigger definition_at(world, p)]
                world.index_of(p) is Some implies l03_start(world, p) by {
                assert(pre.index_of(p) == world.index_of(p));
                assert(cell_at(world, p) == cell_at(authored, p));
                assert(definition_at(world, p) == definition_at(authored, p));
                assert(author::l03_terrain(pre, authored, p));
                crate::state::lemma_grid_index_bound(pre.width, pre.height, p);
                let i = pre.index_of(p)->0;
                assert(pre.cells@[i as int].surface@.len() == 0);
                assert(pre.cells@[i as int].surface@ =~= Seq::<crate::simulation::FluidEntry>::empty());
                assert(pre.definitions@[i as int] == crate::simulation::default_definition());
            }
            assert(author::l03_works_installed(SimulationWorld { devices: pre.devices, ..authored }, authored));
        }
        if id == MissionId::L02HoldingLine && world.width >= 40 && world.height >= 24 {
            assert forall|p: CellPos| #![trigger cell_at(world, p)] in_rect(p, 31, 36, 7, 9) implies cell_at(world, p).contained by {
                assert(cell_at(world, p) == cell_at(authored, p));
            }
        }
    }
    CampaignMap {
        world,
        fabrication_start_fu: record.fabrication_start_fu,
        reference_tick_range: (record.reference_tick_min, record.reference_tick_max),
    }
}

} // verus!
