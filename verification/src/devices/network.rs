//! Deterministic conduit traversal and material delivery helpers.

use vstd::prelude::*;

use super::{DeviceId, DeviceState};
use crate::simulation::entries::{lemma_volume_by_fluid, remove_fluid, seq_volume};
use crate::simulation::process::{same_but_surface};
use crate::simulation::world::same_apart_from_cells;
use crate::simulation::{cells_material, lemma_cells_material_update, FluidEntry, SimulationWorld, CELL_CAPACITY_VU};
use crate::state::{lemma_grid_index_bound, lemma_grid_index_injective, CellPos};

verus! {

/// `w1` is `w0` with `moved` of surface volume carried from the cell at `source` to
/// the cell at `destination`, every other cell unchanged (a cell carried into
/// itself keeps its volume).
pub open spec fn surface_moved(w0: SimulationWorld, w1: SimulationWorld, source: CellPos, destination: CellPos, moved: u32) -> bool {
    match (w0.index_of(source), w0.index_of(destination)) {
        (Some(s), Some(d)) => {
            &&& forall|i: int| 0 <= i < w1.cells@.len() && i != s && i != d ==> #[trigger] w1.cells@[i] == w0.cells@[i]
            &&& if s == d {
                seq_volume(w1.cells@[s as int].surface@) == seq_volume(w0.cells@[s as int].surface@)
            } else {
                &&& seq_volume(w1.cells@[s as int].surface@) == seq_volume(w0.cells@[s as int].surface@) - moved
                &&& seq_volume(w1.cells@[d as int].surface@) == seq_volume(w0.cells@[d as int].surface@) + moved
            }
        },
        _ => w1.cells == w0.cells,
    }
}

/// Unit step of a rotation: 0 east, 1 south, 2 west, 3 north.
pub open spec fn direction_spec(rotation: u8) -> (i16, i16) {
    if rotation % 4 == 0 {
        (1i16, 0i16)
    } else if rotation % 4 == 1 {
        (0i16, 1i16)
    } else if rotation % 4 == 2 {
        (-1i16, 0i16)
    } else {
        (0i16, -1i16)
    }
}

/// Unit step of a rotation: 0 east, 1 south, 2 west, 3 north.
pub fn direction(rotation: u8) -> (d: (i16, i16))
    ensures
        d == direction_spec(rotation),
{
    let r = rotation % 4;
    if r == 0 {
        (1, 0)
    } else if r == 1 {
        (0, 1)
    } else if r == 2 {
        (-1, 0)
    } else {
        (0, -1)
    }
}

/// `v + d` clamped to the `u16` range.
pub open spec fn saturating_step(v: u16, d: i16) -> u16 {
    if v + d < 0 {
        0
    } else if v + d > u16::MAX {
        u16::MAX
    } else {
        (v + d) as u16
    }
}

/// One step from `source`, clamped to the coordinate range.
pub open spec fn step_spec(source: CellPos, d: (i16, i16)) -> CellPos {
    CellPos { x: saturating_step(source.x, d.0), y: saturating_step(source.y, d.1) }
}

/// One step from `source`, clamped to the coordinate range.
pub fn step(source: CellPos, d: (i16, i16)) -> (p: CellPos)
    ensures
        p == step_spec(source, d),
{
    let x: i32 = source.x as i32 + d.0 as i32;
    let y: i32 = source.y as i32 + d.1 as i32;
    CellPos {
        x: if x < 0 { 0 } else if x > 65535 { 65535 } else { x as u16 },
        y: if y < 0 { 0 } else if y > 65535 { 65535 } else { y as u16 },
    }
}

/// Orthogonal neighbours.
pub open spec fn adjacent_spec(a: CellPos, b: CellPos) -> bool {
    (if a.x >= b.x { a.x - b.x } else { b.x - a.x }) + (if a.y >= b.y { a.y - b.y } else { b.y - a.y }) == 1
}

/// Orthogonal neighbours.
pub fn adjacent(a: CellPos, b: CellPos) -> (r: bool)
    ensures
        r == adjacent_spec(a, b),
{
    let dx: u32 = if a.x >= b.x { (a.x - b.x) as u32 } else { (b.x - a.x) as u32 };
    let dy: u32 = if a.y >= b.y { (a.y - b.y) as u32 } else { (b.y - a.y) as u32 };
    dx + dy == 1
}

/// The cell at offset `(dx, dy)` from a device's anchor.
pub open spec fn footprint_cell(device: DeviceState, dx: int, dy: int) -> CellPos {
    CellPos { x: (device.anchor.x + dx) as u16, y: (device.anchor.y + dy) as u16 }
}

/// `position` borders one of the cells the device occupies.
pub open spec fn adjacent_to_footprint_spec(position: CellPos, device: DeviceState) -> bool {
    let (w, h) = device.device.footprint_spec();
    exists|dx: int, dy: int| 0 <= dx < w && 0 <= dy < h && #[trigger] adjacent_spec(position, footprint_cell(device, dx, dy))
}

/// `position` borders one of the cells the device occupies.
pub fn adjacent_to_footprint(position: CellPos, device: &DeviceState) -> (r: bool)
    requires
        device.anchor.x + 1 <= u16::MAX,
        device.anchor.y + 1 <= u16::MAX,
    ensures
        r == adjacent_to_footprint_spec(position, *device),
{
    let (width, height) = device.device.footprint();
    let mut dy: u16 = 0;
    while dy < height
        invariant
            (width, height) == device.device.footprint_spec(),
            dy <= height,
            device.anchor.x + 1 <= u16::MAX,
            device.anchor.y + 1 <= u16::MAX,
            forall|a: int, b: int| 0 <= a < width && 0 <= b < dy ==> !adjacent_spec(position, footprint_cell(*device, a, b)),
        decreases height - dy,
    {
        let mut dx: u16 = 0;
        while dx < width
            invariant
                (width, height) == device.device.footprint_spec(),
                dx <= width,
                dy < height,
                device.anchor.x + 1 <= u16::MAX,
                device.anchor.y + 1 <= u16::MAX,
                forall|a: int, b: int| 0 <= a < width && 0 <= b < dy ==> !adjacent_spec(position, footprint_cell(*device, a, b)),
                forall|a: int| 0 <= a < dx ==> !adjacent_spec(position, footprint_cell(*device, a, dy as int)),
            decreases width - dx,
        {
            if adjacent(position, CellPos { x: device.anchor.x + dx, y: device.anchor.y + dy }) {
                proof {
                    assert(adjacent_spec(position, footprint_cell(*device, dx as int, dy as int)));
                }
                return true;
            }
            dx = dx + 1;
        }
        dy = dy + 1;
    }
    false
}

/// Pipes and channels carry material.
pub open spec fn is_conduit_spec(device: DeviceId) -> bool {
    device == DeviceId::Pipe || device == DeviceId::Channel
}

/// Pipes and channels carry material.
pub fn is_conduit(device: DeviceId) -> (r: bool)
    ensures
        r == is_conduit_spec(device),
{
    match device {
        DeviceId::Pipe | DeviceId::Channel => true,
        _ => false,
    }
}

/// The cell a device releases into: beside its footprint in the direction of its
/// rotation.
pub open spec fn footprint_outlet_spec(device: DeviceState) -> CellPos {
    let (w, h) = device.device.footprint_spec();
    if device.rotation % 4 == 0 {
        CellPos { x: if device.anchor.x + w > u16::MAX { u16::MAX } else { (device.anchor.x + w) as u16 }, y: device.anchor.y }
    } else if device.rotation % 4 == 1 {
        CellPos { x: device.anchor.x, y: if device.anchor.y + h > u16::MAX { u16::MAX } else { (device.anchor.y + h) as u16 } }
    } else if device.rotation % 4 == 2 {
        step_spec(device.anchor, (-1i16, 0i16))
    } else {
        step_spec(device.anchor, (0i16, -1i16))
    }
}

/// The cell a device releases into: beside its footprint in the direction of its
/// rotation.
pub fn footprint_outlet(device: &DeviceState) -> (p: CellPos)
    ensures
        p == footprint_outlet_spec(*device),
{
    let (width, height) = device.device.footprint();
    let r = device.rotation % 4;
    if r == 0 {
        CellPos { x: device.anchor.x.saturating_add(width), y: device.anchor.y }
    } else if r == 1 {
        CellPos { x: device.anchor.x, y: device.anchor.y.saturating_add(height) }
    } else if r == 2 {
        step(device.anchor, (-1, 0))
    } else {
        step(device.anchor, (0, -1))
    }
}

/// The volume a surface move carries: up to `amount` of the first surface fluid
/// of `source`, no more than `destination`'s surface can still take; nothing when
/// either cell is off the grid or the source surface is dry.
pub open spec fn surface_move(w: SimulationWorld, source: CellPos, destination: CellPos, amount: u32) -> u32 {
    match (w.index_of(source), w.index_of(destination)) {
        (Some(s), Some(d)) => if w.cells@[s as int].surface@.len() == 0 {
            0
        } else {
            let e = w.cells@[s as int].surface@[0];
            let held = seq_volume(w.cells@[d as int].surface@);
            let room: u32 = if held >= CELL_CAPACITY_VU { 0 } else { (CELL_CAPACITY_VU - held) as u32 };
            let m: u32 = if amount <= e.volume_vu { amount } else { e.volume_vu };
            if room < m { room } else { m }
        },
        _ => 0,
    }
}

/// The cell one step from `source` in direction `d`, when it is not past the low
/// edge of the grid.
pub open spec fn step_target(source: CellPos, d: (i16, i16)) -> Option<CellPos> {
    let x = source.x + d.0;
    let y = source.y + d.1;
    if x < 0 || y < 0 {
        None
    } else {
        Some(CellPos { x: x as u16, y: y as u16 })
    }
}

/// Move up to `amount` of the first surface fluid of `source` onto `destination`,
/// limited by the destination's remaining capacity; returns the moved volume.
#[verifier::rlimit(60)]
pub fn transfer_surface_to(world: &mut SimulationWorld, source: CellPos, destination: CellPos, amount: u32) -> (moved: u32)
    requires
        old(world).wf(),
    ensures
        final(world).wf(),
        same_apart_from_cells(*old(world), *final(world)),
        final(world).ledger == old(world).ledger,
        final(world).events == old(world).events,
        final(world).cells@.len() == old(world).cells@.len(),
        forall|i: int| 0 <= i < final(world).cells@.len() ==> same_but_surface(
            old(world).cells@[i],
            #[trigger] final(world).cells@[i],
        ),
        cells_material(final(world).cells@) == cells_material(old(world).cells@),
        moved == surface_move(*old(world), source, destination, amount),
        moved == 0 ==> final(world).cells == old(world).cells,
        surface_moved(*old(world), *final(world), source, destination, moved),
{
    let source_index = match world.index(source) {
        Some(i) => i,
        None => return 0,
    };
    let destination_index = match world.index(destination) {
        Some(i) => i,
        None => return 0,
    };
    proof {
        lemma_grid_index_bound(world.width, world.height, source);
        lemma_grid_index_bound(world.width, world.height, destination);
        assert(world.cells@[source_index as int].wf());
        assert(world.cells@[destination_index as int].wf());
    }
    if world.cells[source_index].surface.len() == 0 {
        return 0;
    }
    let entry = world.cells[source_index].surface[0];
    let room = CELL_CAPACITY_VU.saturating_sub(world.cells[destination_index].surface_volume());
    let mut moved = if amount <= entry.volume_vu { amount } else { entry.volume_vu };
    if room < moved {
        moved = room;
    }
    if moved == 0 {
        return 0;
    }
    let ghost cells0 = world.cells@;
    proof {
        crate::simulation::entries::lemma_entry_at(cells0[source_index as int].surface@, 0);
    }
    remove_fluid(&mut world.cells[source_index].surface, entry.fluid, moved);
    proof {
        let c = world.cells@[source_index as int];
        lemma_volume_by_fluid(c.surface@);
        assert(c.wf());
        lemma_cells_material_update(cells0, source_index as int, c);
        assert(world.cells@ == cells0.update(source_index as int, c));
        assert(world.cells@[destination_index as int].wf());
    }
    let ghost cells1 = world.cells@;
    let accepted = world.cells[destination_index].add_surface(FluidEntry {
        fluid: entry.fluid,
        volume_vu: moved,
        temperature_dk: entry.temperature_dk,
        contamination_bp: entry.contamination_bp,
    });
    proof {
        let c = world.cells@[destination_index as int];
        lemma_volume_by_fluid(c.surface@);
        assert(accepted == moved);
        assert(c.wf());
        lemma_cells_material_update(cells1, destination_index as int, c);
        assert(world.cells@ == cells1.update(destination_index as int, c));
        lemma_volume_by_fluid(cells0[source_index as int].surface@);
        assert(seq_volume(cells1[source_index as int].surface@) == seq_volume(cells0[source_index as int].surface@) - moved);
        assert forall|i: int| 0 <= i < world.cells@.len() && i != source_index && i != destination_index implies
            #[trigger] world.cells@[i] == cells0[i] by {
            assert(cells1[i] == cells0[i]);
        }
    }
    moved
}

/// Move surface material one step in direction `d` from `source`; nothing moves off
/// the low edge of the grid.
pub fn transfer_surface(world: &mut SimulationWorld, source: CellPos, d: (i16, i16), amount: u32) -> (moved: u32)
    requires
        old(world).wf(),
        -1 <= d.0 <= 1,
        -1 <= d.1 <= 1,
        source.x <= 32767,
        source.y <= 32767,
        source.x + d.0 <= 32767,
        source.y + d.1 <= 32767,
    ensures
        final(world).wf(),
        same_apart_from_cells(*old(world), *final(world)),
        final(world).ledger == old(world).ledger,
        final(world).events == old(world).events,
        final(world).cells@.len() == old(world).cells@.len(),
        forall|i: int| 0 <= i < final(world).cells@.len() ==> same_but_surface(
            old(world).cells@[i],
            #[trigger] final(world).cells@[i],
        ),
        cells_material(final(world).cells@) == cells_material(old(world).cells@),
        moved == match step_target(source, d) {
            Some(t) => surface_move(*old(world), source, t, amount),
            None => 0,
        },
{
    let x: i16 = source.x as i16 + d.0;
    let y: i16 = source.y as i16 + d.1;
    if x < 0 || y < 0 {
        return 0;
    }
    transfer_surface_to(world, source, CellPos { x: x as u16, y: y as u16 }, amount)
}

/// A conduit is anchored at `p`.
pub open spec fn conduit_at(devices: Seq<DeviceState>, p: CellPos) -> bool {
    exists|i: int| 0 <= i < devices.len() && is_conduit_spec(devices[i].device) && #[trigger] devices[i].anchor == p
}

/// `path` starts at `first` and each later cell is a conduit beside the previous one.
pub open spec fn conduit_path(devices: Seq<DeviceState>, first: CellPos, path: Seq<CellPos>) -> bool {
    &&& path.len() >= 1
    &&& path[0] == first
    &&& forall|k: int| 0 <= k < path.len() - 1 ==> adjacent_spec(#[trigger] path[k], path[k + 1]) && conduit_at(devices, path[k + 1])
}

/// Some conduit path from `first` ends beside `second`.
pub open spec fn pipe_connected_spec(devices: Seq<DeviceState>, first: CellPos, second: CellPos) -> bool {
    exists|path: Seq<CellPos>| #[trigger] conduit_path(devices, first, path) && adjacent_spec(path.last(), second)
}

/// Whether `p` is in the list.
fn contains_pos(v: &Vec<CellPos>, p: CellPos) -> (r: bool)
    ensures
        r == v@.contains(p),
{
    let mut i: usize = 0;
    while i < v.len()
        invariant
            i <= v@.len(),
            forall|j: int| 0 <= j < i ==> v@[j] != p,
        decreases v@.len() - i,
    {
        if v[i] == p {
            return true;
        }
        i = i + 1;
    }
    false
}

/// A conduit path extends by a conduit beside its last cell.
pub proof fn lemma_extend_path(devices: Seq<DeviceState>, first: CellPos, base: Seq<CellPos>, q: CellPos)
    requires
        conduit_path(devices, first, base),
        adjacent_spec(base.last(), q),
        conduit_at(devices, q),
    ensures
        conduit_path(devices, first, base.push(q)),
        base.push(q).last() == q,
{
    let pp = base.push(q);
    assert forall|k: int| 0 <= k < pp.len() - 1 implies adjacent_spec(#[trigger] pp[k], pp[k + 1]) && conduit_at(devices, pp[k + 1]) by {
        if k < pp.len() - 2 {
            assert(pp[k] == base[k]);
            assert(pp[k + 1] == base[k + 1]);
        } else {
            assert(pp[k] == base.last());
            assert(pp[k + 1] == q);
        }
    }
}

/// Every cell reached by a conduit path from `first` is in a closed visited list.
proof fn lemma_closed_covers_paths(devices: Seq<DeviceState>, first: CellPos, visited: Seq<CellPos>, path: Seq<CellPos>)
    requires
        visited.contains(first),
        forall|v: CellPos, q: CellPos| #![trigger visited.contains(v), adjacent_spec(v, q)] visited.contains(v) && adjacent_spec(v, q) && conduit_at(devices, q) ==> visited.contains(q),
        conduit_path(devices, first, path),
    ensures
        visited.contains(path.last()),
    decreases path.len(),
{
    if path.len() > 1 {
        let shorter = path.drop_last();
        assert(conduit_path(devices, first, shorter)) by {
            assert forall|k: int| 0 <= k < shorter.len() - 1 implies adjacent_spec(#[trigger] shorter[k], shorter[k + 1]) && conduit_at(devices, shorter[k + 1]) by {
                assert(shorter[k] == path[k]);
                assert(shorter[k + 1] == path[k + 1]);
            }
        }
        lemma_closed_covers_paths(devices, first, visited, shorter);
        let k = path.len() - 2;
        assert(adjacent_spec(path[k], path[k + 1]) && conduit_at(devices, path[k + 1]));
        assert(shorter.last() == path[k]);
    }
}

/// Whether a chain of pipes and channels links cell `first` to a cell beside `second`:
/// a search from `first` through conduits adjacent to cells already reached.
#[verifier::spinoff_prover]
#[verifier::rlimit(40)]
pub fn pipe_connected(devices: &[DeviceState], first: CellPos, second: CellPos) -> (connected: bool)
    ensures
        connected == pipe_connected_spec(devices@, first, second),
{
    let ghost n = devices@.len();
    let ghost candidates = devices@.map(|i: int, d: DeviceState| d.anchor).push(first);
    let mut frontier: Vec<CellPos> = Vec::new();
    frontier.push(first);
    let mut visited: Vec<CellPos> = Vec::new();
    let ghost mut paths: Map<CellPos, Seq<CellPos>> = Map::empty().insert(first, seq![first]);
    proof {
        assert(conduit_path(devices@, first, seq![first]));
        assert(candidates[n as int] == first);
        assert(frontier@.contains(first)) by {
            assert(frontier@[0] == first);
        }
    }
    while frontier.len() > 0
        invariant
            candidates == devices@.map(|i: int, d: DeviceState| d.anchor).push(first),
            n == devices@.len(),
            visited@.no_duplicates(),
            forall|v: CellPos| #[trigger] visited@.contains(v) ==> candidates.contains(v),
            forall|v: CellPos| #[trigger] frontier@.contains(v) ==> candidates.contains(v),
            visited@.contains(first) || frontier@.contains(first),
            forall|v: CellPos| visited@.contains(v) || frontier@.contains(v) ==> #[trigger] paths.contains_key(v)
                && conduit_path(devices@, first, paths[v]) && paths[v].last() == v,
            forall|v: CellPos, q: CellPos| #![trigger visited@.contains(v), adjacent_spec(v, q)] visited@.contains(v) && adjacent_spec(v, q) && conduit_at(devices@, q)
                ==> visited@.contains(q) || frontier@.contains(q),
            forall|v: CellPos| #[trigger] visited@.contains(v) ==> !adjacent_spec(v, second),
        decreases n + 1 - visited@.len(), frontier@.len(),
    {
        proof {
            visited@.unique_seq_to_set();
            candidates.lemma_cardinality_of_set();
            vstd::set_lib::lemma_len_subset(visited@.to_set(), candidates.to_set());
            vstd::seq_lib::seq_to_set_is_finite(candidates);
        }
        let ghost frontier_full = frontier@;
        let position = frontier.pop().unwrap();
        proof {
            assert(frontier_full == frontier@.push(position));
            assert forall|v: CellPos| frontier_full.contains(v) implies frontier@.contains(v) || v == position by {
                let j = choose|j: int| 0 <= j < frontier_full.len() && frontier_full[j] == v;
                if j < frontier@.len() {
                    assert(frontier@[j] == v);
                }
            }
            assert forall|v: CellPos| #[trigger] frontier@.contains(v) implies frontier_full.contains(v) by {
                let j = choose|j: int| 0 <= j < frontier@.len() && frontier@[j] == v;
                assert(frontier_full[j] == v);
            }
            assert(frontier_full.contains(position)) by {
                assert(frontier_full[frontier_full.len() - 1] == position);
            }
        }
        if contains_pos(&visited, position) {
            proof {
                assert forall|v: CellPos| visited@.contains(v) || frontier@.contains(v) implies #[trigger] paths.contains_key(v)
                    && conduit_path(devices@, first, paths[v]) && paths[v].last() == v by {
                    if frontier@.contains(v) {
                        assert(frontier_full.contains(v));
                    }
                }
                assert forall|v: CellPos, q: CellPos| #![trigger visited@.contains(v), adjacent_spec(v, q)] visited@.contains(v) && adjacent_spec(v, q) && conduit_at(devices@, q)
                    implies visited@.contains(q) || frontier@.contains(q) by {
                    if frontier_full.contains(q) {
                    }
                }
            }
            continue;
        }
        let ghost visited_before = visited@;
        let ghost frontier_before = frontier@;
        proof {
            assert(paths.contains_key(position));
            assert(candidates.contains(position));
        }
        visited.push(position);
        proof {
            assert forall|v: CellPos| #[trigger] visited@.contains(v) implies v == position || visited_before.contains(v) by {
                let j = choose|j: int| 0 <= j < visited@.len() && visited@[j] == v;
                if j < visited_before.len() {
                    assert(visited_before[j] == v);
                }
            }
            assert forall|v: CellPos| #[trigger] visited_before.contains(v) implies visited@.contains(v) by {
                let j = choose|j: int| 0 <= j < visited_before.len() && visited_before[j] == v;
                assert(visited@[j] == v);
            }
            assert(visited@.contains(position)) by {
                assert(visited@[visited@.len() - 1] == position);
            }
        }
        if adjacent(position, second) {
            proof {
                assert(paths.contains_key(position));
            }
            return true;
        }
        let mut i: usize = 0;
        while i < devices.len()
            invariant
                i <= devices@.len(),
                candidates == devices@.map(|i: int, d: DeviceState| d.anchor).push(first),
                n == devices@.len(),
                visited@ == visited_before.push(position),
                frontier@.len() >= frontier_before.len(),
                forall|v: CellPos| frontier_before.contains(v) ==> #[trigger] frontier@.contains(v),
                forall|v: CellPos| #[trigger] frontier@.contains(v) ==> candidates.contains(v),
                forall|v: CellPos| visited@.contains(v) || frontier@.contains(v) ==> #[trigger] paths.contains_key(v)
                    && conduit_path(devices@, first, paths[v]) && paths[v].last() == v,
                forall|j: int| 0 <= j < i && is_conduit_spec(#[trigger] devices@[j].device) && adjacent_spec(position, devices@[j].anchor)
                    ==> visited@.contains(devices@[j].anchor) || frontier@.contains(devices@[j].anchor),
            decreases devices@.len() - i,
        {
            let pipe = devices[i];
            if is_conduit(pipe.device) && adjacent(position, pipe.anchor) && !contains_pos(&visited, pipe.anchor) {
                proof {
                    assert(candidates[i as int] == pipe.anchor);
                    assert(visited@.contains(position)) by {
                        assert(visited@[visited@.len() - 1] == position);
                    }
                    let ghost paths_prev = paths;
                    if !(visited@.contains(pipe.anchor) || frontier@.contains(pipe.anchor)) {
                        assert(paths.contains_key(position));
                        let base = paths[position];
                        assert(conduit_path(devices@, first, base));
                        assert(conduit_at(devices@, pipe.anchor)) by {
                            assert(devices@[i as int].anchor == pipe.anchor);
                        }
                        lemma_extend_path(devices@, first, base, pipe.anchor);
                        let pp = base.push(pipe.anchor);
                        paths = paths.insert(pipe.anchor, pp);
                    }
                }
                let ghost frontier_prev = frontier@;
                frontier.push(pipe.anchor);
                proof {
                    assert(candidates.contains(pipe.anchor)) by {
                        assert(candidates[i as int] == pipe.anchor);
                    }
                    assert forall|v: CellPos| frontier_prev.contains(v) implies #[trigger] frontier@.contains(v) by {
                        let j = choose|j: int| 0 <= j < frontier_prev.len() && frontier_prev[j] == v;
                        assert(frontier@[j] == v);
                    }
                    assert forall|v: CellPos| #[trigger] frontier@.contains(v) implies frontier_prev.contains(v) || v == pipe.anchor by {
                        let j = choose|j: int| 0 <= j < frontier@.len() && frontier@[j] == v;
                        if j < frontier_prev.len() {
                            assert(frontier_prev[j] == v);
                        }
                    }
                    assert(frontier@.contains(pipe.anchor)) by {
                        assert(frontier@[frontier@.len() - 1] == pipe.anchor);
                    }
                    assert forall|v: CellPos| visited@.contains(v) || frontier@.contains(v) implies #[trigger] paths.contains_key(v)
                        && conduit_path(devices@, first, paths[v]) && paths[v].last() == v by {
                        if v != pipe.anchor {
                            assert(visited@.contains(v) || frontier_prev.contains(v));
                        }
                    }
                }
            }
            i = i + 1;
        }
        proof {
            assert forall|v: CellPos, q: CellPos| #![trigger visited@.contains(v), adjacent_spec(v, q)] visited@.contains(v) && adjacent_spec(v, q) && conduit_at(devices@, q)
                implies visited@.contains(q) || frontier@.contains(q) by {
                if v == position {
                    let j = choose|j: int| 0 <= j < devices@.len() && is_conduit_spec(devices@[j].device) && #[trigger] devices@[j].anchor == q;
                    assert(is_conduit_spec(devices@[j].device) && adjacent_spec(position, devices@[j].anchor));
                } else {
                    assert(visited_before.contains(v));
                    assert(visited_before.contains(q) || frontier_full.contains(q));
                    if visited_before.contains(q) {
                        assert(visited@.contains(q));
                    } else if q == position {
                    } else {
                        assert(frontier_before.contains(q));
                        assert(frontier@.contains(q));
                    }
                }
            }
            assert(visited@.no_duplicates());
            visited@.unique_seq_to_set();
            vstd::set_lib::lemma_len_subset(visited@.to_set(), candidates.to_set());
        }
    }
    proof {
        assert forall|path: Seq<CellPos>| #[trigger] conduit_path(devices@, first, path) implies !adjacent_spec(path.last(), second) by {
            lemma_closed_covers_paths(devices@, first, visited@, path);
        }
    }
    false
}

/// A device that can receive conduit output: not a conduit, not a pump, and not
/// the excluded anchor.
pub open spec fn receives_output(device: DeviceState, excluded_anchor: Option<CellPos>) -> bool {
    &&& !is_conduit_spec(device.device)
    &&& device.device != DeviceId::Pump
    &&& excluded_anchor != Some(device.anchor)
}

/// Among devices that receive output and border `position`, the one with the least
/// entity id (the first such on ties).
fn receiving_device(devices: &[DeviceState], position: CellPos, excluded_anchor: Option<CellPos>) -> (found: Option<usize>)
    requires
        forall|i: int| 0 <= i < devices@.len() ==> (#[trigger] devices@[i]).anchor.x + 1 <= u16::MAX
            && devices@[i].anchor.y + 1 <= u16::MAX,
    ensures
        match found {
            Some(i) => {
                &&& i < devices@.len()
                &&& receives_output(devices@[i as int], excluded_anchor)
                &&& adjacent_to_footprint_spec(position, devices@[i as int])
                &&& forall|j: int| 0 <= j < devices@.len() && receives_output(#[trigger] devices@[j], excluded_anchor)
                    && adjacent_to_footprint_spec(position, devices@[j]) ==> devices@[i as int].entity_id <= devices@[j].entity_id
                        && (devices@[i as int].entity_id == devices@[j].entity_id ==> i <= j)
            },
            None => forall|j: int| 0 <= j < devices@.len() ==> !(receives_output(#[trigger] devices@[j], excluded_anchor)
                && adjacent_to_footprint_spec(position, devices@[j])),
        },
{
    let mut best: Option<usize> = None;
    let mut i: usize = 0;
    while i < devices.len()
        invariant
            i <= devices@.len(),
            forall|k: int| 0 <= k < devices@.len() ==> (#[trigger] devices@[k]).anchor.x + 1 <= u16::MAX
                && devices@[k].anchor.y + 1 <= u16::MAX,
            match best {
                Some(b) => {
                    &&& b < i
                    &&& receives_output(devices@[b as int], excluded_anchor)
                    &&& adjacent_to_footprint_spec(position, devices@[b as int])
                    &&& forall|j: int| 0 <= j < i && receives_output(#[trigger] devices@[j], excluded_anchor)
                        && adjacent_to_footprint_spec(position, devices@[j]) ==> devices@[b as int].entity_id <= devices@[j].entity_id
                            && (devices@[b as int].entity_id == devices@[j].entity_id ==> b <= j)
                },
                None => forall|j: int| 0 <= j < i ==> !(receives_output(#[trigger] devices@[j], excluded_anchor)
                    && adjacent_to_footprint_spec(position, devices@[j])),
            },
        decreases devices@.len() - i,
    {
        let device = devices[i];
        let qualifies = !is_conduit(device.device) && device.device != DeviceId::Pump
            && !(match excluded_anchor { Some(a) => a == device.anchor, None => false })
            && adjacent_to_footprint(position, &device);
        if qualifies {
            match best {
                Some(b) => {
                    if device.entity_id < devices[b].entity_id {
                        best = Some(i);
                    }
                },
                None => {
                    best = Some(i);
                },
            }
        }
        i = i + 1;
    }
    best
}

/// Whether a conduit is anchored at `p`.
fn has_conduit_at(devices: &[DeviceState], p: CellPos) -> (r: bool)
    ensures
        r == conduit_at(devices@, p),
{
    let mut i: usize = 0;
    while i < devices.len()
        invariant
            i <= devices@.len(),
            forall|j: int| 0 <= j < i ==> !(is_conduit_spec(devices@[j].device) && #[trigger] devices@[j].anchor == p),
        decreases devices@.len() - i,
    {
        if is_conduit(devices[i].device) && devices[i].anchor == p {
            return true;
        }
        i = i + 1;
    }
    false
}

/// Some receiving device borders a cell that a conduit path from `start` reaches.
pub open spec fn feeds_device(devices: Seq<DeviceState>, start: CellPos, excluded_anchor: Option<CellPos>) -> bool {
    exists|i: int, path: Seq<CellPos>|
        0 <= i < devices.len() && #[trigger] conduit_path(devices, start, path) && receives_output(
            #[trigger] devices[i],
            excluded_anchor,
        ) && adjacent_to_footprint_spec(path.last(), devices[i])
}

/// No device that receives output and borders `cell` has a smaller entity id than
/// device `i`.
pub open spec fn least_receiver(devices: Seq<DeviceState>, cell: CellPos, excluded_anchor: Option<CellPos>, i: int) -> bool {
    forall|j: int|
        0 <= j < devices.len() && receives_output(#[trigger] devices[j], excluded_anchor) && adjacent_to_footprint_spec(
            cell,
            devices[j],
        ) ==> devices[i].entity_id <= devices[j].entity_id
}

/// The heading out of a run's last cell `cell`: `direction` when the run is the
/// single cell `start`, otherwise the step into `cell` from a neighbouring cell
/// that a conduit path from `start` reaches.
pub open spec fn exit_heading(devices: Seq<DeviceState>, start: CellPos, cell: CellPos, direction: (i16, i16), d: (i16, i16)) -> bool {
    ||| cell == start && d == direction
    ||| exists|path: Seq<CellPos>|
        #[trigger] conduit_path(devices, start, path) && adjacent_spec(path.last(), cell) && d.0 == cell.x - path.last().x
            && d.1 == cell.y - path.last().y
}

/// The recorded predecessor of a search entry: none for `start`, otherwise an
/// explored neighbour.
pub open spec fn came_from(visited: Seq<CellPos>, start: CellPos, entry: (CellPos, Option<CellPos>, u32)) -> bool {
    match entry.1 {
        None => entry.0 == start,
        Some(q) => visited.contains(q) && adjacent_spec(q, entry.0),
    }
}

/// Some cell of the search frontier is `q`.
pub open spec fn in_frontier(frontier: Seq<(CellPos, Option<CellPos>, u32)>, q: CellPos) -> bool {
    exists|k: int| 0 <= k < frontier.len() && (#[trigger] frontier[k]).0 == q
}

/// Where material entering the conduit run at `start` comes out: the anchor of the
/// first receiving device (least entity id) beside a cell the search reaches, or,
/// when the run ends without one, one step beyond the farthest cell reached, in
/// the direction of its last segment (or `direction` when the run is a single
/// cell). `None` when no conduit is anchored at `start`. The result is a device
/// exactly when some receiving device borders a cell that a conduit path from
/// `start` reaches, and it has the least entity id among the receiving devices
/// bordering the cell where the search stopped; otherwise the exit is one step out
/// of a reached cell in the heading from a reached neighbour into it (see
/// `exit_heading`). Which reached cell the search stops at, and which counts as
/// farthest, follow the search order and are not stated.
pub fn pipe_endpoint(devices: &[DeviceState], start: CellPos, direction: (i16, i16), excluded_anchor: Option<CellPos>)
    -> (endpoint: Option<CellPos>)
    requires
        devices@.len() <= 16_777_216,
        forall|i: int| 0 <= i < devices@.len() ==> (#[trigger] devices@[i]).anchor.x + 1 <= u16::MAX
            && devices@[i].anchor.y + 1 <= u16::MAX,
    ensures
        endpoint is None <==> !conduit_at(devices@, start),
        match endpoint {
            Some(p) => if feeds_device(devices@, start, excluded_anchor) {
                exists|i: int, path: Seq<CellPos>|
                    0 <= i < devices@.len() && #[trigger] conduit_path(devices@, start, path) && receives_output(
                        #[trigger] devices@[i],
                        excluded_anchor,
                    ) && adjacent_to_footprint_spec(path.last(), devices@[i]) && devices@[i].anchor == p && least_receiver(devices@, path.last(), excluded_anchor, i)
            } else {
                exists|path: Seq<CellPos>, d: (i16, i16)|
                    conduit_path(devices@, start, path) && #[trigger] step_spec(path.last(), d) == p && exit_heading(
                        devices@,
                        start,
                        path.last(),
                        direction,
                        d,
                    )
            },
            None => true,
        },
{
    if !has_conduit_at(devices, start) {
        return None;
    }
    let ghost n = devices@.len();
    let ghost candidates = devices@.map(|i: int, d: DeviceState| d.anchor).push(start);
    let mut frontier: Vec<(CellPos, Option<CellPos>, u32)> = Vec::new();
    frontier.push((start, None, 0));
    let mut visited: Vec<CellPos> = Vec::new();
    let mut farthest: (CellPos, Option<CellPos>, u32) = (start, None, 0);
    let ghost mut paths: Map<CellPos, Seq<CellPos>> = Map::empty().insert(start, seq![start]);
    proof {
        assert(candidates[n as int] == start);
        assert(conduit_path(devices@, start, seq![start]));
        assert(in_frontier(frontier@, start)) by {
            assert(frontier@[0].0 == start);
        }
    }
    while frontier.len() > 0
        invariant
            candidates == devices@.map(|i: int, d: DeviceState| d.anchor).push(start),
            n == devices@.len(),
            n <= 16_777_216,
            forall|i: int| 0 <= i < devices@.len() ==> (#[trigger] devices@[i]).anchor.x + 1 <= u16::MAX
                && devices@[i].anchor.y + 1 <= u16::MAX,
            visited@.no_duplicates(),
            visited@.len() <= n + 1,
            forall|v: CellPos| #[trigger] visited@.contains(v) ==> candidates.contains(v),
            forall|k: int| 0 <= k < frontier@.len() ==> candidates.contains((#[trigger] frontier@[k]).0)
                && frontier@[k].2 <= visited@.len() && (frontier@[k].0 == start || conduit_at(devices@, frontier@[k].0)),
            farthest.0 == start || conduit_at(devices@, farthest.0),
            farthest.2 <= visited@.len(),
            conduit_at(devices@, start),
            visited@.contains(start) || in_frontier(frontier@, start),
            forall|v: CellPos| visited@.contains(v) || in_frontier(frontier@, v) || v == start || v == farthest.0
                ==> #[trigger] paths.contains_key(v) && conduit_path(devices@, start, paths[v]) && paths[v].last() == v,
            forall|v: CellPos, q: CellPos| #![trigger visited@.contains(v), adjacent_spec(v, q)] visited@.contains(v) && adjacent_spec(v, q) && conduit_at(devices@, q)
                ==> visited@.contains(q) || in_frontier(frontier@, q),
            forall|v: CellPos, j: int| #[trigger] visited@.contains(v) && 0 <= j < devices@.len() ==> !(receives_output(
                #[trigger] devices@[j],
                excluded_anchor,
            ) && adjacent_to_footprint_spec(v, devices@[j])),
            forall|k: int| 0 <= k < frontier@.len() ==> came_from(visited@, start, #[trigger] frontier@[k]),
            came_from(visited@, start, farthest),
        decreases n + 1 - visited@.len(), frontier@.len(),
    {
        let ghost frontier_full = frontier@;
        let (position, previous, distance) = frontier.pop().unwrap();
        proof {
            assert(frontier_full == frontier@.push((position, previous, distance)));
            assert forall|q: CellPos| in_frontier(frontier_full, q) implies in_frontier(frontier@, q) || q == position by {
                let k = choose|k: int| 0 <= k < frontier_full.len() && (#[trigger] frontier_full[k]).0 == q;
                if k < frontier@.len() {
                    assert(frontier@[k].0 == q);
                }
            }
            assert forall|q: CellPos| in_frontier(frontier@, q) implies in_frontier(frontier_full, q) by {
                let k = choose|k: int| 0 <= k < frontier@.len() && (#[trigger] frontier@[k]).0 == q;
                assert(frontier_full[k].0 == q);
            }
            assert(in_frontier(frontier_full, position)) by {
                assert(frontier_full[frontier_full.len() - 1].0 == position);
            }
        }
        if contains_pos(&visited, position) {
            continue;
        }
        proof {
            assert(candidates.contains(position));
        }
        let ghost visited_before = visited@;
        visited.push(position);
        proof {
            assert forall|v: CellPos| #[trigger] visited@.contains(v) implies v == position || visited_before.contains(v) by {
                let j = choose|j: int| 0 <= j < visited@.len() && visited@[j] == v;
                if j < visited_before.len() {
                    assert(visited_before[j] == v);
                }
            }
            assert forall|v: CellPos| #[trigger] visited_before.contains(v) implies visited@.contains(v) by {
                let j = choose|j: int| 0 <= j < visited_before.len() && visited_before[j] == v;
                assert(visited@[j] == v);
            }
            assert(visited@.contains(position)) by {
                assert(visited@[visited@.len() - 1] == position);
            }
            assert forall|v: CellPos| #[trigger] visited@.contains(v) implies candidates.contains(v) by {
                if v != position {
                    assert(visited_before.contains(v));
                }
            }
            assert(visited@.no_duplicates());
            visited@.unique_seq_to_set();
            candidates.lemma_cardinality_of_set();
            vstd::set_lib::lemma_len_subset(visited@.to_set(), candidates.to_set());
            vstd::seq_lib::seq_to_set_is_finite(candidates);
            let j = choose|j: int| 0 <= j < candidates.len() && candidates[j] == position;
            if j < n {
                assert(candidates[j] == devices@[j].anchor);
            }
        }
        if distance > farthest.2 {
            farthest = (position, previous, distance);
        }
        if let Some(index) = receiving_device(devices, position, excluded_anchor) {
            proof {
                assert(paths.contains_key(position));
                let path = paths[position];
                assert(conduit_path(devices@, start, path));
                assert(receives_output(devices@[index as int], excluded_anchor));
                assert(least_receiver(devices@, path.last(), excluded_anchor, index as int));
            }
            return Some(devices[index].anchor);
        }
        let ghost frontier_before = frontier@;
        let mut i: usize = 0;
        while i < devices.len()
            invariant
                i <= devices@.len(),
                candidates == devices@.map(|i: int, d: DeviceState| d.anchor).push(start),
                n == devices@.len(),
                n <= 16_777_216,
                visited@.len() <= n + 1,
                distance < visited@.len(),
                visited@.contains(position),
                forall|k: int| 0 <= k < frontier@.len() ==> candidates.contains((#[trigger] frontier@[k]).0)
                    && frontier@[k].2 <= visited@.len() && (frontier@[k].0 == start || conduit_at(devices@, frontier@[k].0)),
                forall|q: CellPos| in_frontier(frontier_before, q) ==> in_frontier(frontier@, q),
                forall|v: CellPos| visited@.contains(v) || in_frontier(frontier@, v) || v == start || v == farthest.0
                    ==> #[trigger] paths.contains_key(v) && conduit_path(devices@, start, paths[v]) && paths[v].last() == v,
                forall|j: int| 0 <= j < i && is_conduit_spec(#[trigger] devices@[j].device) && adjacent_spec(position, devices@[j].anchor)
                    ==> in_frontier(frontier@, devices@[j].anchor),
                forall|k: int| 0 <= k < frontier@.len() ==> came_from(visited@, start, #[trigger] frontier@[k]),
            decreases devices@.len() - i,
        {
            let pipe = devices[i];
            if is_conduit(pipe.device) && adjacent(position, pipe.anchor) {
                proof {
                    assert(candidates[i as int] == pipe.anchor);
                    assert(devices@[i as int].anchor == pipe.anchor);
                    assert(conduit_at(devices@, pipe.anchor));
                    assert(paths.contains_key(position));
                    if !paths.contains_key(pipe.anchor) {
                        let base = paths[position];
                        lemma_extend_path(devices@, start, base, pipe.anchor);
                        paths = paths.insert(pipe.anchor, base.push(pipe.anchor));
                    } else if !(visited@.contains(pipe.anchor) || in_frontier(frontier@, pipe.anchor) || pipe.anchor == start
                        || pipe.anchor == farthest.0) {
                        let base = paths[position];
                        lemma_extend_path(devices@, start, base, pipe.anchor);
                        paths = paths.insert(pipe.anchor, base.push(pipe.anchor));
                    }
                }
                let ghost frontier_prev = frontier@;
                frontier.push((pipe.anchor, Some(position), distance + 1));
                proof {
                    assert forall|q: CellPos| in_frontier(frontier_prev, q) implies in_frontier(frontier@, q) by {
                        let k = choose|k: int| 0 <= k < frontier_prev.len() && (#[trigger] frontier_prev[k]).0 == q;
                        assert(frontier@[k].0 == q);
                    }
                    assert forall|q: CellPos| in_frontier(frontier@, q) implies in_frontier(frontier_prev, q) || q == pipe.anchor by {
                        let k = choose|k: int| 0 <= k < frontier@.len() && (#[trigger] frontier@[k]).0 == q;
                        if k < frontier_prev.len() {
                            assert(frontier_prev[k].0 == q);
                        }
                    }
                    assert(in_frontier(frontier@, pipe.anchor)) by {
                        assert(frontier@[frontier@.len() - 1].0 == pipe.anchor);
                    }
                }
            }
            i = i + 1;
        }
        proof {
            assert forall|v: CellPos, q: CellPos| #![trigger visited@.contains(v), adjacent_spec(v, q)] visited@.contains(v) && adjacent_spec(v, q) && conduit_at(devices@, q)
                implies visited@.contains(q) || in_frontier(frontier@, q) by {
                if v == position {
                    let j = choose|j: int| 0 <= j < devices@.len() && is_conduit_spec(devices@[j].device) && #[trigger] devices@[j].anchor == q;
                    assert(is_conduit_spec(devices@[j].device) && adjacent_spec(position, devices@[j].anchor));
                } else {
                    assert(visited_before.contains(v));
                    assert(visited_before.contains(q) || in_frontier(frontier_full, q));
                    if in_frontier(frontier_full, q) && q != position {
                        assert(in_frontier(frontier_before, q));
                    }
                }
            }
            assert forall|v: CellPos, j: int| #[trigger] visited@.contains(v) && 0 <= j < devices@.len() implies !(receives_output(
                #[trigger] devices@[j],
                excluded_anchor,
            ) && adjacent_to_footprint_spec(v, devices@[j])) by {
                if v != position {
                    assert(visited_before.contains(v));
                }
            }
        }
    }
    proof {
        assert forall|i: int, path: Seq<CellPos>|
            0 <= i < devices@.len() && #[trigger] conduit_path(devices@, start, path) && receives_output(
                #[trigger] devices@[i],
                excluded_anchor,
            ) implies !adjacent_to_footprint_spec(path.last(), devices@[i]) by {
            lemma_closed_covers_paths(devices@, start, visited@, path);
        }
        assert(paths.contains_key(farthest.0));
    }
    let exit_direction: (i16, i16) = match farthest.1 {
        Some(previous) => {
            let dx: i32 = farthest.0.x as i32 - previous.x as i32;
            let dy: i32 = farthest.0.y as i32 - previous.y as i32;
            let dx16 = #[verifier::truncate] (dx as i16);
            let dy16 = #[verifier::truncate] (dy as i16);
            (dx16, dy16)
        },
        None => direction,
    };
    let exit = step(farthest.0, exit_direction);
    proof {
        let path = paths[farthest.0];
        assert(conduit_path(devices@, start, path) && step_spec(path.last(), exit_direction) == exit);
        match farthest.1 {
            Some(q) => {
                assert(paths.contains_key(q));
                let path2 = paths[q];
                assert(conduit_path(devices@, start, path2) && path2.last() == q);
            },
            None => {},
        }
        assert(exit_heading(devices@, start, path.last(), direction, exit_direction));
    }
    Some(exit)
}

} // verus!
