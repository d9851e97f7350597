//! Fluid transport, reactions, phase changes and terrain products.

use vstd::prelude::*;

use super::entries::{
    after_removal, div_toward_zero, entries_wf, entry_of, fluid_volume, lemma_entry_at, lemma_volume_by_fluid, remove_fluid, seq_volume,
    volume, TEMPERATURE_LIMIT_DK,
};
use super::world::{neighbors_spec, same_apart_from_cells};
use super::{
    accepted_volume, cell_material, cell_products, cells_material, layer_after_add, lemma_cells_material_update,
    min_int, sat_sub, FluidEntry, FluidId, SimCell,
    SimulationWorld, CELL_CAPACITY_VU,
};
use crate::devices::network::adjacent_spec;
use crate::devices::{flow_factor_spec, gate_controls, small_pos};
use crate::state::{lemma_grid_index_bound, CellPos};

verus! {

/// Water that boils off a cell this tick: up to 150 vU of surface water at or above
/// the boiling point, no more than its air has room for.
pub open spec fn boiled_vu(c: SimCell) -> int {
    let w = match entry_of(c.surface@, FluidId::Water) {
        Some(e) => if e.temperature_dk >= super::WATER_BOIL_DK { min_int(e.volume_vu as int, 150) } else { 0 },
        None => 0,
    };
    min_int(w, sat_sub(CELL_CAPACITY_VU as int, seq_volume(c.airborne@) as int))
}

/// `after` is `before` with every surface entry's temperature relaxed toward `ambient`.
pub open spec fn relaxed_cell(before: SimCell, after: SimCell, ambient: i32) -> bool {
    &&& after == (SimCell { surface: after.surface, ..before })
    &&& after.surface@.len() == before.surface@.len()
    &&& forall|i: int| 0 <= i < after.surface@.len() ==> {
        let e = before.surface@[i];
        &&& (#[trigger] after.surface@[i]) == FluidEntry {
            temperature_dk: if e.temperature_dk == ambient {
                e.temperature_dk
            } else {
                relaxed_temperature(e.temperature_dk as int, ambient as int) as i32
            },
            ..e
        }
    }
}

/// Water and lava that react in a cell: the lesser of the two, at most 250 vU, no
/// more than its air has room for.
pub open spec fn water_lava_vu(c: SimCell) -> int {
    min_int(
        min_int(min_int(fluid_volume(c.surface@, FluidId::Water) as int, fluid_volume(c.surface@, FluidId::Lava) as int), 250),
        sat_sub(CELL_CAPACITY_VU as int, seq_volume(c.airborne@) as int),
    )
}

/// `after` is `before` once `water_lava_vu(before)` of its water and of its lava
/// left the surface, that much 4730 dK steam entered its air, and as much pending
/// rock formed.
pub open spec fn water_lava_reacted(before: SimCell, after: SimCell) -> bool {
    let r = water_lava_vu(before);
    &&& r > 0 ==> {
        &&& entry_of(after.surface@, FluidId::Water) == after_removal(entry_of(before.surface@, FluidId::Water), r as u32)
        &&& entry_of(after.surface@, FluidId::Lava) == after_removal(entry_of(before.surface@, FluidId::Lava), r as u32)
        &&& entry_of(after.surface@, FluidId::Steam) == entry_of(before.surface@, FluidId::Steam)
        &&& entry_of(after.surface@, FluidId::ToxicSlurry) == entry_of(before.surface@, FluidId::ToxicSlurry)
        &&& layer_after_add(before.airborne@, after.airborne@, FluidEntry {
            fluid: FluidId::Steam, volume_vu: r as u32, temperature_dk: 4_730, contamination_bp: 0 }, r as u32)
        &&& after.pending_rock_vu == before.pending_rock_vu + r
    }
    &&& r == 0 ==> after == before
    &&& after == (SimCell {
        surface: after.surface,
        airborne: after.airborne,
        pending_rock_vu: after.pending_rock_vu,
        ..before
    })
}

/// Lava and slurry that vitrify in a cell: the lesser of the two, at most 120 vU.
pub open spec fn lava_slurry_vu(c: SimCell) -> int {
    min_int(min_int(fluid_volume(c.surface@, FluidId::Lava) as int, fluid_volume(c.surface@, FluidId::ToxicSlurry) as int), 120)
}

/// `after` is `before` once `lava_slurry_vu(before)` of its lava and of its slurry
/// left the surface, twice that became pending vitrified product, and its ground
/// contamination fell by five basis points per vU.
pub open spec fn lava_slurry_reacted(before: SimCell, after: SimCell) -> bool {
    let v = lava_slurry_vu(before);
    &&& v > 0 ==> {
        &&& entry_of(after.surface@, FluidId::Lava) == after_removal(entry_of(before.surface@, FluidId::Lava), v as u32)
        &&& entry_of(after.surface@, FluidId::ToxicSlurry) == after_removal(entry_of(before.surface@, FluidId::ToxicSlurry), v as u32)
        &&& entry_of(after.surface@, FluidId::Steam) == entry_of(before.surface@, FluidId::Steam)
        &&& entry_of(after.surface@, FluidId::Water) == entry_of(before.surface@, FluidId::Water)
        &&& after.pending_vitrified_vu == before.pending_vitrified_vu + 2 * v
        &&& after.ground_contamination_bp == sat_sub(before.ground_contamination_bp as int, 5 * v)
    }
    &&& v == 0 ==> after == before
    &&& after == (SimCell {
        surface: after.surface,
        pending_vitrified_vu: after.pending_vitrified_vu,
        ground_contamination_bp: after.ground_contamination_bp,
        ..before
    })
}

/// `after` is `before` once standing slurry on an unsealed floor raised its ground
/// contamination to the slurry's own.
pub open spec fn ground_contaminated(before: SimCell, after: SimCell) -> bool {
    after == (SimCell {
        ground_contamination_bp: match entry_of(before.surface@, FluidId::ToxicSlurry) {
            Some(e) => if !before.sealed && e.contamination_bp > before.ground_contamination_bp {
                e.contamination_bp
            } else {
                before.ground_contamination_bp
            },
            None => before.ground_contamination_bp,
        },
        ..before
    })
}

/// Standing slurry never stains a sealed floor: staining keeps the seal, never
/// lowers the ground's contamination, leaves a sealed floor's contamination as it
/// was, and raises an unsealed floor's only to that of the slurry standing on it.
pub proof fn law_sealed_floor_not_stained(before: SimCell, after: SimCell)
    requires
        ground_contaminated(before, after),
    ensures
        after.sealed == before.sealed,
        before.sealed ==> after.ground_contamination_bp == before.ground_contamination_bp,
        after.ground_contamination_bp >= before.ground_contamination_bp,
        after.ground_contamination_bp > before.ground_contamination_bp ==> {
            &&& !before.sealed
            &&& entry_of(before.surface@, FluidId::ToxicSlurry) matches Some(e)
            &&& after.ground_contamination_bp == e.contamination_bp
        },
{
}

/// A cell's reactions in a tick keep its seal and never raise a sealed floor's
/// ground contamination.
pub proof fn law_reactions_keep_sealed_floor_clean(before: SimCell, after: SimCell)
    requires
        reacted_cell(before, after),
    ensures
        after.sealed == before.sealed,
        before.sealed ==> after.ground_contamination_bp <= before.ground_contamination_bp,
{
    let (c1, c2) = choose|c1: SimCell, c2: SimCell| #[trigger] water_lava_reacted(before, c1) && #[trigger] lava_slurry_reacted(c1, c2)
        && ground_contaminated(c2, after);
    law_sealed_floor_not_stained(c2, after);
}

/// The reaction stage of a tick, where standing slurry stains the ground, keeps
/// every cell's seal and never raises the ground contamination of a sealed cell.
pub proof fn law_reaction_stage_keeps_sealed_floors(c0: Seq<SimCell>, c1: Seq<SimCell>)
    requires
        c1.len() == c0.len(),
        forall|i: int| 0 <= i < c1.len() ==> reacted_cell(c0[i], #[trigger] c1[i]),
    ensures
        forall|i: int| 0 <= i < c1.len() ==> (#[trigger] c1[i]).sealed == c0[i].sealed,
        forall|i: int| 0 <= i < c1.len() && c0[i].sealed ==> (#[trigger] c1[i]).ground_contamination_bp <= c0[i].ground_contamination_bp,
{
    assert forall|i: int| 0 <= i < c1.len() implies (#[trigger] c1[i]).sealed == c0[i].sealed && (c0[i].sealed
        ==> c1[i].ground_contamination_bp <= c0[i].ground_contamination_bp) by {
        law_reactions_keep_sealed_floor_clean(c0[i], c1[i]);
    }
}

/// Steam that condenses in a cell whose ambient temperature is `ambient`: at or
/// below boiling, up to 200 vU of airborne steam, no more than its surface has room for.
pub open spec fn condensed_vu(c: SimCell, ambient: i32) -> int {
    if ambient <= super::WATER_BOIL_DK {
        min_int(min_int(fluid_volume(c.airborne@, FluidId::Steam) as int, 200), sat_sub(CELL_CAPACITY_VU as int, seq_volume(c.surface@) as int))
    } else {
        0
    }
}

/// `after` is `before` once `condensed_vu` of its steam left the air and entered its
/// surface as water.
pub open spec fn condensed_cell(before: SimCell, after: SimCell, ambient: i32) -> bool {
    let a = condensed_vu(before, ambient);
    &&& a == 0 ==> after == before
    &&& a > 0 ==> {
        &&& same_but_layers(before, after)
        &&& entry_of(after.airborne@, FluidId::Steam) == after_removal(entry_of(before.airborne@, FluidId::Steam), a as u32)
        &&& layer_after_add(before.surface@, after.surface@, super::fresh_entry(FluidId::Water, a as u32), a as u32)
    }
}

/// One planned steam move applied to `c0`, giving `c1`: as much of `amount` as the
/// source holds in steam and the destination's air has room for leaves the
/// source's air and enters the destination's.
pub open spec fn steam_move_applied(c0: Seq<SimCell>, c1: Seq<SimCell>, m: (usize, usize, u32)) -> bool {
    let (source, destination, amount) = m;
    let available = fluid_volume(c0[source as int].airborne@, FluidId::Steam) as int;
    let room = sat_sub(CELL_CAPACITY_VU as int, seq_volume(c0[destination as int].airborne@) as int);
    let moved = min_int(min_int(amount as int, available), room);
    &&& moved == 0 ==> c1 == c0
    &&& moved > 0 ==> exists|mid: Seq<SimCell>| {
        &&& mid == c0.update(source as int, mid[source as int])
        &&& mid[source as int] == (SimCell { airborne: mid[source as int].airborne, ..c0[source as int] })
        &&& #[trigger] entry_of(mid[source as int].airborne@, FluidId::Steam)
            == after_removal(entry_of(c0[source as int].airborne@, FluidId::Steam), moved as u32)
        &&& c1 == mid.update(destination as int, c1[destination as int])
        &&& c1[destination as int] == (SimCell { airborne: c1[destination as int].airborne, ..mid[destination as int] })
        &&& layer_after_add(mid[destination as int].airborne@, c1[destination as int].airborne@,
            super::fresh_entry(FluidId::Steam, moved as u32), moved as u32)
    }
}

/// One planned surface transfer applied to `c0`, giving `c1`: as much of its amount
/// as the source holds of the fluid and the destination's surface has room for
/// leaves the source and enters the destination with the planned temperature and
/// contamination.
pub open spec fn transfer_applied(c0: Seq<SimCell>, c1: Seq<SimCell>, t: SurfaceTransfer) -> bool {
    let (source, destination, fluid, amount, temp, contamination) = t;
    let available = fluid_volume(c0[source as int].surface@, fluid) as int;
    let room = sat_sub(CELL_CAPACITY_VU as int, seq_volume(c0[destination as int].surface@) as int);
    let moved = min_int(min_int(amount as int, available), room);
    &&& moved == 0 ==> c1 == c0
    &&& moved > 0 ==> exists|mid: Seq<SimCell>| {
        &&& mid == c0.update(source as int, mid[source as int])
        &&& mid[source as int] == (SimCell { surface: mid[source as int].surface, ..c0[source as int] })
        &&& #[trigger] entry_of(mid[source as int].surface@, fluid)
            == after_removal(entry_of(c0[source as int].surface@, fluid), moved as u32)
        &&& forall|g: FluidId| g != fluid ==> #[trigger] entry_of(mid[source as int].surface@, g) == entry_of(c0[source as int].surface@, g)
        &&& c1 == mid.update(destination as int, c1[destination as int])
        &&& c1[destination as int] == (SimCell { surface: c1[destination as int].surface, ..mid[destination as int] })
        &&& layer_after_add(mid[destination as int].surface@, c1[destination as int].surface@,
            FluidEntry { fluid, volume_vu: moved as u32, temperature_dk: temp, contamination_bp: contamination }, moved as u32)
    }
}

/// The cells `cs` before and after each of `transfers` in order.
pub open spec fn transfer_steps(cs: Seq<Seq<SimCell>>, transfers: Seq<SurfaceTransfer>) -> bool {
    &&& cs.len() == transfers.len() + 1
    &&& forall|k: int| 0 <= k < transfers.len() ==> transfer_applied(#[trigger] cs[k], cs[k + 1], transfers[k])
}

/// `c1` is `c0` after applying `transfers` in order.
pub open spec fn transfers_applied(c0: Seq<SimCell>, c1: Seq<SimCell>, transfers: Seq<SurfaceTransfer>) -> bool {
    exists|cs: Seq<Seq<SimCell>>| #[trigger] transfer_steps(cs, transfers) && cs[0] == c0 && cs.last() == c1
}

/// The cells `cs` before and after each of `moves` in order.
pub open spec fn steam_move_steps(cs: Seq<Seq<SimCell>>, moves: Seq<(usize, usize, u32)>) -> bool {
    &&& cs.len() == moves.len() + 1
    &&& forall|k: int| 0 <= k < moves.len() ==> steam_move_applied(#[trigger] cs[k], cs[k + 1], moves[k])
}

/// `c1` is `c0` after applying `moves` in order.
pub open spec fn steam_moves_applied(c0: Seq<SimCell>, c1: Seq<SimCell>, moves: Seq<(usize, usize, u32)>) -> bool {
    exists|cs: Seq<Seq<SimCell>>| #[trigger] steam_move_steps(cs, moves) && cs[0] == c0 && cs.last() == c1
}

/// `w1` is `w0` after its surface moved by the tick's planned transfers (see
/// `planned_surface`), applied in order.
pub open spec fn surface_flowed(w0: SimulationWorld, w1: SimulationWorld) -> bool {
    transfers_applied(w0.cells@, w1.cells@, planned_surface(w0))
}

/// The most of a surface that leaves its cell in one tick: the smallest per-tick
/// limit among its fluids (none for an empty surface).
pub open spec fn surface_limit(s: Seq<FluidEntry>) -> u32
    decreases s.len(),
{
    if s.len() == 0 {
        0
    } else if s.len() == 1 {
        s[0].fluid.max_transfer_spec()
    } else {
        let rest = surface_limit(s.drop_last());
        let t = s.last().fluid.max_transfer_spec();
        if t < rest { t } else { rest }
    }
}

/// The weight of the open downhill edge from `pos` to `dest`: a quarter of the head
/// difference, scaled by the edge's floodgate factor in basis points.
pub open spec fn edge_weight(w: SimulationWorld, pos: CellPos, dest: CellPos) -> u32 {
    match (w.index_of(pos), w.index_of(dest)) {
        (Some(i), Some(j)) => {
            let s = w.cells@[i as int];
            let d = w.cells@[j as int];
            let delta = s.height_hu + seq_volume(s.surface@) - (d.height_hu + seq_volume(d.surface@));
            ((delta / 4) * flow_factor_spec(w.devices.devices@, pos, dest) / 10_000) as u32
        },
        _ => 0,
    }
}

/// The open downhill edges among the neighbours `ns` of `pos`, in order, each with
/// its weight.
pub open spec fn surface_options(w: SimulationWorld, pos: CellPos, ns: Seq<(CellPos, u8)>) -> Seq<(CellPos, u8, u32)>
    decreases ns.len(),
{
    if ns.len() == 0 {
        seq![]
    } else {
        let rest = surface_options(w, pos, ns.drop_last());
        let d = ns.last().0;
        if open_downhill(w, pos, d) {
            rest.push((d, ns.last().1, edge_weight(w, pos, d)))
        } else {
            rest
        }
    }
}

/// The summed weight of the edges.
pub open spec fn option_weights(opts: Seq<(CellPos, u8, u32)>) -> int
    decreases opts.len(),
{
    if opts.len() == 0 {
        0
    } else {
        option_weights(opts.drop_last()) + opts.last().2
    }
}

/// A surface split (see `split_from`) as transfers from `source` to `destination`.
pub open spec fn parts_transfers(source: usize, destination: usize, parts: Seq<(FluidId, u32, i32, u16)>) -> Seq<SurfaceTransfer> {
    Seq::new(parts.len(), |k: int| (source, destination, parts[k].0, parts[k].1, parts[k].2, parts[k].3))
}

/// `amount` of a cell's surface split across its fluids in proportion (see `mixture_split`).
pub open spec fn split_of(c: SimCell, amount: u32) -> Seq<(FluidId, u32, i32, u16)> {
    split_from(c.surface@, amount, seq_volume(c.surface@) as u32, 0,
        if amount <= seq_volume(c.surface@) { amount } else { seq_volume(c.surface@) as u32 })
}

/// An edge's share of the budget: in proportion to its weight, at most 400 vU.
pub open spec fn edge_amount(budget: u32, weight: u32, total_weight: int) -> u32 {
    let scaled = budget * weight / total_weight;
    if scaled <= 400 { scaled as u32 } else { 400 }
}

/// The transfers that the edges `opts` of the cell `source` receive in turn, and
/// the volume assigned to them.
pub open spec fn assigned_plan(w: SimulationWorld, source: usize, budget: u32, total_weight: int, opts: Seq<(CellPos, u8, u32)>)
    -> (Seq<SurfaceTransfer>, int)
    decreases opts.len(),
{
    if opts.len() == 0 {
        (seq![], 0)
    } else {
        let rest = assigned_plan(w, source, budget, total_weight, opts.drop_last());
        let o = opts.last();
        match w.index_of(o.0) {
            Some(d) => {
                let amount = edge_amount(budget, o.2, total_weight);
                (if amount > 0 { rest.0 + parts_transfers(source, d, split_of(w.cells@[source as int], amount)) } else { rest.0 },
                    rest.1 + amount)
            },
            None => rest,
        }
    }
}

/// The surface transfers planned for the cell at `pos`: its budget is its surface
/// volume, capped by the smallest per-tick limit of its fluids and by the summed
/// weight of its open downhill edges; each edge takes its share of the budget (see
/// `edge_amount`), the first edge takes what rounding leaves, and every share is
/// split across the cell's fluids in proportion.
pub open spec fn cell_plan(w: SimulationWorld, pos: CellPos) -> Seq<SurfaceTransfer> {
    match w.index_of(pos) {
        None => seq![],
        Some(si) => {
            let src = w.cells@[si as int];
            let total = seq_volume(src.surface@);
            let opts = surface_options(w, pos, neighbors_spec(w.width, w.height, pos));
            let tw = option_weights(opts);
            if total == 0 || tw == 0 {
                seq![]
            } else {
                let b0 = min_int(total as int, surface_limit(src.surface@) as int);
                let budget = min_int(b0, tw) as u32;
                let plan = assigned_plan(w, si, budget, tw, opts);
                if plan.1 < budget && opts.len() > 0 && w.index_of(opts[0].0) is Some {
                    plan.0 + parts_transfers(si, w.index_of(opts[0].0)->0, split_of(src, (budget - plan.1) as u32))
                } else {
                    plan.0
                }
            }
        },
    }
}

/// The plans of the first `x` cells of row `y`.
pub open spec fn row_plan(w: SimulationWorld, y: int, x: int) -> Seq<SurfaceTransfer>
    decreases x,
{
    if x <= 0 {
        seq![]
    } else {
        row_plan(w, y, x - 1) + cell_plan(w, CellPos { x: (x - 1) as u16, y: y as u16 })
    }
}

/// The plans of the first `y` rows.
pub open spec fn rows_plan(w: SimulationWorld, y: int) -> Seq<SurfaceTransfer>
    decreases y,
{
    if y <= 0 {
        seq![]
    } else {
        rows_plan(w, y - 1) + row_plan(w, y - 1, w.width as int)
    }
}

/// The surface transfers of one tick: every cell's plan (see `cell_plan`), in row order.
pub open spec fn planned_surface(w: SimulationWorld) -> Seq<SurfaceTransfer> {
    rows_plan(w, w.height as int)
}

/// A transfer runs from the cell at some position to the cell at an open downhill
/// neighbour of it (see `open_downhill`).
pub open spec fn along_open_edge(w: SimulationWorld, t: SurfaceTransfer) -> bool {
    exists|pos: CellPos, dest: CellPos|
        #[trigger] open_downhill(w, pos, dest) && w.index_of(pos) == Some(t.0) && w.index_of(dest) == Some(t.1)
}

/// Every offered edge is open and downhill.
proof fn lemma_options_open(w: SimulationWorld, pos: CellPos, ns: Seq<(CellPos, u8)>)
    ensures
        forall|k: int|
            0 <= k < surface_options(w, pos, ns).len() ==> open_downhill(w, pos, #[trigger] surface_options(w, pos, ns)[k].0),
    decreases ns.len(),
{
    if ns.len() > 0 {
        lemma_options_open(w, pos, ns.drop_last());
        let rest = surface_options(w, pos, ns.drop_last());
        let d = ns.last().0;
        if open_downhill(w, pos, d) {
            let all = rest.push((d, ns.last().1, edge_weight(w, pos, d)));
            assert(surface_options(w, pos, ns) == all);
            assert forall|k: int| 0 <= k < all.len() implies open_downhill(w, pos, #[trigger] all[k].0) by {
                if k < rest.len() {
                    assert(all[k] == rest[k]);
                }
            }
        } else {
            assert(surface_options(w, pos, ns) == rest);
        }
    }
}

/// The transfers of one split run along the edge they were made for.
proof fn lemma_parts_open(
    w: SimulationWorld,
    pos: CellPos,
    dest: CellPos,
    source: usize,
    destination: usize,
    parts: Seq<(FluidId, u32, i32, u16)>,
)
    requires
        open_downhill(w, pos, dest),
        w.index_of(pos) == Some(source),
        w.index_of(dest) == Some(destination),
    ensures
        forall|k: int|
            0 <= k < parts_transfers(source, destination, parts).len() ==> along_open_edge(
                w,
                #[trigger] parts_transfers(source, destination, parts)[k],
            ),
{
    assert forall|k: int| 0 <= k < parts_transfers(source, destination, parts).len() implies along_open_edge(
        w,
        #[trigger] parts_transfers(source, destination, parts)[k],
    ) by {
        let t = parts_transfers(source, destination, parts)[k];
        assert(t.0 == source && t.1 == destination);
        assert(open_downhill(w, pos, dest));
    }
}

/// Every transfer of an edge assignment runs along an open downhill edge.
proof fn lemma_assigned_open(w: SimulationWorld, pos: CellPos, si: usize, budget: u32, tw: int, opts: Seq<(CellPos, u8, u32)>)
    requires
        w.index_of(pos) == Some(si),
        forall|k: int| 0 <= k < opts.len() ==> open_downhill(w, pos, #[trigger] opts[k].0),
    ensures
        forall|k: int|
            0 <= k < assigned_plan(w, si, budget, tw, opts).0.len() ==> along_open_edge(
                w,
                #[trigger] assigned_plan(w, si, budget, tw, opts).0[k],
            ),
    decreases opts.len(),
{
    if opts.len() > 0 {
        let head = opts.drop_last();
        assert forall|k: int| 0 <= k < head.len() implies open_downhill(w, pos, #[trigger] head[k].0) by {
            assert(head[k] == opts[k]);
        }
        lemma_assigned_open(w, pos, si, budget, tw, head);
        let rest = assigned_plan(w, si, budget, tw, head);
        let o = opts.last();
        assert(open_downhill(w, pos, opts[opts.len() - 1].0));
        match w.index_of(o.0) {
            Some(d) => {
                let amount = edge_amount(budget, o.2, tw);
                if amount > 0 {
                    let parts = split_of(w.cells@[si as int], amount);
                    lemma_parts_open(w, pos, o.0, si, d, parts);
                    let whole = rest.0 + parts_transfers(si, d, parts);
                    assert forall|k: int| 0 <= k < whole.len() implies along_open_edge(w, #[trigger] whole[k]) by {
                        if k >= rest.0.len() {
                            assert(whole[k] == parts_transfers(si, d, parts)[k - rest.0.len()]);
                        } else {
                            assert(whole[k] == rest.0[k]);
                        }
                    }
                }
            },
            None => {},
        }
    }
}

/// Every transfer a cell plans runs along an open downhill edge.
proof fn lemma_cell_plan_open(w: SimulationWorld, pos: CellPos)
    ensures
        forall|k: int| 0 <= k < cell_plan(w, pos).len() ==> along_open_edge(w, #[trigger] cell_plan(w, pos)[k]),
{
    match w.index_of(pos) {
        None => {},
        Some(si) => {
            let src = w.cells@[si as int];
            let total = seq_volume(src.surface@);
            let opts = surface_options(w, pos, neighbors_spec(w.width, w.height, pos));
            let tw = option_weights(opts);
            if !(total == 0 || tw == 0) {
                let b0 = min_int(total as int, surface_limit(src.surface@) as int);
                let budget = min_int(b0, tw) as u32;
                lemma_options_open(w, pos, neighbors_spec(w.width, w.height, pos));
                lemma_assigned_open(w, pos, si, budget, tw, opts);
                let plan = assigned_plan(w, si, budget, tw, opts);
                if plan.1 < budget && opts.len() > 0 && w.index_of(opts[0].0) is Some {
                    let d = w.index_of(opts[0].0)->0;
                    let parts = split_of(src, (budget - plan.1) as u32);
                    assert(open_downhill(w, pos, opts[0].0));
                    lemma_parts_open(w, pos, opts[0].0, si, d, parts);
                    let whole = plan.0 + parts_transfers(si, d, parts);
                    assert forall|k: int| 0 <= k < whole.len() implies along_open_edge(w, #[trigger] whole[k]) by {
                        if k >= plan.0.len() {
                            assert(whole[k] == parts_transfers(si, d, parts)[k - plan.0.len()]);
                        } else {
                            assert(whole[k] == plan.0[k]);
                        }
                    }
                }
            }
        },
    }
}

/// Every transfer of a row's plans runs along an open downhill edge.
proof fn lemma_row_plan_open(w: SimulationWorld, y: int, x: int)
    ensures
        forall|k: int| 0 <= k < row_plan(w, y, x).len() ==> along_open_edge(w, #[trigger] row_plan(w, y, x)[k]),
    decreases x,
{
    if x > 0 {
        lemma_row_plan_open(w, y, x - 1);
        let pos = CellPos { x: (x - 1) as u16, y: y as u16 };
        lemma_cell_plan_open(w, pos);
        let a = row_plan(w, y, x - 1);
        let b = cell_plan(w, pos);
        assert forall|k: int| 0 <= k < (a + b).len() implies along_open_edge(w, #[trigger] (a + b)[k]) by {
            if k >= a.len() {
                assert((a + b)[k] == b[k - a.len()]);
            } else {
                assert((a + b)[k] == a[k]);
            }
        }
    }
}

/// Every transfer of the first rows' plans runs along an open downhill edge.
proof fn lemma_rows_plan_open(w: SimulationWorld, y: int)
    ensures
        forall|k: int| 0 <= k < rows_plan(w, y).len() ==> along_open_edge(w, #[trigger] rows_plan(w, y)[k]),
    decreases y,
{
    if y > 0 {
        lemma_rows_plan_open(w, y - 1);
        lemma_row_plan_open(w, y - 1, w.width as int);
        let a = rows_plan(w, y - 1);
        let b = row_plan(w, y - 1, w.width as int);
        assert forall|k: int| 0 <= k < (a + b).len() implies along_open_edge(w, #[trigger] (a + b)[k]) by {
            if k >= a.len() {
                assert((a + b)[k] == b[k - a.len()]);
            } else {
                assert((a + b)[k] == a[k]);
            }
        }
    }
}

/// Surface material moves only along open downhill edges: every planned surface
/// transfer of a tick (see `planned_surface`, which `flow_surface` applies) leaves
/// a cell for an adjacent one lower by more than 1 hU of ground and fluid, with
/// room below the cell capacity, a non-zero gate factor between them, and a
/// controlling gate where exactly one of them is contained.
pub proof fn law_surface_flow_uses_open_edges(w: SimulationWorld)
    ensures
        forall|k: int| 0 <= k < planned_surface(w).len() ==> along_open_edge(w, #[trigger] planned_surface(w)[k]),
{
    lemma_rows_plan_open(w, w.height as int);
}

/// A row's plan grows by one cell's.
proof fn lemma_row_plan_next(w: SimulationWorld, y: int, x: int)
    requires
        0 <= x < 65_535,
        0 <= y < 65_536,
    ensures
        row_plan(w, y, x + 1) == row_plan(w, y, x) + cell_plan(w, CellPos { x: x as u16, y: y as u16 }),
{
}

/// Surface material flows from the cell at `pos` to the neighbouring cell at `dest`
/// this tick: the edge is open downhill and its weight, a quarter of the head
/// difference scaled by the edge's floodgate factor, is positive.
pub open spec fn surface_opening(w: SimulationWorld, pos: CellPos, dest: CellPos) -> bool {
    &&& open_downhill(w, pos, dest)
    &&& match (w.index_of(pos), w.index_of(dest)) {
        (Some(i), Some(j)) => {
            let s = w.cells@[i as int];
            let d = w.cells@[j as int];
            let delta = s.height_hu + seq_volume(s.surface@) - (d.height_hu + seq_volume(d.surface@));
            (delta / 4) * flow_factor_spec(w.devices.devices@, pos, dest) / 10_000 > 0
        },
        _ => false,
    }
}

/// The cell at `pos` holds surface material and borders a cell it flows to.
pub open spec fn surface_can_flow(w: SimulationWorld, pos: CellPos) -> bool {
    &&& w.index_of(pos) is Some
    &&& seq_volume(w.cells@[w.index_of(pos)->0 as int].surface@) > 0
    &&& exists|n: int| 0 <= n < neighbors_spec(w.width, w.height, pos).len()
        && #[trigger] surface_opening(w, pos, neighbors_spec(w.width, w.height, pos)[n].0)
}

/// Some planned transfer leaves cell `c`.
pub open spec fn has_transfer_from(transfers: Seq<SurfaceTransfer>, c: int) -> bool {
    exists|k: int| 0 <= k < transfers.len() && (#[trigger] transfers[k]).0 == c
}

/// A positive split of a non-empty surface has at least one part.
proof fn lemma_split_from_nonempty(s: Seq<FluidEntry>, amount: u32, total: u32, i: int, remaining: u32)
    requires
        0 <= i < s.len(),
        remaining > 0,
        total > 0,
        forall|j: int| 0 <= j < s.len() ==> #[trigger] s[j].volume_vu > 0,
    ensures
        split_from(s, amount, total, i, remaining).len() > 0,
    decreases s.len() - i,
{
    let e = s[i];
    let proportional: int = if i + 1 == s.len() {
        remaining as int
    } else {
        (amount as int) * (e.volume_vu as int) / (total as int)
    };
    assert((amount as int) * (e.volume_vu as int) / (total as int) >= 0) by (nonlinear_arith)
        requires total > 0;
    let capped: int = if proportional <= e.volume_vu { proportional } else { e.volume_vu as int };
    let part: int = if capped > remaining { remaining as int } else { capped };
    if part <= 0 {
        assert(i + 1 < s.len());
        lemma_split_from_nonempty(s, amount, total, i + 1, (remaining - part) as u32);
    }
}

/// Splitting a positive amount of a cell with surface material gives a part.
proof fn lemma_split_nonempty(source: &SimCell, amount: u32)
    requires
        source.wf(),
        amount > 0,
        seq_volume(source.surface@) > 0,
    ensures
        split_from(source.surface@, amount, seq_volume(source.surface@) as u32, 0,
            if amount <= seq_volume(source.surface@) { amount } else { seq_volume(source.surface@) as u32 }).len() > 0,
{
    assert(source.surface@.len() > 0);
    lemma_split_from_nonempty(source.surface@, amount, seq_volume(source.surface@) as u32, 0,
        if amount <= seq_volume(source.surface@) { amount } else { seq_volume(source.surface@) as u32 });
}

/// The neighbours among `ns` that steam may move to from cell `si`, each with its
/// weight: a fifth of the difference in air volume, where positive.
pub open spec fn steam_options(w: SimulationWorld, si: usize, ns: Seq<(CellPos, u8)>) -> Seq<(usize, u32)>
    decreases ns.len(),
{
    if ns.len() == 0 {
        seq![]
    } else {
        let rest = steam_options(w, si, ns.drop_last());
        match w.index_of(ns.last().0) {
            Some(di) => {
                let sa = seq_volume(w.cells@[si as int].airborne@) as int;
                let ta = seq_volume(w.cells@[di as int].airborne@) as int;
                if !(ta >= sa || w.cells@[di as int].sealed || w.definitions@[di as int].gas_blocked) && (sa - ta) / 5 > 0 {
                    rest.push((di, ((sa - ta) / 5) as u32))
                } else {
                    rest
                }
            },
            None => rest,
        }
    }
}

/// The summed weight of steam options.
pub open spec fn steam_weights(opts: Seq<(usize, u32)>) -> int
    decreases opts.len(),
{
    if opts.len() == 0 {
        0
    } else {
        steam_weights(opts.drop_last()) + opts.last().1
    }
}

/// The moves the options `opts` of cell `si` receive in turn: each its share of the
/// budget in proportion to its weight, at most 300 vU; and the volume assigned.
pub open spec fn steam_assigned(si: usize, budget: u32, total_weight: int, opts: Seq<(usize, u32)>) -> (Seq<(usize, usize, u32)>, int)
    decreases opts.len(),
{
    if opts.len() == 0 {
        (seq![], 0)
    } else {
        let rest = steam_assigned(si, budget, total_weight, opts.drop_last());
        let o = opts.last();
        let scaled = budget * o.1 / total_weight;
        let amount: int = if scaled <= 300 { scaled } else { 300 };
        (if amount > 0 { rest.0.push((si, o.0, amount as u32)) } else { rest.0 }, rest.1 + amount)
    }
}

/// The steam moves planned for the cell at `pos`: one 300 vU budget (no more than
/// the cell's steam or the summed weights) shared across its options by weight,
/// with what rounding leaves going to the first option.
pub open spec fn steam_cell_plan(w: SimulationWorld, pos: CellPos) -> Seq<(usize, usize, u32)> {
    match w.index_of(pos) {
        None => seq![],
        Some(si) => {
            let steam = fluid_volume(w.cells@[si as int].airborne@, FluidId::Steam) as int;
            let opts = steam_options(w, si, neighbors_spec(w.width, w.height, pos));
            let tw = steam_weights(opts);
            let budget = min_int(min_int(steam, 300), tw);
            if steam == 0 || budget == 0 {
                seq![]
            } else {
                let plan = steam_assigned(si, budget as u32, tw, opts);
                if plan.1 < budget && opts.len() > 0 {
                    plan.0.push((si, opts[0].0, (budget - plan.1) as u32))
                } else {
                    plan.0
                }
            }
        },
    }
}

/// The steam plans of the first `x` cells of row `y`.
pub open spec fn steam_row_plan(w: SimulationWorld, y: int, x: int) -> Seq<(usize, usize, u32)>
    decreases x,
{
    if x <= 0 {
        seq![]
    } else {
        steam_row_plan(w, y, x - 1) + steam_cell_plan(w, CellPos { x: (x - 1) as u16, y: y as u16 })
    }
}

/// The steam plans of the first `y` rows.
pub open spec fn steam_rows_plan(w: SimulationWorld, y: int) -> Seq<(usize, usize, u32)>
    decreases y,
{
    if y <= 0 {
        seq![]
    } else {
        steam_rows_plan(w, y - 1) + steam_row_plan(w, y - 1, w.width as int)
    }
}

/// The steam moves of one tick: every cell's plan (see `steam_cell_plan`), in row order.
pub open spec fn planned_steam(w: SimulationWorld) -> Seq<(usize, usize, u32)> {
    steam_rows_plan(w, w.height as int)
}

/// A row's steam plan grows by one cell's.
proof fn lemma_steam_row_next(w: SimulationWorld, y: int, x: int)
    requires
        0 <= x < 65_535,
        0 <= y < 65_536,
    ensures
        steam_row_plan(w, y, x + 1) == steam_row_plan(w, y, x) + steam_cell_plan(w, CellPos { x: x as u16, y: y as u16 }),
{
}

/// Steam may move from the cell at `pos` to the neighbouring cell at `dest`: the
/// latter's air holds less, by at least 5 vU, and is neither sealed nor gas-blocked.
pub open spec fn steam_opening(w: SimulationWorld, pos: CellPos, dest: CellPos) -> bool {
    match (w.index_of(pos), w.index_of(dest)) {
        (Some(c), Some(d)) => {
            let sa = seq_volume(w.cells@[c as int].airborne@) as int;
            let ta = seq_volume(w.cells@[d as int].airborne@) as int;
            &&& ta < sa
            &&& !w.cells@[d as int].sealed
            &&& !w.definitions@[d as int].gas_blocked
            &&& (sa - ta) / 5 > 0
        },
        _ => false,
    }
}

/// The cell at `pos` holds steam and borders a cell it may move steam to.
pub open spec fn steam_can_leave(w: SimulationWorld, pos: CellPos) -> bool {
    &&& w.index_of(pos) is Some
    &&& fluid_volume(w.cells@[w.index_of(pos)->0 as int].airborne@, FluidId::Steam) > 0
    &&& exists|n: int| 0 <= n < neighbors_spec(w.width, w.height, pos).len()
        && #[trigger] steam_opening(w, pos, neighbors_spec(w.width, w.height, pos)[n].0)
}

/// Some planned move leaves cell `c`.
pub open spec fn has_move_from(moves: Seq<(usize, usize, u32)>, c: int) -> bool {
    exists|k: int| 0 <= k < moves.len() && (#[trigger] moves[k]).0 == c
}

/// `w1` is `w0` after steam moved by the tick's planned moves (see `planned_steam`),
/// every cell over 6000 vU airborne was reported, and steam over cool cells
/// condensed.
pub open spec fn steam_flowed(w0: SimulationWorld, w1: SimulationWorld) -> bool {
    exists|mid: SimulationWorld| {
        &&& #[trigger] steam_moves_applied(w0.cells@, mid.cells@, planned_steam(w0))
        &&& same_apart_from_cells(w0, mid)
        &&& w1.events@ == w0.events@ + pressure_events(mid, mid.cells@.len() as int)
        &&& forall|i: int| 0 <= i < w1.cells@.len() ==> condensed_cell(mid.cells@[i], #[trigger] w1.cells@[i],
            w0.definitions@[i].ambient_temperature_dk)
    }
}

/// `after` is `before` once its water and lava reacted, then its lava and slurry,
/// then its slurry stained the ground.
pub open spec fn reacted_cell(before: SimCell, after: SimCell) -> bool {
    exists|c1: SimCell, c2: SimCell| #[trigger] water_lava_reacted(before, c1) && #[trigger] lava_slurry_reacted(c1, c2)
        && ground_contaminated(c2, after)
}

/// `after` is `before` once its boiling water turned to steam and its cooled lava to
/// pending rock (see `boiled_vu` and `solidified_vu`), with its material kept.
pub open spec fn boiled_cell(before: SimCell, after: SimCell) -> bool {
    &&& after == (SimCell {
        surface: after.surface,
        airborne: after.airborne,
        pending_rock_vu: after.pending_rock_vu,
        ..before
    })
    &&& cell_material(after) == cell_material(before)
    &&& cell_products(before) <= cell_products(after) <= cell_products(before) + 80
    &&& boiled_vu(before) > 0 ==> entry_of(after.surface@, FluidId::Water)
        == after_removal(entry_of(before.surface@, FluidId::Water), boiled_vu(before) as u32)
    &&& boiled_vu(before) == 0 ==> entry_of(after.surface@, FluidId::Water) == entry_of(before.surface@, FluidId::Water)
    &&& fluid_volume(after.airborne@, FluidId::Steam) == fluid_volume(before.airborne@, FluidId::Steam) + boiled_vu(before)
    &&& after.pending_rock_vu == before.pending_rock_vu + solidified_vu(before)
    &&& solidified_vu(before) > 0 ==> entry_of(after.surface@, FluidId::Lava)
        == after_removal(entry_of(before.surface@, FluidId::Lava), solidified_vu(before) as u32)
    &&& solidified_vu(before) == 0 ==> entry_of(after.surface@, FluidId::Lava) == entry_of(before.surface@, FluidId::Lava)
}

/// `after` is `before` once its temperatures relaxed toward `ambient` and it then
/// boiled and solidified.
pub open spec fn heated_cell(before: SimCell, after: SimCell, ambient: i32) -> bool {
    exists|mid: SimCell| #[trigger] relaxed_cell(before, mid, ambient) && boiled_cell(mid, after)
}

/// Lava that solidifies in a cell this tick: up to 80 vU of surface lava below 9000 dK.
pub open spec fn solidified_vu(c: SimCell) -> int {
    match entry_of(c.surface@, FluidId::Lava) {
        Some(e) => if e.temperature_dk < 9_000 { min_int(e.volume_vu as int, 80) } else { 0 },
        None => 0,
    }
}

/// A planned surface move: source cell, destination cell, fluid, amount,
/// temperature and contamination of the moving material.
pub type SurfaceTransfer = (usize, usize, FluidId, u32, i32, u16);

/// Two cells agree on everything but their surface layer.
pub open spec fn same_but_surface(a: SimCell, b: SimCell) -> bool {
    b == SimCell { surface: b.surface, ..a }
}

/// Two cells agree on everything but their fluid layers.
pub open spec fn same_but_layers(a: SimCell, b: SimCell) -> bool {
    b == SimCell { surface: b.surface, airborne: b.airborne, ..a }
}

/// A transfer whose cells exist and whose temperature is in range.
pub open spec fn transfer_ok(t: SurfaceTransfer, n: int) -> bool {
    &&& t.0 < n
    &&& t.1 < n
    &&& -TEMPERATURE_LIMIT_DK <= t.4 <= TEMPERATURE_LIMIT_DK
}

/// Surface material may move from the cell at `sp` to the bordering cell at `dp`:
/// the source's hydraulic head (height plus surface volume) exceeds the
/// destination's by more than one, a contained and an open cell meet only
/// through a floodgate, the destination is not full, and the edge's floodgate
/// factor is not zero.
pub open spec fn open_downhill(w: SimulationWorld, sp: CellPos, dp: CellPos) -> bool {
    match (w.index_of(sp), w.index_of(dp)) {
        (Some(i), Some(j)) => {
            let s = w.cells@[i as int];
            let d = w.cells@[j as int];
            &&& adjacent_spec(sp, dp)
            &&& s.height_hu + seq_volume(s.surface@) - (d.height_hu + seq_volume(d.surface@)) > 1
            &&& s.contained != d.contained ==> exists|k: int|
                0 <= k < w.devices.devices@.len() && gate_controls(#[trigger] w.devices.devices@[k], sp, dp)
            &&& seq_volume(d.surface@) < CELL_CAPACITY_VU
            &&& flow_factor_spec(w.devices.devices@, sp, dp) != 0
        },
        _ => false,
    }
}

/// Surface material may move from cell `i` to cell `j` (see `open_downhill`).
pub open spec fn downhill_pair(w: SimulationWorld, i: int, j: int) -> bool {
    exists|sp: CellPos, dp: CellPos|
        #[trigger] open_downhill(w, sp, dp) && w.index_of(sp) == Some(i as usize) && w.index_of(dp) == Some(j as usize)
}

/// Every neighbour listed for a cell borders it.
proof fn lemma_neighbors_adjacent(width: u16, height: u16, pos: CellPos, n: int)
    requires
        0 <= n < neighbors_spec(width, height, pos).len(),
    ensures
        adjacent_spec(pos, neighbors_spec(width, height, pos)[n].0),
{
}

/// Every cell is well formed.
pub open spec fn all_cells_wf(s: Seq<SimCell>) -> bool {
    forall|i: int| 0 <= i < s.len() ==> (#[trigger] s[i]).wf()
}

/// Only steam in an air layer.
pub open spec fn steam_only(s: Seq<FluidEntry>) -> bool {
    forall|i: int| 0 <= i < s.len() ==> (#[trigger] s[i]).fluid == FluidId::Steam
}

/// A well-formed layer is steam-only when no other fluid has an entry.
proof fn lemma_steam_only_by_lookup(s: Seq<FluidEntry>)
    requires
        entries_wf(s),
        entry_of(s, FluidId::Lava) is None,
        entry_of(s, FluidId::ToxicSlurry) is None,
        entry_of(s, FluidId::Water) is None,
    ensures
        steam_only(s),
{
    assert forall|i: int| 0 <= i < s.len() implies (#[trigger] s[i]).fluid == FluidId::Steam by {
        lemma_entry_at(s, i);
    }
}

/// A steam-only layer has no entry for other fluids.
proof fn lemma_steam_only_lookup(s: Seq<FluidEntry>)
    requires
        steam_only(s),
    ensures
        entry_of(s, FluidId::Lava) is None,
        entry_of(s, FluidId::ToxicSlurry) is None,
        entry_of(s, FluidId::Water) is None,
{
    assert(!super::entries::has_fluid(s, FluidId::Lava));
    assert(!super::entries::has_fluid(s, FluidId::ToxicSlurry));
    assert(!super::entries::has_fluid(s, FluidId::Water));
}

/// Removing steam from a steam-only layer leaves it steam-only.
pub(crate) proof fn lemma_steam_only_after_removal(before: Seq<FluidEntry>, after: Seq<FluidEntry>)
    requires
        steam_only(before),
        entries_wf(after),
        forall|g: FluidId| g != FluidId::Steam ==> entry_of(after, g) == entry_of(before, g),
    ensures
        steam_only(after),
{
    lemma_steam_only_lookup(before);
    lemma_steam_only_by_lookup(after);
}

/// Adding steam to a steam-only layer leaves it steam-only.
pub(crate) proof fn lemma_steam_only_after_add(before: Seq<FluidEntry>, after: Seq<FluidEntry>)
    requires
        steam_only(before),
        entries_wf(after),
        forall|g: FluidId| g != FluidId::Steam ==> entry_of(after, g) == entry_of(before, g),
    ensures
        steam_only(after),
{
    lemma_steam_only_lookup(before);
    lemma_steam_only_by_lookup(after);
}

/// An entry's volume never exceeds the layer's total.
proof fn lemma_entry_within_total(s: Seq<FluidEntry>, i: int)
    requires
        entries_wf(s),
        0 <= i < s.len(),
    ensures
        s[i].volume_vu <= seq_volume(s),
{
    lemma_entry_at(s, i);
    lemma_volume_by_fluid(s);
}

/// The parts of a mixture split from entry `i` on, with `remaining` still to
/// hand out: each entry gives its share of `amount` in proportion to its volume
/// in `total` (the last entry gives what is left), no more than it holds and no
/// more than remains; entries that give nothing are left out.
pub open spec fn split_from(s: Seq<FluidEntry>, amount: u32, total: u32, i: int, remaining: u32) -> Seq<(FluidId, u32, i32, u16)>
    decreases s.len() - i,
{
    if i < 0 || i >= s.len() {
        seq![]
    } else {
        let e = s[i];
        let proportional: int = if i + 1 == s.len() {
            remaining as int
        } else {
            (amount as int) * (e.volume_vu as int) / (total as int)
        };
        let capped: int = if proportional <= e.volume_vu { proportional } else { e.volume_vu as int };
        let part: int = if capped > remaining { remaining as int } else { capped };
        let head = if part > 0 {
            seq![(e.fluid, part as u32, e.temperature_dk, e.contamination_bp)]
        } else {
            seq![]
        };
        head + split_from(s, amount, total, i + 1, (remaining - part) as u32)
    }
}

/// The high-pressure reports for the first `n` cells of `w`: one for each cell
/// whose air layer holds more than 6000 vU, in cell order, naming the cell's
/// position (of its index taken modulo 65536).
pub open spec fn pressure_events(w: SimulationWorld, n: int) -> Seq<super::SimEvent>
    decreases n,
{
    if n <= 0 {
        seq![]
    } else {
        let i = n - 1;
        let t = i as u16;
        if seq_volume(w.cells@[i].airborne@) > 6_000 {
            pressure_events(w, n - 1).push(
                super::SimEvent::HighPressureSteam { cell: CellPos { x: (t % w.width) as u16, y: (t / w.width) as u16 } },
            )
        } else {
            pressure_events(w, n - 1)
        }
    }
}

/// Split `amount` of a cell's surface mixture into per-fluid parts in proportion
/// to the fluids present; the last fluid takes whatever rounding left over.
fn mixture_split(source: &SimCell, amount: u32) -> (split: Vec<(FluidId, u32, i32, u16)>)
    requires
        source.wf(),
    ensures
        forall|k: int| 0 <= k < split@.len() ==> -TEMPERATURE_LIMIT_DK <= (#[trigger] split@[k]).2
            <= TEMPERATURE_LIMIT_DK,
        split@ == split_from(
            source.surface@,
            amount,
            seq_volume(source.surface@) as u32,
            0,
            if amount <= seq_volume(source.surface@) { amount } else { seq_volume(source.surface@) as u32 },
        ),
{
    let total = source.surface_volume();
    let mut remaining: u32 = if amount <= total { amount } else { total };
    let ghost start = remaining;
    let mut split: Vec<(FluidId, u32, i32, u16)> = Vec::new();
    let mut index: usize = 0;
    while index < source.surface.len()
        invariant
            source.wf(),
            total == seq_volume(source.surface@),
            index <= source.surface@.len(),
            forall|k: int| 0 <= k < split@.len() ==> -TEMPERATURE_LIMIT_DK <= (#[trigger] split@[k]).2
                <= TEMPERATURE_LIMIT_DK,
            split@ + split_from(source.surface@, amount, total, index as int, remaining) == split_from(
                source.surface@,
                amount,
                total,
                0,
                start,
            ),
        decreases source.surface@.len() - index,
    {
        let entry = source.surface[index];
        let ghost before = split@;
        let ghost rem0 = remaining;
        proof {
            lemma_entry_within_total(source.surface@, index as int);
            assert(entry.volume_vu > 0);
            assert((amount as int) * (entry.volume_vu as int) <= (amount as int) * (total as int)) by (nonlinear_arith)
                requires entry.volume_vu <= total;
            assert((amount as int) * (entry.volume_vu as int) / (total as int) <= amount) by (nonlinear_arith)
                requires (amount as int) * (entry.volume_vu as int) <= (amount as int) * (total as int), total > 0;
            assert((amount as int) * (entry.volume_vu as int) <= 4294967295 * 4294967295) by (nonlinear_arith)
                requires amount <= 4294967295, entry.volume_vu <= 4294967295;
        }
        let proportional: u32 = if index + 1 == source.surface.len() {
            remaining
        } else {
            (amount as u64 * entry.volume_vu as u64 / total as u64) as u32
        };
        let mut part = if proportional <= entry.volume_vu { proportional } else { entry.volume_vu };
        if part > remaining {
            part = remaining;
        }
        if part > 0 {
            split.push((entry.fluid, part, entry.temperature_dk, entry.contamination_bp));
            remaining = remaining - part;
        }
        proof {
            let rest = split_from(source.surface@, amount, total, index as int + 1, remaining);
            assert(split_from(source.surface@, amount, total, index as int, rem0) == (if part > 0 {
                seq![(entry.fluid, part, entry.temperature_dk, entry.contamination_bp)]
            } else {
                seq![]
            }) + rest);
            assert(split@ + rest =~= before + split_from(source.surface@, amount, total, index as int, rem0));
        }
        index = index + 1;
    }
    proof {
        assert(split_from(source.surface@, amount, total, index as int, remaining) =~= seq![]);
        assert(split@ =~= split@ + split_from(source.surface@, amount, total, index as int, remaining));
    }
    split
}

impl SimCell {
    /// Water and lava on the surface react, up to 250 vU of each and no more than
    /// the air layer can take: each is removed, the same volume of 4730 dK steam
    /// enters the air and becomes pending rock. Returns the reacted volume.
    fn react_water_lava(&mut self) -> (reaction: u32)
        requires
            old(self).wf(),
            cell_products(*old(self)) + 250 <= u32::MAX,
        ensures
            final(self).wf(),
            reaction == water_lava_vu(*old(self)),
            water_lava_reacted(*old(self), *final(self)),
            cell_material(*final(self)) == cell_material(*old(self)),
            cell_products(*final(self)) == cell_products(*old(self)) + reaction,
            reaction <= 250,
    {
        let water = volume(&self.surface, FluidId::Water);
        let lava = volume(&self.surface, FluidId::Lava);
        let room = CELL_CAPACITY_VU.saturating_sub(self.airborne_volume());
        let mut reaction = if water <= lava { water } else { lava };
        if reaction > 250 {
            reaction = 250;
        }
        if reaction > room {
            reaction = room;
        }
        if reaction > 0 {
            let ghost before = *self;
            remove_fluid(&mut self.surface, FluidId::Water, reaction);
            remove_fluid(&mut self.surface, FluidId::Lava, reaction);
            let accepted = self.add_airborne(FluidEntry {
                fluid: FluidId::Steam,
                volume_vu: reaction,
                temperature_dk: 4_730,
                contamination_bp: 0,
            });
            self.pending_rock_vu = self.pending_rock_vu + reaction;
            proof {
                lemma_volume_by_fluid(self.airborne@);
                lemma_volume_by_fluid(self.surface@);
                lemma_volume_by_fluid(before.surface@);
                lemma_steam_only_after_add(before.airborne@, self.airborne@);
                assert(accepted == reaction);
            }
        }
        reaction
    }

    /// Lava and slurry on the surface vitrify, up to 120 vU of each: both are
    /// removed, twice that volume becomes pending vitrified product, and ground
    /// contamination falls by five basis points per vU. Returns the volume of each.
    fn react_lava_slurry(&mut self) -> (vitrify: u32)
        requires
            old(self).wf(),
            cell_products(*old(self)) + 240 <= u32::MAX,
        ensures
            final(self).wf(),
            vitrify == lava_slurry_vu(*old(self)),
            lava_slurry_reacted(*old(self), *final(self)),
            cell_material(*final(self)) == cell_material(*old(self)),
            cell_products(*final(self)) == cell_products(*old(self)) + 2 * vitrify,
            vitrify <= 120,
    {
        let lava = volume(&self.surface, FluidId::Lava);
        let slurry = volume(&self.surface, FluidId::ToxicSlurry);
        let mut vitrify = if lava <= slurry { lava } else { slurry };
        if vitrify > 120 {
            vitrify = 120;
        }
        if vitrify > 0 {
            let ghost before = *self;
            remove_fluid(&mut self.surface, FluidId::Lava, vitrify);
            remove_fluid(&mut self.surface, FluidId::ToxicSlurry, vitrify);
            self.pending_vitrified_vu = self.pending_vitrified_vu + vitrify * 2;
            let cleaned = (vitrify * 5) as u16;
            self.ground_contamination_bp = self.ground_contamination_bp.saturating_sub(cleaned);
            proof {
                lemma_volume_by_fluid(self.surface@);
                lemma_volume_by_fluid(before.surface@);
            }
        }
        vitrify
    }

    /// Standing slurry on an unsealed floor raises ground contamination to the
    /// slurry's own contamination.
    fn contaminate_ground(&mut self)
        requires
            old(self).wf(),
        ensures
            ground_contaminated(*old(self), *final(self)),
    {
        if let Some(k) = super::entries::find_fluid(&self.surface, FluidId::ToxicSlurry) {
            proof {
                super::entries::lemma_entry_at_first(self.surface@, FluidId::ToxicSlurry, k as int);
            }
            if self.surface[k].volume_vu > 0 && !self.sealed {
                let concentration = self.surface[k].contamination_bp;
                let ground = self.ground_contamination_bp;
                self.ground_contamination_bp = if ground >= concentration { ground } else { concentration };
            }
        }
    }
}

/// The sign of an integer: -1, 0 or 1.
pub open spec fn signum(v: int) -> int {
    if v > 0 {
        1
    } else if v < 0 {
        -1
    } else {
        0
    }
}

/// A temperature one tick closer to ambient: a hundredth of the gap plus one step.
pub open spec fn relaxed_temperature(t: int, ambient: int) -> int {
    t + div_toward_zero(ambient - t, 100) + signum(ambient - t)
}

/// Relaxation moves a temperature toward ambient without passing it.
proof fn lemma_relaxation_bounded(t: int, a: int)
    requires
        -TEMPERATURE_LIMIT_DK <= t <= TEMPERATURE_LIMIT_DK,
        -TEMPERATURE_LIMIT_DK <= a <= TEMPERATURE_LIMIT_DK,
        t != a,
    ensures
        -TEMPERATURE_LIMIT_DK <= relaxed_temperature(t, a) <= TEMPERATURE_LIMIT_DK,
        (t < a ==> t < relaxed_temperature(t, a) <= a),
        (t > a ==> a <= relaxed_temperature(t, a) < t),
{
    let d = a - t;
    if d > 0 {
        assert(d / 100 + 1 <= d) by (nonlinear_arith)
            requires d >= 1;
        assert(d / 100 >= 0) by (nonlinear_arith)
            requires d >= 1;
    } else {
        assert((-d) / 100 + 1 <= -d) by (nonlinear_arith)
            requires -d >= 1;
        assert((-d) / 100 >= 0) by (nonlinear_arith)
            requires -d >= 1;
    }
}

/// What the outlet of cell `i` drains in a tick: up to its authored rate of the
/// surface it holds.
pub open spec fn outlet_drain(w: SimulationWorld, i: int) -> int {
    let rate = w.definitions@[i].surface_drain_rate_vu;
    if rate > 0 {
        min_int(rate as int, seq_volume(w.cells@[i].surface@) as int)
    } else {
        0
    }
}

/// What the outlets of the first `n` cells drain in a tick.
pub open spec fn outlets_drain(w: SimulationWorld, n: int) -> int
    decreases n,
{
    if n <= 0 {
        0
    } else {
        outlets_drain(w, n - 1) + outlet_drain(w, n - 1)
    }
}

/// Cell `c1` is cell `i` of `w` after its outlet drained: only its surface
/// changed, by the outlet's drain (see `outlet_drain`), when it has an outlet;
/// otherwise unchanged.
pub open spec fn outlet_applied(w: SimulationWorld, i: int, c1: SimCell) -> bool {
    let c0 = w.cells@[i];
    if w.definitions@[i].surface_drain_rate_vu > 0 {
        &&& c1 == (SimCell { surface: c1.surface, ..c0 })
        &&& cell_material(c1) == cell_material(c0) - outlet_drain(w, i)
    } else {
        c1 == c0
    }
}

/// `c1` is `c0` with its pending products formed (see `SimCell::form_products`).
pub open spec fn products_formed(c0: SimCell, c1: SimCell) -> bool {
    &&& c1 == (SimCell {
        height_hu: c1.height_hu,
        pending_rock_vu: (c0.pending_rock_vu % 1000) as u32,
        formed_rock_vu: (c0.formed_rock_vu + c0.pending_rock_vu / 1000 * 1000) as u32,
        pending_vitrified_vu: (c0.pending_vitrified_vu % 1000) as u32,
        formed_vitrified_vu: (c0.formed_vitrified_vu + c0.pending_vitrified_vu / 1000 * 1000) as u32,
        ..c0
    })
    &&& c1.height_hu == min_int(
        c0.height_hu + min_int(c0.pending_rock_vu / 1000 * 1000, 32767)
            + min_int(c0.pending_vitrified_vu / 1000 * 500, 32767),
        32767,
    ) || c1.height_hu == 32767
    &&& c1.height_hu >= c0.height_hu
    &&& cell_material(c1) == cell_material(c0)
    &&& cell_products(c1) == cell_products(c0)
}

/// The cell after one tick of heat exchange, boiling and solidification holds the
/// same layers up to temperatures.
impl SimCell {
    /// Every surface entry relaxes toward `ambient`.
    fn relax_temperatures(&mut self, ambient: i32)
        requires
            old(self).wf(),
            -TEMPERATURE_LIMIT_DK <= ambient <= TEMPERATURE_LIMIT_DK,
        ensures
            final(self).wf(),
            relaxed_cell(*old(self), *final(self), ambient),
            cell_material(*final(self)) == cell_material(*old(self)),
    {
        let mut i: usize = 0;
        while i < self.surface.len()
            invariant
                i <= self.surface@.len(),
                self.surface@.len() == old(self).surface@.len(),
                old(self).wf(),
                -TEMPERATURE_LIMIT_DK <= ambient <= TEMPERATURE_LIMIT_DK,
                *self == (SimCell { surface: self.surface, ..*old(self) }),
                forall|j: int| 0 <= j < i ==> {
                    let before = old(self).surface@[j];
                    &&& (#[trigger] self.surface@[j]) == FluidEntry {
                        temperature_dk: if before.temperature_dk == ambient {
                            before.temperature_dk
                        } else {
                            relaxed_temperature(before.temperature_dk as int, ambient as int) as i32
                        },
                        ..before
                    }
                },
                forall|j: int| i <= j < self.surface@.len() ==> #[trigger] self.surface@[j] == old(self).surface@[j],
            decreases self.surface@.len() - i,
        {
            let entry = self.surface[i];
            let delta: i32 = ambient - entry.temperature_dk;
            if delta != 0 {
                proof {
                    lemma_relaxation_bounded(entry.temperature_dk as int, ambient as int);
                }
                let sign: i32 = if delta > 0 { 1 } else { -1 };
                self.surface.set(i, FluidEntry { temperature_dk: entry.temperature_dk + delta / 100 + sign, ..entry });
            }
            i = i + 1;
        }
        proof {
            assert(entries_wf(self.surface@)) by {
                assert forall|j: int| 0 <= j < self.surface@.len() implies -TEMPERATURE_LIMIT_DK <= #[trigger] self.surface@[j].temperature_dk
                    <= TEMPERATURE_LIMIT_DK by {
                    let t = old(self).surface@[j].temperature_dk;
                    if t != ambient {
                        lemma_relaxation_bounded(t as int, ambient as int);
                    }
                }
            }
            assert(self.surface@ =~= self.surface@);
            lemma_same_volumes(old(self).surface@, self.surface@);
        }
    }

    /// Boiling water (at or above 3730 dK) turns up to 150 vU into steam, limited by
    /// air capacity; lava below 9000 dK solidifies up to 80 vU into pending rock.
    fn boil_and_solidify(&mut self)
        requires
            old(self).wf(),
            cell_products(*old(self)) + 80 <= u32::MAX,
        ensures
            final(self).wf(),
            boiled_cell(*old(self), *final(self)),
    {
        let ghost c0 = *self;
        let mut water: u32 = 0;
        if let Some(k) = super::entries::find_fluid(&self.surface, FluidId::Water) {
            if self.surface[k].temperature_dk >= super::WATER_BOIL_DK {
                water = if self.surface[k].volume_vu <= 150 { self.surface[k].volume_vu } else { 150 };
            }
            proof {
                super::entries::lemma_entry_at_first(self.surface@, FluidId::Water, k as int);
            }
        }
        let room = CELL_CAPACITY_VU.saturating_sub(self.airborne_volume());
        if water > room {
            water = room;
        }
        if water > 0 {
            remove_fluid(&mut self.surface, FluidId::Water, water);
            let accepted = self.add_airborne(FluidEntry::new(FluidId::Steam, water));
            proof {
                lemma_volume_by_fluid(self.airborne@);
                lemma_volume_by_fluid(self.surface@);
                lemma_volume_by_fluid(c0.surface@);
                lemma_steam_only_after_add(c0.airborne@, self.airborne@);
                assert(accepted == water);
            }
        }
        let ghost c1 = *self;
        let mut lava: u32 = 0;
        if let Some(k) = super::entries::find_fluid(&self.surface, FluidId::Lava) {
            if self.surface[k].temperature_dk < 9_000 {
                lava = if self.surface[k].volume_vu <= 80 { self.surface[k].volume_vu } else { 80 };
            }
            proof {
                super::entries::lemma_entry_at_first(self.surface@, FluidId::Lava, k as int);
            }
        }
        if lava > 0 {
            remove_fluid(&mut self.surface, FluidId::Lava, lava);
            self.pending_rock_vu = self.pending_rock_vu + lava;
            proof {
                lemma_volume_by_fluid(self.surface@);
                lemma_volume_by_fluid(c1.surface@);
            }
        }
    }

    /// Pending rock forms in whole 1000 vU steps, each raising the cell 1000 hU;
    /// pending vitrified product forms likewise, raising it 500 hU per step.
    /// Heights saturate at the top of the range.
    fn form_products(&mut self)
        requires
            old(self).wf(),
            cell_products(*old(self)) <= u32::MAX,
        ensures
            final(self).wf(),
            products_formed(*old(self), *final(self)),
    {
        if self.pending_rock_vu >= 1_000 {
            let steps = self.pending_rock_vu / 1_000;
            let raise: u32 = if steps * 1_000 <= 32_767 { steps * 1_000 } else { 32_767 };
            let raised: i32 = self.height_hu as i32 + raise as i32;
            self.height_hu = if raised > 32_767 { 32_767 } else { raised as i16 };
            self.formed_rock_vu = self.formed_rock_vu + steps * 1_000;
            self.pending_rock_vu = self.pending_rock_vu % 1_000;
        }
        if self.pending_vitrified_vu >= 1_000 {
            let steps = self.pending_vitrified_vu / 1_000;
            let raise: u32 = if steps * 500 <= 32_767 { steps * 500 } else { 32_767 };
            let raised: i32 = self.height_hu as i32 + raise as i32;
            self.height_hu = if raised > 32_767 { 32_767 } else { raised as i16 };
            self.formed_vitrified_vu = self.formed_vitrified_vu + steps * 1_000;
            self.pending_vitrified_vu = self.pending_vitrified_vu % 1_000;
        }
    }

    /// Drain up to `rate` of surface material, taking fluids in list order;
    /// returns the drained volume.
    fn drain_surface(&mut self, rate: u32) -> (drained: u32)
        requires
            old(self).wf(),
        ensures
            final(self).wf(),
            drained == min_int(rate as int, seq_volume(old(self).surface@) as int),
            *final(self) == (SimCell { surface: final(self).surface, ..*old(self) }),
            cell_material(*final(self)) == cell_material(*old(self)) - drained,
    {
        let snapshot = self.surface.clone();
        proof {
            assert(snapshot@ =~= self.surface@);
            lemma_volume_by_fluid(self.surface@);
        }
        let total = self.surface_volume();
        let mut remaining = rate;
        let mut drained: u32 = 0;
        let mut k: usize = 0;
        proof {
            assert forall|j: int| 0 <= j < snapshot@.len() implies entry_of(self.surface@, (#[trigger] snapshot@[j]).fluid)
                == Some(snapshot@[j]) by {
                super::entries::lemma_entry_at(self.surface@, j);
            }
        }
        while k < snapshot.len() && remaining > 0
            invariant
                k <= snapshot@.len(),
                snapshot@ == old(self).surface@,
                old(self).wf(),
                entries_wf(self.surface@),
                *self == (SimCell { surface: self.surface, ..*old(self) }),
                total == seq_volume(snapshot@),
                drained + remaining == rate,
                seq_volume(self.surface@) + drained == total,
                remaining > 0 ==> drained == seq_volume(snapshot@.take(k as int)),
                forall|j: int| k <= j < snapshot@.len() ==> entry_of(self.surface@, (#[trigger] snapshot@[j]).fluid)
                    == Some(snapshot@[j]),
            decreases snapshot@.len() - k,
        {
            let fluid = snapshot[k].fluid;
            let available = snapshot[k].volume_vu;
            let amount = if available <= remaining { available } else { remaining };
            proof {
                assert(entry_of(self.surface@, fluid) == Some(snapshot@[k as int]));
                lemma_volume_by_fluid(self.surface@);
                assert forall|j: int| k < j < snapshot@.len() implies (#[trigger] snapshot@[j]).fluid != fluid by {
                    assert(snapshot@[k as int].fluid.rank_spec() < snapshot@[j].fluid.rank_spec());
                }
                assert(snapshot@.take(k as int + 1).drop_last() =~= snapshot@.take(k as int));
            }
            remove_fluid(&mut self.surface, fluid, amount);
            drained = drained + amount;
            remaining = remaining - amount;
            k = k + 1;
        }
        proof {
            if remaining > 0 {
                assert(snapshot@.take(k as int) =~= snapshot@);
            }
        }
        drained
    }
}

/// Two layers with the same entries but for temperatures hold the same volumes.
pub(crate) proof fn lemma_same_volumes(a: Seq<FluidEntry>, b: Seq<FluidEntry>)
    requires
        a.len() == b.len(),
        forall|i: int| 0 <= i < a.len() ==> (#[trigger] a[i]).volume_vu == b[i].volume_vu,
    ensures
        seq_volume(a) == seq_volume(b),
    decreases a.len(),
{
    if a.len() > 0 {
        lemma_same_volumes(a.drop_last(), b.drop_last());
    }
}

impl SimulationWorld {
    /// Apply planned surface moves in order, each limited by what the source still
    /// holds and what the destination can still take.
    #[verifier::rlimit(80)]
    #[verifier::spinoff_prover]
    fn apply_surface_transfers(&mut self, transfers: Vec<SurfaceTransfer>)
        requires
            old(self).wf(),
            forall|k: int| 0 <= k < transfers@.len() ==> transfer_ok(#[trigger] transfers@[k], old(self).cells@.len() as int),
        ensures
            final(self).wf(),
            same_apart_from_cells(*old(self), *final(self)),
            final(self).ledger == old(self).ledger,
            final(self).events == old(self).events,
            final(self).cells@.len() == old(self).cells@.len(),
            forall|i: int| 0 <= i < final(self).cells@.len() ==> same_but_surface(
                old(self).cells@[i],
                #[trigger] final(self).cells@[i],
            ),
            cells_material(final(self).cells@) == cells_material(old(self).cells@),
            forall|i: int|
                0 <= i < final(self).cells@.len() && seq_volume(#[trigger] final(self).cells@[i].surface@) < seq_volume(
                    old(self).cells@[i].surface@,
                ) ==> exists|q: int| 0 <= q < transfers@.len() && (#[trigger] transfers@[q]).0 == i,
            forall|i: int|
                0 <= i < final(self).cells@.len() && seq_volume(#[trigger] final(self).cells@[i].surface@) > seq_volume(
                    old(self).cells@[i].surface@,
                ) ==> exists|q: int| 0 <= q < transfers@.len() && (#[trigger] transfers@[q]).1 == i,
            forall|i: int|
                0 <= i < final(self).cells@.len() && (forall|q: int| 0 <= q < transfers@.len() ==> (#[trigger] transfers@[q]).0 != i
                    && transfers@[q].1 != i) ==> #[trigger] final(self).cells@[i] == old(self).cells@[i],
            transfers_applied(old(self).cells@, final(self).cells@, transfers@),
    {
        let mut k: usize = 0;
        let ghost mut cs: Seq<Seq<SimCell>> = seq![self.cells@];
        while k < transfers.len()
            invariant
                cs.len() == k + 1,
                cs[0] == old(self).cells@,
                cs.last() == self.cells@,
                forall|q: int| 0 <= q < k ==> transfer_applied(#[trigger] cs[q], cs[q + 1], transfers@[q]),
                self.wf(),
                k <= transfers@.len(),
                same_apart_from_cells(*old(self), *self),
                self.ledger == old(self).ledger,
                self.events == old(self).events,
                self.cells@.len() == old(self).cells@.len(),
                forall|i: int| 0 <= i < self.cells@.len() ==> same_but_surface(
                    old(self).cells@[i],
                    #[trigger] self.cells@[i],
                ),
                cells_material(self.cells@) == cells_material(old(self).cells@),
                forall|q: int| 0 <= q < transfers@.len() ==> transfer_ok(#[trigger] transfers@[q], old(self).cells@.len() as int),
                forall|i: int|
                    0 <= i < self.cells@.len() && seq_volume(#[trigger] self.cells@[i].surface@) < seq_volume(
                        old(self).cells@[i].surface@,
                    ) ==> exists|q: int| 0 <= q < k && (#[trigger] transfers@[q]).0 == i,
                forall|i: int|
                    0 <= i < self.cells@.len() && seq_volume(#[trigger] self.cells@[i].surface@) > seq_volume(
                        old(self).cells@[i].surface@,
                    ) ==> exists|q: int| 0 <= q < k && (#[trigger] transfers@[q]).1 == i,
                forall|i: int|
                    0 <= i < self.cells@.len() && (forall|q: int| 0 <= q < k ==> (#[trigger] transfers@[q]).0 != i
                        && transfers@[q].1 != i) ==> #[trigger] self.cells@[i] == old(self).cells@[i],
            decreases transfers@.len() - k,
        {
            let (source, destination, fluid, amount, temp, contamination) = transfers[k];
            let ghost before = self.cells@;
            proof {
                assert(transfer_ok(transfers@[k as int], old(self).cells@.len() as int));
                assert(self.cells@[source as int].wf());
                assert(self.cells@[destination as int].wf());
            }
            let available = volume(&self.cells[source].surface, fluid);
            let room = CELL_CAPACITY_VU.saturating_sub(self.cells[destination].surface_volume());
            let mut moved = if amount <= available { amount } else { available };
            if room < moved {
                moved = room;
            }
            if moved > 0 {
                let ghost cells0 = self.cells@;
                remove_fluid(&mut self.cells[source].surface, fluid, moved);
                let ghost mid = self.cells@;
                proof {
                    let c = self.cells@[source as int];
                    lemma_volume_by_fluid(c.surface@);
                    assert(c.wf());
                    lemma_cells_material_update(cells0, source as int, c);
                    assert(self.cells@ == cells0.update(source as int, c));
                    assert(self.cells@[destination as int].wf());
                }
                let ghost cells1 = self.cells@;
                let accepted = self.cells[destination].add_surface(FluidEntry {
                    fluid,
                    volume_vu: moved,
                    temperature_dk: temp,
                    contamination_bp: contamination,
                });
                proof {
                    let c = self.cells@[destination as int];
                    lemma_volume_by_fluid(c.surface@);
                    assert(accepted == moved);
                    assert(c.wf());
                    lemma_cells_material_update(cells1, destination as int, c);
                    assert(self.cells@ == cells1.update(destination as int, c));
                }
            }
            proof {
                let t = transfers@[k as int];
                assert(t.0 == source && t.1 == destination);
                assert forall|i: int|
                    0 <= i < self.cells@.len() && seq_volume(#[trigger] self.cells@[i].surface@) < seq_volume(
                        old(self).cells@[i].surface@,
                    ) implies exists|q: int| 0 <= q < k + 1 && (#[trigger] transfers@[q]).0 == i by {
                    if i == source {
                        assert(transfers@[k as int].0 == i);
                    } else if i == destination {
                        assert(seq_volume(before[i].surface@) <= seq_volume(self.cells@[i].surface@));
                    } else {
                        assert(self.cells@[i] == before[i]);
                    }
                }
                assert forall|i: int|
                    0 <= i < self.cells@.len() && seq_volume(#[trigger] self.cells@[i].surface@) > seq_volume(
                        old(self).cells@[i].surface@,
                    ) implies exists|q: int| 0 <= q < k + 1 && (#[trigger] transfers@[q]).1 == i by {
                    if i == destination {
                        assert(transfers@[k as int].1 == i);
                    } else if i == source {
                        assert(seq_volume(before[i].surface@) >= seq_volume(self.cells@[i].surface@));
                    } else {
                        assert(self.cells@[i] == before[i]);
                    }
                }
                assert forall|i: int|
                    0 <= i < self.cells@.len() && (forall|q: int| 0 <= q < k + 1 ==> (#[trigger] transfers@[q]).0 != i
                        && transfers@[q].1 != i) implies #[trigger] self.cells@[i] == old(self).cells@[i] by {
                    assert(transfers@[k as int].0 != i && transfers@[k as int].1 != i);
                    assert(self.cells@[i] == before[i]);
                }
                assert(transfer_applied(before, self.cells@, transfers@[k as int]));
                let cs2 = cs.push(self.cells@);
                assert forall|q: int| 0 <= q < k + 1 implies transfer_applied(#[trigger] cs2[q], cs2[q + 1], transfers@[q]) by {
                    if q < k {
                        assert(cs2[q] == cs[q] && cs2[q + 1] == cs[q + 1]);
                    } else {
                        assert(cs2[q] == before);
                    }
                }
                cs = cs2;
            }
            k = k + 1;
        }
        proof {
            assert(transfer_steps(cs, transfers@));
        }
    }

    /// Surface fluid flows downhill toward lower hydraulic head. Each cell sends at
    /// most the smallest per-fluid transfer limit of its mixture, split across
    /// downhill neighbours in proportion to head difference times each edge's
    /// floodgate factor; an edge between contained and open cells is closed unless a
    /// floodgate controls it. Material is conserved and only surface layers change:
    /// a cell's surface shrinks only when it may flow into a neighbour, grows only
    /// when a neighbour may flow into it, and stays as it was when neither holds
    /// (see `open_downhill`).
    pub fn flow_surface(&mut self)
        requires
            old(self).wf(),
        ensures
            final(self).wf(),
            same_apart_from_cells(*old(self), *final(self)),
            final(self).ledger == old(self).ledger,
            final(self).events == old(self).events,
            final(self).cells@.len() == old(self).cells@.len(),
            forall|i: int| 0 <= i < final(self).cells@.len() ==> same_but_surface(
                old(self).cells@[i],
                #[trigger] final(self).cells@[i],
            ),
            final(self).material() == old(self).material(),
            final(self).balance() == old(self).balance(),
            forall|i: int|
                0 <= i < final(self).cells@.len() && seq_volume(#[trigger] final(self).cells@[i].surface@) < seq_volume(
                    old(self).cells@[i].surface@,
                ) ==> exists|j: int| downhill_pair(*old(self), i, j),
            forall|j: int|
                0 <= j < final(self).cells@.len() && seq_volume(#[trigger] final(self).cells@[j].surface@) > seq_volume(
                    old(self).cells@[j].surface@,
                ) ==> exists|i: int| downhill_pair(*old(self), i, j),
            forall|i: int|
                0 <= i < final(self).cells@.len() && (forall|j: int|
                    #![trigger downhill_pair(*old(self), i, j)]
                    #![trigger downhill_pair(*old(self), j, i)]
                    !downhill_pair(*old(self), i, j) && !downhill_pair(*old(self), j, i)) ==> #[trigger] final(self).cells@[i]
                    == old(self).cells@[i],
            surface_flowed(*old(self), *final(self)),
    {
        let transfers = self.surface_transfers();
        let ghost t = transfers@;
        self.apply_surface_transfers(transfers);
        proof {
            assert(transfers_applied(old(self).cells@, self.cells@, t));
            assert(surface_flowed(*old(self), *self));
            assert forall|i: int|
                0 <= i < self.cells@.len() && seq_volume(#[trigger] self.cells@[i].surface@) < seq_volume(
                    old(self).cells@[i].surface@,
                ) implies exists|j: int| downhill_pair(*old(self), i, j) by {
                let q = choose|q: int| 0 <= q < t.len() && (#[trigger] t[q]).0 == i;
                assert(downhill_pair(*old(self), t[q].0 as int, t[q].1 as int));
            }
            assert forall|j: int|
                0 <= j < self.cells@.len() && seq_volume(#[trigger] self.cells@[j].surface@) > seq_volume(
                    old(self).cells@[j].surface@,
                ) implies exists|i: int| downhill_pair(*old(self), i, j) by {
                let q = choose|q: int| 0 <= q < t.len() && (#[trigger] t[q]).1 == j;
                assert(downhill_pair(*old(self), t[q].0 as int, t[q].1 as int));
            }
            assert forall|i: int|
                0 <= i < self.cells@.len() && (forall|j: int|
                    #![trigger downhill_pair(*old(self), i, j)]
                    #![trigger downhill_pair(*old(self), j, i)]
                    !downhill_pair(*old(self), i, j) && !downhill_pair(*old(self), j, i)) implies #[trigger] self.cells@[i]
                    == old(self).cells@[i] by {
                assert forall|q: int| 0 <= q < t.len() implies (#[trigger] t[q]).0 != i && t[q].1 != i by {
                    assert(downhill_pair(*old(self), t[q].0 as int, t[q].1 as int));
                    if t[q].0 == i {
                        assert(!downhill_pair(*old(self), i, t[q].1 as int));
                    }
                    if t[q].1 == i {
                        assert(!downhill_pair(*old(self), t[q].0 as int, i));
                    }
                }
            }
        }
    }

    /// The steam spreading moves of one tick, computed from the current cells.
    #[verifier::rlimit(100)]
    #[verifier::spinoff_prover]
    fn steam_moves(&self) -> (moves: Vec<(usize, usize, u32)>)
        requires
            self.wf(),
        ensures
            forall|k: int| 0 <= k < moves@.len() ==> (#[trigger] moves@[k]).0 < self.cells@.len()
                && moves@[k].1 < self.cells@.len(),
            forall|pos: CellPos|
                pos.x < self.width && pos.y < self.height && #[trigger] steam_can_leave(*self, pos)
                    ==> has_move_from(moves@, self.index_of(pos)->0 as int),
            moves@ == planned_steam(*self),
    {
        let mut moves: Vec<(usize, usize, u32)> = Vec::new();
        let mut y: u16 = 0;
        while y < self.height
            invariant
                self.wf(),
                y <= self.height,
                moves@ == steam_rows_plan(*self, y as int),
                forall|k: int| 0 <= k < moves@.len() ==> (#[trigger] moves@[k]).0 < self.cells@.len()
                    && moves@[k].1 < self.cells@.len(),
                forall|pos: CellPos|
                    pos.x < self.width && pos.y < y && #[trigger] steam_can_leave(*self, pos)
                        ==> has_move_from(moves@, self.index_of(pos)->0 as int),
            decreases self.height - y,
        {
            let mut x: u16 = 0;
            proof {
                assert(steam_rows_plan(*self, y as int) + steam_row_plan(*self, y as int, 0) =~= steam_rows_plan(*self, y as int));
            }
            while x < self.width
                invariant
                    self.wf(),
                    y < self.height,
                    x <= self.width,
                    moves@ == steam_rows_plan(*self, y as int) + steam_row_plan(*self, y as int, x as int),
                    forall|k: int| 0 <= k < moves@.len() ==> (#[trigger] moves@[k]).0 < self.cells@.len()
                        && moves@[k].1 < self.cells@.len(),
                    forall|pos: CellPos|
                        pos.x < self.width && (pos.y < y || (pos.y == y && pos.x < x)) && #[trigger] steam_can_leave(*self, pos)
                            ==> has_move_from(moves@, self.index_of(pos)->0 as int),
                decreases self.width - x,
            {
                let pos = CellPos { x, y };
                let ghost prev = moves@;
                proof {
                    lemma_grid_index_bound(self.width, self.height, pos);
                }
                let source_index = match self.index(pos) {
                    Some(i) => i,
                    None => {
                        proof {
                            lemma_steam_row_next(*self, y as int, x as int);
                            assert(steam_cell_plan(*self, pos) =~= seq![]);
                            assert(moves@ + steam_cell_plan(*self, pos) =~= moves@);
                        }
                        x = x + 1;
                        continue;
                    },
                };
                let source = &self.cells[source_index];
                proof {
                    assert(source.wf());
                }
                let steam = volume(&source.airborne, FluidId::Steam);
                if steam == 0 {
                    proof {
                        lemma_steam_row_next(*self, y as int, x as int);
                        assert(steam_cell_plan(*self, pos) =~= seq![]);
                        assert(moves@ + steam_cell_plan(*self, pos) =~= moves@);
                    }
                    x = x + 1;
                    continue;
                }
                let source_air = source.airborne_volume();
                let neighbors = self.neighbors(pos);
                let mut options: Vec<(usize, u32)> = Vec::new();
                let mut n: usize = 0;
                while n < neighbors.len()
                    invariant
                        self.wf(),
                        pos.x < self.width,
                        pos.y < self.height,
                        source_air <= CELL_CAPACITY_VU,
                        source_air == seq_volume(self.cells@[source_index as int].airborne@),
                        self.index_of(pos) == Some(source_index),
                        neighbors@ == neighbors_spec(self.width, self.height, pos),
                        n <= neighbors@.len(),
                        options@.len() <= n,
                        forall|m: int| 0 <= m < options@.len() ==> (#[trigger] options@[m]).0 < self.cells@.len()
                            && options@[m].1 <= 1_600 && options@[m].1 > 0,
                        (exists|n2: int| 0 <= n2 < n && #[trigger] steam_opening(*self, pos, neighbors@[n2].0)) ==> options@.len() > 0,
                        options@ == steam_options(*self, source_index, neighbors@.take(n as int)),
                    decreases neighbors@.len() - n,
                {
                    proof {
                        assert(neighbors@.take(n as int + 1).drop_last() =~= neighbors@.take(n as int));
                    }
                    let (dest, _) = neighbors[n];
                    proof {
                        lemma_grid_index_bound(self.width, self.height, dest);
                    }
                    if let Some(di) = self.index(dest) {
                        let target = &self.cells[di];
                        proof {
                            assert(target.wf());
                        }
                        let target_air = target.airborne_volume();
                        if !(target_air >= source_air || target.sealed || self.definitions[di].gas_blocked) {
                            let raw = (source_air - target_air) / 5;
                            if raw > 0 {
                                options.push((di, raw));
                            }
                        }
                    }
                    proof {
                        if exists|n2: int| 0 <= n2 < n + 1 && #[trigger] steam_opening(*self, pos, neighbors@[n2].0) {
                            let n2 = choose|n2: int| 0 <= n2 < n + 1 && #[trigger] steam_opening(*self, pos, neighbors@[n2].0);
                            if n2 < n {
                                assert(options@.len() > 0);
                            } else {
                                assert(steam_opening(*self, pos, dest));
                                assert(options@.len() > 0);
                            }
                        }
                    }
                    n = n + 1;
                }
                let mut total_weight: u32 = 0;
                let mut m: usize = 0;
                while m < options.len()
                    invariant
                        m <= options@.len(),
                        options@.len() <= 4,
                        total_weight <= m * 1_600,
                        m > 0 ==> total_weight > 0,
                        forall|q: int| 0 <= q < options@.len() ==> (#[trigger] options@[q]).1 <= 1_600 && options@[q].1 > 0,
                        total_weight == steam_weights(options@.take(m as int)),
                    decreases options@.len() - m,
                {
                    proof {
                        assert(options@.take(m as int + 1).drop_last() =~= options@.take(m as int));
                    }
                    total_weight = total_weight + options[m].1;
                    m = m + 1;
                }
                proof {
                    assert(options@.take(m as int) =~= options@);
                    assert(neighbors@.take(neighbors@.len() as int) =~= neighbors@);
                }
                let mut budget = if steam <= FluidId::Steam.max_transfer() { steam } else { FluidId::Steam.max_transfer() };
                if total_weight < budget {
                    budget = total_weight;
                }
                proof {
                    if steam_can_leave(*self, pos) {
                        let n2 = choose|n2: int| 0 <= n2 < neighbors_spec(self.width, self.height, pos).len()
                            && #[trigger] steam_opening(*self, pos, neighbors_spec(self.width, self.height, pos)[n2].0);
                        assert(steam_opening(*self, pos, neighbors@[n2].0));
                        assert(options@.len() > 0);
                        assert(budget > 0);
                    }
                }
                if budget == 0 {
                    proof {
                        lemma_steam_row_next(*self, y as int, x as int);
                        assert(steam_cell_plan(*self, pos) =~= seq![]);
                        assert(moves@ + steam_cell_plan(*self, pos) =~= moves@);
                    }
                    x = x + 1;
                    continue;
                }
                let mut assigned: u32 = 0;
                let mut m: usize = 0;
                while m < options.len()
                    invariant
                        m <= options@.len(),
                        options@.len() <= 4,
                        budget <= 300,
                        total_weight > 0,
                        source_index < self.cells@.len(),
                        assigned <= m * 300,
                        forall|q: int| 0 <= q < options@.len() ==> (#[trigger] options@[q]).0 < self.cells@.len(),
                        forall|k: int| 0 <= k < moves@.len() ==> (#[trigger] moves@[k]).0 < self.cells@.len()
                            && moves@[k].1 < self.cells@.len(),
                        moves@.len() >= prev.len(),
                        forall|k: int| 0 <= k < prev.len() ==> #[trigger] moves@[k] == prev[k],
                        assigned > 0 ==> has_move_from(moves@, source_index as int),
                        moves@ == prev + steam_assigned(source_index, budget, total_weight as int, options@.take(m as int)).0,
                        assigned == steam_assigned(source_index, budget, total_weight as int, options@.take(m as int)).1,
                    decreases options@.len() - m,
                {
                    proof {
                        assert(options@.take(m as int + 1).drop_last() =~= options@.take(m as int));
                    }
                    let (destination, weight) = options[m];
                    proof {
                        assert((budget as int) * (weight as int) <= 300 * 4294967295) by (nonlinear_arith)
                            requires budget <= 300;
                        if weight <= total_weight {
                            assert((budget as int) * (weight as int) / (total_weight as int) <= budget) by (nonlinear_arith)
                                requires weight <= total_weight, total_weight > 0;
                        }
                    }
                    let scaled: u64 = budget as u64 * weight as u64 / total_weight as u64;
                    let amount: u32 = if scaled <= 300 { scaled as u32 } else { 300 };
                    let ghost before = moves@;
                    assigned = assigned + amount;
                    if amount > 0 {
                        moves.push((source_index, destination, amount));
                        proof {
                            assert(moves@[before.len() as int].0 == source_index);
                        }
                    }
                    proof {
                        if has_move_from(before, source_index as int) {
                            let k0 = choose|k: int| 0 <= k < before.len() && (#[trigger] before[k]).0 == source_index as int;
                            assert(moves@[k0] == before[k0]);
                        }
                    }
                    proof {
                        assert(moves@ =~= prev + steam_assigned(source_index, budget, total_weight as int, options@.take(m as int + 1)).0);
                    }
                    m = m + 1;
                }
                proof {
                    assert(options@.take(m as int) =~= options@);
                }
                if assigned < budget && options.len() > 0 {
                    let (destination, _) = options[0];
                    let ghost before = moves@;
                    moves.push((source_index, destination, budget - assigned));
                    proof {
                        assert(moves@[before.len() as int].0 == source_index);
                        assert forall|k: int| 0 <= k < prev.len() implies #[trigger] moves@[k] == prev[k] by {
                            assert(moves@[k] == before[k]);
                        }
                    }
                }
                proof {
                    lemma_steam_row_next(*self, y as int, x as int);
                    assert(moves@ =~= prev + steam_cell_plan(*self, pos));
                    assert(has_move_from(moves@, source_index as int));
                    assert forall|p2: CellPos|
                        p2.x < self.width && (p2.y < y || (p2.y == y && p2.x < x + 1)) && #[trigger] steam_can_leave(*self, p2)
                            implies has_move_from(moves@, self.index_of(p2)->0 as int) by {
                        if p2.y == y && p2.x == x {
                            assert(p2 == pos);
                        } else {
                            let c = self.index_of(p2)->0 as int;
                            let k0 = choose|k: int| 0 <= k < prev.len() && (#[trigger] prev[k]).0 == c;
                            assert(moves@[k0] == prev[k0]);
                        }
                    }
                }
                x = x + 1;
            }
            proof {
                assert(moves@ == steam_rows_plan(*self, y as int + 1));
            }
            y = y + 1;
        }
        moves
    }

    /// Apply planned steam moves in order, each limited by the source's remaining
    /// steam and the destination's remaining air capacity.
    #[verifier::rlimit(80)]
    #[verifier::spinoff_prover]
    fn apply_steam_moves(&mut self, moves: Vec<(usize, usize, u32)>)
        requires
            old(self).wf(),
            forall|k: int| 0 <= k < moves@.len() ==> (#[trigger] moves@[k]).0 < old(self).cells@.len()
                && moves@[k].1 < old(self).cells@.len(),
        ensures
            final(self).wf(),
            same_apart_from_cells(*old(self), *final(self)),
            final(self).ledger == old(self).ledger,
            final(self).events == old(self).events,
            final(self).cells@.len() == old(self).cells@.len(),
            forall|i: int| 0 <= i < final(self).cells@.len() ==> same_but_layers(
                old(self).cells@[i],
                #[trigger] final(self).cells@[i],
            ),
            cells_material(final(self).cells@) == cells_material(old(self).cells@),
            steam_moves_applied(old(self).cells@, final(self).cells@, moves@),
    {
        let mut k: usize = 0;
        let ghost mut cs: Seq<Seq<SimCell>> = seq![self.cells@];
        while k < moves.len()
            invariant
                cs.len() == k + 1,
                cs[0] == old(self).cells@,
                cs.last() == self.cells@,
                forall|q: int| 0 <= q < k ==> steam_move_applied(#[trigger] cs[q], cs[q + 1], moves@[q]),
                self.wf(),
                k <= moves@.len(),
                same_apart_from_cells(*old(self), *self),
                self.ledger == old(self).ledger,
                self.events == old(self).events,
                self.cells@.len() == old(self).cells@.len(),
                forall|i: int| 0 <= i < self.cells@.len() ==> same_but_layers(
                    old(self).cells@[i],
                    #[trigger] self.cells@[i],
                ),
                cells_material(self.cells@) == cells_material(old(self).cells@),
                forall|q: int| 0 <= q < moves@.len() ==> (#[trigger] moves@[q]).0 < old(self).cells@.len()
                    && moves@[q].1 < old(self).cells@.len(),
            decreases moves@.len() - k,
        {
            let (source, destination, amount) = moves[k];
            let ghost c0 = self.cells@;
            proof {
                assert(self.cells@[source as int].wf());
                assert(self.cells@[destination as int].wf());
            }
            let available = volume(&self.cells[source].airborne, FluidId::Steam);
            let room = CELL_CAPACITY_VU.saturating_sub(self.cells[destination].airborne_volume());
            let mut moved = if amount <= available { amount } else { available };
            if room < moved {
                moved = room;
            }
            if moved > 0 {
                let ghost cells0 = self.cells@;
                remove_fluid(&mut self.cells[source].airborne, FluidId::Steam, moved);
                let ghost mid = self.cells@;
                proof {
                    let c = self.cells@[source as int];
                    lemma_volume_by_fluid(c.airborne@);
                    lemma_steam_only_after_removal(cells0[source as int].airborne@, c.airborne@);
                    assert(c.wf());
                    lemma_cells_material_update(cells0, source as int, c);
                    assert(self.cells@ == cells0.update(source as int, c));
                    assert(self.cells@[destination as int].wf());
                }
                let ghost cells1 = self.cells@;
                let accepted = self.cells[destination].add_airborne(FluidEntry::new(FluidId::Steam, moved));
                proof {
                    let c = self.cells@[destination as int];
                    lemma_volume_by_fluid(c.airborne@);
                    lemma_steam_only_after_add(cells1[destination as int].airborne@, c.airborne@);
                    assert(accepted == moved);
                    assert(c.wf());
                    lemma_cells_material_update(cells1, destination as int, c);
                    assert(self.cells@ == cells1.update(destination as int, c));
                    assert(entry_of(mid[source as int].airborne@, FluidId::Steam)
                        == after_removal(entry_of(c0[source as int].airborne@, FluidId::Steam), moved));
                }
            }
            proof {
                assert(steam_move_applied(c0, self.cells@, moves@[k as int]));
                let cs2 = cs.push(self.cells@);
                assert forall|q: int| 0 <= q < k + 1 implies steam_move_applied(#[trigger] cs2[q], cs2[q + 1], moves@[q]) by {
                    if q < k {
                        assert(cs2[q] == cs[q] && cs2[q + 1] == cs[q + 1]);
                    } else {
                        assert(cs2[q] == c0);
                    }
                }
                cs = cs2;
            }
            k = k + 1;
        }
        proof {
            assert(steam_move_steps(cs, moves@));
        }
    }

    /// Report every cell whose air layer holds more than 6000 vU.
    fn report_high_pressure(&mut self)
        requires
            old(self).wf(),
        ensures
            *final(self) == (SimulationWorld { events: final(self).events, ..*old(self) }),
            final(self).events@.len() >= old(self).events@.len(),
            forall|k: int| 0 <= k < old(self).events@.len() ==> #[trigger] final(self).events@[k] == old(self).events@[k],
            forall|k: int| old(self).events@.len() <= k < final(self).events@.len() ==>
                (#[trigger] final(self).events@[k]) is HighPressureSteam,
            final(self).events@ == old(self).events@ + pressure_events(*old(self), old(self).cells@.len() as int),
    {
        let mut index: usize = 0;
        while index < self.cells.len()
            invariant
                old(self).wf(),
                *self == (SimulationWorld { events: self.events, ..*old(self) }),
                index <= self.cells@.len(),
                self.events@.len() >= old(self).events@.len(),
                forall|k: int| 0 <= k < old(self).events@.len() ==> #[trigger] self.events@[k] == old(self).events@[k],
                forall|k: int| old(self).events@.len() <= k < self.events@.len() ==>
                    (#[trigger] self.events@[k]) is HighPressureSteam,
                self.events@ == old(self).events@ + pressure_events(*old(self), index as int),
            decreases self.cells@.len() - index,
        {
            proof {
                assert(self.cells@[index as int].wf());
                assert(self.cells@[index as int] == old(self).cells@[index as int]);
            }
            if self.cells[index].airborne_volume() > 6_000 {
                proof {
                    assert(self.width > 0) by (nonlinear_arith)
                        requires index < self.width * self.height;
                }
                #[verifier::truncate]
                let wrapped = index as u16;
                let pos = CellPos { x: wrapped % self.width, y: wrapped / self.width };
                self.events.push(super::SimEvent::HighPressureSteam { cell: pos });
            }
            proof {
                assert(self.events@ =~= old(self).events@ + pressure_events(*old(self), index as int + 1));
            }
            index = index + 1;
        }
    }

    /// In cells whose ambient temperature is at or below boiling, up to 200 vU of
    /// steam condenses to water, limited by surface capacity.
    fn condense_steam(&mut self)
        requires
            old(self).wf(),
        ensures
            final(self).wf(),
            same_apart_from_cells(*old(self), *final(self)),
            final(self).ledger == old(self).ledger,
            final(self).events == old(self).events,
            final(self).cells@.len() == old(self).cells@.len(),
            forall|i: int| 0 <= i < final(self).cells@.len() ==> same_but_layers(
                old(self).cells@[i],
                #[trigger] final(self).cells@[i],
            ),
            cells_material(final(self).cells@) == cells_material(old(self).cells@),
            forall|i: int| 0 <= i < final(self).cells@.len() ==> condensed_cell(old(self).cells@[i], #[trigger] final(self).cells@[i],
                old(self).definitions@[i].ambient_temperature_dk),
    {
        let mut index: usize = 0;
        while index < self.cells.len()
            invariant
                self.wf(),
                index <= self.cells@.len(),
                same_apart_from_cells(*old(self), *self),
                self.ledger == old(self).ledger,
                self.events == old(self).events,
                self.cells@.len() == old(self).cells@.len(),
                forall|i: int| 0 <= i < self.cells@.len() ==> same_but_layers(
                    old(self).cells@[i],
                    #[trigger] self.cells@[i],
                ),
                cells_material(self.cells@) == cells_material(old(self).cells@),
                forall|i: int| 0 <= i < index ==> condensed_cell(old(self).cells@[i], #[trigger] self.cells@[i],
                    old(self).definitions@[i].ambient_temperature_dk),
                forall|i: int| index <= i < self.cells@.len() ==> #[trigger] self.cells@[i] == old(self).cells@[i],
            decreases self.cells@.len() - index,
        {
            proof {
                assert(self.cells@[index as int].wf());
            }
            let ghost cells_before = self.cells@;
            let ambient = self.definitions[index].ambient_temperature_dk;
            if ambient <= super::WATER_BOIL_DK {
                let steam = volume(&self.cells[index].airborne, FluidId::Steam);
                let capped = if steam <= 200 { steam } else { 200 };
                let surface = self.cells[index].surface_volume();
                let room = CELL_CAPACITY_VU.saturating_sub(surface);
                let amount = if capped <= room { capped } else { room };
                if amount > 0 && surface < CELL_CAPACITY_VU {
                    let ghost cells0 = self.cells@;
                    remove_fluid(&mut self.cells[index].airborne, FluidId::Steam, amount);
                    let accepted = self.cells[index].add_surface(FluidEntry::new(FluidId::Water, amount));
                    proof {
                        let c = self.cells@[index as int];
                        lemma_volume_by_fluid(c.airborne@);
                        lemma_volume_by_fluid(c.surface@);
                        lemma_steam_only_after_removal(cells0[index as int].airborne@, c.airborne@);
                        assert(accepted == amount);
                        assert(c.wf());
                        lemma_cells_material_update(cells0, index as int, c);
                        assert(self.cells@ == cells0.update(index as int, c));
                    }
                }
            }
            proof {
                assert(cells_before[index as int] == old(self).cells@[index as int]);
                assert(condensed_cell(old(self).cells@[index as int], self.cells@[index as int], ambient));
            }
            index = index + 1;
        }
    }

    /// Steam spreads to neighbouring cells with less airborne material, unless they
    /// are sealed or gas-blocked, sharing one 300 vU per-cell cap across
    /// destinations; cells over 6000 vU airborne are reported as high pressure;
    /// steam over cells at or below boiling condenses back to water. Material is
    /// conserved and only fluid layers and events change.
    pub fn flow_steam(&mut self)
        requires
            old(self).wf(),
        ensures
            final(self).wf(),
            same_apart_from_cells(*old(self), *final(self)),
            final(self).ledger == old(self).ledger,
            final(self).cells@.len() == old(self).cells@.len(),
            forall|i: int| 0 <= i < final(self).cells@.len() ==> same_but_layers(
                old(self).cells@[i],
                #[trigger] final(self).cells@[i],
            ),
            final(self).events@.len() >= old(self).events@.len(),
            forall|k: int| 0 <= k < old(self).events@.len() ==> #[trigger] final(self).events@[k] == old(self).events@[k],
            final(self).material() == old(self).material(),
            final(self).balance() == old(self).balance(),
            steam_flowed(*old(self), *final(self)),
    {
        let moves = self.steam_moves();
        let ghost planned = moves@;
        self.apply_steam_moves(moves);
        let ghost w1 = *self;
        self.report_high_pressure();
        self.condense_steam();
        proof {
            assert(steam_moves_applied(old(self).cells@, w1.cells@, planned));
            assert(steam_flowed(*old(self), *self));
        }
    }

    /// Water meeting lava makes steam and pending rock (up to 250 vU of each per
    /// cell, limited by air capacity); lava meeting slurry vitrifies (up to 120 vU
    /// of each, doubling into pending vitrified product and cleaning the ground);
    /// standing slurry on an unsealed floor contaminates the ground up to its own
    /// contamination. Material is conserved.
    pub(crate) fn react_materials(&mut self)
        requires
            old(self).wf(),
            old(self).reaction_room(),
        ensures
            final(self).wf(),
            same_apart_from_cells(*old(self), *final(self)),
            final(self).cells@.len() == old(self).cells@.len(),
            final(self).material() == old(self).material(),
            final(self).ledger.injected == old(self).ledger.injected,
            final(self).ledger.drained == old(self).ledger.drained,
            final(self).ledger.reacted <= old(self).ledger.reacted + 740 * old(self).cells@.len(),
            final(self).ledger.products <= old(self).ledger.products + 250 * old(self).cells@.len(),
            final(self).ledger.reacted >= old(self).ledger.reacted,
            final(self).ledger.products >= old(self).ledger.products,
            forall|i: int| 0 <= i < final(self).cells@.len() ==> cell_products(#[trigger] final(self).cells@[i])
                <= cell_products(old(self).cells@[i]) + 490,
            forall|i: int| 0 <= i < final(self).cells@.len() ==> (#[trigger] final(self).cells@[i]).height_hu
                == old(self).cells@[i].height_hu,
            final(self).events@.len() >= old(self).events@.len(),
            forall|k: int| 0 <= k < old(self).events@.len() ==> #[trigger] final(self).events@[k] == old(self).events@[k],
            forall|i: int| 0 <= i < final(self).cells@.len() ==> reacted_cell(old(self).cells@[i], #[trigger] final(self).cells@[i]),
    {
        let mut index: usize = 0;
        while index < self.cells.len()
            invariant
                forall|i: int| 0 <= i < index ==> reacted_cell(old(self).cells@[i], #[trigger] self.cells@[i]),
                self.wf(),
                old(self).reaction_room(),
                index <= self.cells@.len(),
                same_apart_from_cells(*old(self), *self),
                self.cells@.len() == old(self).cells@.len(),
                cells_material(self.cells@) == cells_material(old(self).cells@),
                self.ledger.injected == old(self).ledger.injected,
                self.ledger.drained == old(self).ledger.drained,
                old(self).ledger.reacted <= self.ledger.reacted <= old(self).ledger.reacted + 740 * index,
                old(self).ledger.products <= self.ledger.products <= old(self).ledger.products + 250 * index,
                forall|i: int| 0 <= i < index ==> cell_products(#[trigger] self.cells@[i])
                    <= cell_products(old(self).cells@[i]) + 490,
                forall|i: int| index <= i < self.cells@.len() ==> #[trigger] self.cells@[i] == old(self).cells@[i],
                forall|i: int| 0 <= i < self.cells@.len() ==> (#[trigger] self.cells@[i]).height_hu
                    == old(self).cells@[i].height_hu,
                self.events@.len() >= old(self).events@.len(),
                forall|k: int| 0 <= k < old(self).events@.len() ==> #[trigger] self.events@[k] == old(self).events@[k],
            decreases self.cells@.len() - index,
        {
            proof {
                assert(self.cells@[index as int].wf());
                assert(self.width > 0) by (nonlinear_arith)
                    requires index < self.width * self.height;
                assert(cell_products(old(self).cells@[index as int]) + 570 <= super::PRODUCT_LIMIT_VU);
                let n = old(self).cells@.len();
                assert(250 * index + 250 <= 250 * n) by (nonlinear_arith)
                    requires index < n;
                assert(740 * index + 740 <= 740 * n) by (nonlinear_arith)
                    requires index < n;
            }
            #[verifier::truncate]
            let wrapped = index as u16;
            let pos = CellPos { x: wrapped % self.width, y: wrapped / self.width };
            let ghost cells0 = self.cells@;
            let reaction = self.cells[index].react_water_lava();
            let ghost c1 = self.cells@[index as int];
            if reaction > 0 {
                self.ledger.reacted = self.ledger.reacted + (reaction * 2) as u64;
                self.ledger.products = self.ledger.products + reaction as u64;
                self.events.push(super::SimEvent::MaterialReacted {
                    reaction: "water_lava".to_owned(),
                    cell: pos,
                    volume_vu: reaction,
                });
            }
            let vitrify = self.cells[index].react_lava_slurry();
            let ghost c2 = self.cells@[index as int];
            if vitrify > 0 {
                self.ledger.reacted = self.ledger.reacted + (vitrify * 2) as u64;
                self.events.push(super::SimEvent::MaterialReacted {
                    reaction: "slurry_vitrified".to_owned(),
                    cell: pos,
                    volume_vu: vitrify,
                });
            }
            self.cells[index].contaminate_ground();
            proof {
                assert(water_lava_reacted(old(self).cells@[index as int], c1) && lava_slurry_reacted(c1, c2));
                assert(reacted_cell(old(self).cells@[index as int], self.cells@[index as int]));
                let c = self.cells@[index as int];
                lemma_cells_material_update(cells0, index as int, c);
                assert(self.cells@ == cells0.update(index as int, c));
            }
            index = index + 1;
        }
    }

    /// Surface fluids relax toward each cell's ambient temperature; boiling water
    /// becomes steam and cooled lava becomes pending rock.
    pub(crate) fn heat_and_phase_change(&mut self)
        requires
            old(self).wf(),
            old(self).products_room(80),
        ensures
            final(self).wf(),
            same_apart_from_cells(*old(self), *final(self)),
            final(self).ledger == old(self).ledger,
            final(self).events == old(self).events,
            final(self).cells@.len() == old(self).cells@.len(),
            final(self).material() == old(self).material(),
            forall|i: int| 0 <= i < final(self).cells@.len() ==> cell_products(#[trigger] final(self).cells@[i])
                <= cell_products(old(self).cells@[i]) + 80,
            forall|i: int| 0 <= i < final(self).cells@.len() ==> (#[trigger] final(self).cells@[i]).height_hu
                == old(self).cells@[i].height_hu,
            forall|i: int| 0 <= i < final(self).cells@.len() ==> heated_cell(old(self).cells@[i], #[trigger] final(self).cells@[i],
                old(self).definitions@[i].ambient_temperature_dk),
    {
        let mut index: usize = 0;
        while index < self.cells.len()
            invariant
                self.wf(),
                old(self).products_room(80),
                index <= self.cells@.len(),
                same_apart_from_cells(*old(self), *self),
                self.ledger == old(self).ledger,
                self.events == old(self).events,
                self.cells@.len() == old(self).cells@.len(),
                cells_material(self.cells@) == cells_material(old(self).cells@),
                forall|i: int| 0 <= i < index ==> cell_products(#[trigger] self.cells@[i])
                    <= cell_products(old(self).cells@[i]) + 80,
                forall|i: int| index <= i < self.cells@.len() ==> #[trigger] self.cells@[i] == old(self).cells@[i],
                forall|i: int| 0 <= i < self.cells@.len() ==> (#[trigger] self.cells@[i]).height_hu
                    == old(self).cells@[i].height_hu,
                forall|i: int| 0 <= i < index ==> heated_cell(old(self).cells@[i], #[trigger] self.cells@[i],
                    old(self).definitions@[i].ambient_temperature_dk),
            decreases self.cells@.len() - index,
        {
            proof {
                assert(self.cells@[index as int].wf());
                assert(cell_products(old(self).cells@[index as int]) + 80 <= super::PRODUCT_LIMIT_VU);
            }
            let ghost cells0 = self.cells@;
            let ambient = self.definitions[index].ambient_temperature_dk;
            self.cells[index].relax_temperatures(ambient);
            let ghost mid = self.cells@[index as int];
            self.cells[index].boil_and_solidify();
            proof {
                assert(relaxed_cell(old(self).cells@[index as int], mid, ambient));
                assert(heated_cell(old(self).cells@[index as int], self.cells@[index as int], ambient));
                let c = self.cells@[index as int];
                lemma_cells_material_update(cells0, index as int, c);
                assert(self.cells@ == cells0.update(index as int, c));
            }
            index = index + 1;
        }
    }

    /// Pending terrain products form into rock and vitrified ground.
    pub(crate) fn apply_terrain_products(&mut self)
        requires
            old(self).wf(),
            forall|i: int| 0 <= i < old(self).cells@.len() ==> cell_products(#[trigger] old(self).cells@[i]) <= u32::MAX,
        ensures
            final(self).wf(),
            same_apart_from_cells(*old(self), *final(self)),
            final(self).ledger == old(self).ledger,
            final(self).events == old(self).events,
            final(self).cells@.len() == old(self).cells@.len(),
            final(self).material() == old(self).material(),
            forall|i: int| 0 <= i < final(self).cells@.len() ==> cell_products(#[trigger] final(self).cells@[i])
                == cell_products(old(self).cells@[i]),
            forall|i: int| 0 <= i < final(self).cells@.len() ==> products_formed(old(self).cells@[i], #[trigger] final(self).cells@[i]),
    {
        let mut index: usize = 0;
        while index < self.cells.len()
            invariant
                self.wf(),
                index <= self.cells@.len(),
                forall|i: int| 0 <= i < index ==> products_formed(old(self).cells@[i], #[trigger] self.cells@[i]),
                same_apart_from_cells(*old(self), *self),
                self.ledger == old(self).ledger,
                self.events == old(self).events,
                self.cells@.len() == old(self).cells@.len(),
                cells_material(self.cells@) == cells_material(old(self).cells@),
                forall|i: int| 0 <= i < self.cells@.len() ==> cell_products(#[trigger] self.cells@[i])
                    == cell_products(old(self).cells@[i]),
                forall|i: int| 0 <= i < old(self).cells@.len() ==> cell_products(#[trigger] old(self).cells@[i]) <= u32::MAX,
                forall|i: int| index <= i < self.cells@.len() ==> #[trigger] self.cells@[i] == old(self).cells@[i],
            decreases self.cells@.len() - index,
        {
            proof {
                assert(self.cells@[index as int].wf());
                assert(cell_products(old(self).cells@[index as int]) <= u32::MAX);
            }
            let ghost cells0 = self.cells@;
            self.cells[index].form_products();
            proof {
                let c = self.cells@[index as int];
                lemma_cells_material_update(cells0, index as int, c);
                assert(self.cells@ == cells0.update(index as int, c));
            }
            index = index + 1;
        }
    }

    /// Cells with an authored surface drain lose up to their drain rate each tick,
    /// taking fluids in list order; the drained volume is credited to the ledger.
    pub(crate) fn drain_surface_outlets(&mut self)
        requires
            old(self).wf(),
            old(self).drain_room(),
        ensures
            final(self).wf(),
            same_apart_from_cells(*old(self), *final(self)),
            final(self).events == old(self).events,
            final(self).ledger == (super::MassLedger { drained: final(self).ledger.drained, ..old(self).ledger }),
            old(self).ledger.drained <= final(self).ledger.drained <= old(self).ledger.drained
                + CELL_CAPACITY_VU * old(self).cells@.len(),
            final(self).cells@.len() == old(self).cells@.len(),
            forall|i: int| 0 <= i < final(self).cells@.len() ==> same_but_surface(
                old(self).cells@[i],
                #[trigger] final(self).cells@[i],
            ),
            final(self).balance() == old(self).balance(),
            final(self).ledger.drained == old(self).ledger.drained + outlets_drain(*old(self), old(self).cells@.len() as int),
            forall|i: int| 0 <= i < final(self).cells@.len() ==> outlet_applied(*old(self), i, #[trigger] final(self).cells@[i]),
    {
        let mut index: usize = 0;
        while index < self.cells.len()
            invariant
                self.wf(),
                old(self).drain_room(),
                self.ledger.drained == old(self).ledger.drained + outlets_drain(*old(self), index as int),
                forall|i: int| 0 <= i < index ==> outlet_applied(*old(self), i, #[trigger] self.cells@[i]),
                forall|i: int| index <= i < self.cells@.len() ==> #[trigger] self.cells@[i] == old(self).cells@[i],
                index <= self.cells@.len(),
                same_apart_from_cells(*old(self), *self),
                self.events == old(self).events,
                self.ledger == (super::MassLedger { drained: self.ledger.drained, ..old(self).ledger }),
                old(self).ledger.drained <= self.ledger.drained <= old(self).ledger.drained + CELL_CAPACITY_VU * index,
                self.cells@.len() == old(self).cells@.len(),
                cells_material(self.cells@) - old(self).ledger.drained + self.ledger.drained == cells_material(old(self).cells@),
                forall|i: int| 0 <= i < self.cells@.len() ==> same_but_surface(
                    old(self).cells@[i],
                    #[trigger] self.cells@[i],
                ),
            decreases self.cells@.len() - index,
        {
            proof {
                assert(self.cells@[index as int].wf());
                let n = old(self).cells@.len();
                assert(8000 * index + 8000 <= 8000 * n) by (nonlinear_arith)
                    requires index < n;
            }
            let rate = self.definitions[index].surface_drain_rate_vu;
            proof {
                assert(self.definitions@[index as int] == old(self).definitions@[index as int]);
                assert(self.cells@[index as int] == old(self).cells@[index as int]);
            }
            if rate > 0 {
                let ghost cells0 = self.cells@;
                let drained = self.cells[index].drain_surface(rate);
                self.ledger.drained = self.ledger.drained + drained as u64;
                proof {
                    let c = self.cells@[index as int];
                    lemma_cells_material_update(cells0, index as int, c);
                    assert(self.cells@ == cells0.update(index as int, c));
                    assert(outlet_applied(*old(self), index as int, c));
                }
            }
            proof {
                assert(outlets_drain(*old(self), index as int + 1) == outlets_drain(*old(self), index as int) + outlet_drain(*old(self), index as int));
            }
            index = index + 1;
        }
    }

    /// The downhill surface moves of one tick, computed from the current cells.
    #[verifier::rlimit(100)]
    #[verifier::spinoff_prover]
    fn surface_transfers(&self) -> (transfers: Vec<SurfaceTransfer>)
        requires
            self.wf(),
        ensures
            forall|k: int| 0 <= k < transfers@.len() ==> transfer_ok(#[trigger] transfers@[k], self.cells@.len() as int)
                && downhill_pair(*self, transfers@[k].0 as int, transfers@[k].1 as int),
            forall|pos: CellPos|
                pos.x < self.width && pos.y < self.height && #[trigger] surface_can_flow(*self, pos)
                    ==> has_transfer_from(transfers@, self.index_of(pos)->0 as int),
            transfers@ == planned_surface(*self),
    {
        let mut transfers: Vec<SurfaceTransfer> = Vec::new();
        let mut y: u16 = 0;
        while y < self.height
            invariant
                self.wf(),
                y <= self.height,
                transfers@ == rows_plan(*self, y as int),
                forall|pos: CellPos|
                    pos.x < self.width && pos.y < y && #[trigger] surface_can_flow(*self, pos)
                        ==> has_transfer_from(transfers@, self.index_of(pos)->0 as int),
                forall|k: int| 0 <= k < transfers@.len() ==> transfer_ok(#[trigger] transfers@[k], self.cells@.len() as int)
                    && downhill_pair(*self, transfers@[k].0 as int, transfers@[k].1 as int),
            decreases self.height - y,
        {
            let mut x: u16 = 0;
            proof {
                assert(rows_plan(*self, y as int) + row_plan(*self, y as int, 0) =~= rows_plan(*self, y as int));
            }
            while x < self.width
                invariant
                    self.wf(),
                    y < self.height,
                    x <= self.width,
                    transfers@ == rows_plan(*self, y as int) + row_plan(*self, y as int, x as int),
                    forall|pos: CellPos|
                        pos.x < self.width && (pos.y < y || (pos.y == y && pos.x < x)) && #[trigger] surface_can_flow(*self, pos)
                            ==> has_transfer_from(transfers@, self.index_of(pos)->0 as int),
                    forall|k: int| 0 <= k < transfers@.len() ==> transfer_ok(#[trigger] transfers@[k], self.cells@.len() as int)
                    && downhill_pair(*self, transfers@[k].0 as int, transfers@[k].1 as int),
                decreases self.width - x,
            {
                let source_pos = CellPos { x, y };
                let ghost prev = transfers@;
                proof {
                    lemma_grid_index_bound(self.width, self.height, source_pos);
                }
                let source_index = match self.index(source_pos) {
                    Some(i) => i,
                    None => {
                        proof {
                            lemma_row_plan_next(*self, y as int, x as int);
                            assert(cell_plan(*self, source_pos) =~= seq![]);
                            assert(transfers@ + cell_plan(*self, source_pos) =~= transfers@);
                        }
                        x = x + 1;
                        continue;
                    },
                };
                let source = &self.cells[source_index];
                proof {
                    assert(source.wf());
                }
                let total = source.surface_volume();
                if total == 0 {
                    proof {
                        lemma_row_plan_next(*self, y as int, x as int);
                        assert(cell_plan(*self, source_pos) =~= seq![]);
                        assert(transfers@ + cell_plan(*self, source_pos) =~= transfers@);
                    }
                    x = x + 1;
                    continue;
                }
                let mut limit: u32 = 0;
                let mut k: usize = 0;
                while k < source.surface.len()
                    invariant
                        k <= source.surface@.len(),
                        limit <= 400,
                        k > 0 ==> limit > 0,
                        k > 0 ==> limit == surface_limit(source.surface@.take(k as int)),
                    decreases source.surface@.len() - k,
                {
                    let t = source.surface[k].fluid.max_transfer();
                    if k == 0 || t < limit {
                        limit = t;
                    }
                    proof {
                        assert(source.surface@.take(k as int + 1).drop_last() =~= source.surface@.take(k as int));
                    }
                    k = k + 1;
                }
                proof {
                    assert(source.surface@.take(k as int) =~= source.surface@);
                    assert(source.surface@.len() > 0);
                }
                let neighbors = self.neighbors(source_pos);
                let mut options: Vec<(CellPos, u8, u32)> = Vec::new();
                let mut n: usize = 0;
                while n < neighbors.len()
                    invariant
                        self.wf(),
                        source_pos.x < self.width,
                        source_pos.y < self.height,
                        source.wf(),
                        source == self.cells@[source_index as int],
                        neighbors@ == neighbors_spec(self.width, self.height, source_pos),
                        n <= neighbors@.len(),
                        options@.len() <= n,
                        forall|m: int| 0 <= m < options@.len() ==> {
                            &&& (#[trigger] options@[m]).0.x < self.width
                            &&& options@[m].0.y < self.height
                            &&& options@[m].2 <= 120_500
                            &&& open_downhill(*self, source_pos, options@[m].0)
                        },
                        self.index_of(source_pos) == Some(source_index),
                        (exists|n2: int| 0 <= n2 < n && #[trigger] surface_opening(*self, source_pos, neighbors@[n2].0))
                            ==> exists|m: int| 0 <= m < options@.len() && (#[trigger] options@[m]).2 > 0,
                        options@ == surface_options(*self, source_pos, neighbors@.take(n as int)),
                    decreases neighbors@.len() - n,
                {
                    let ghost before_opts = options@;
                    proof {
                        assert(neighbors@.take(n as int + 1).drop_last() =~= neighbors@.take(n as int));
                    }
                    let (dest_pos, direction) = neighbors[n];
                    proof {
                        assert(dest_pos.x < self.width && dest_pos.y < self.height);
                        lemma_grid_index_bound(self.width, self.height, dest_pos);
                    }
                    if let Some(dest_index) = self.index(dest_pos) {
                        let dest = &self.cells[dest_index];
                        proof {
                            assert(dest.wf());
                        }
                        let delta: i32 = source.surface_head_hu() - dest.surface_head_hu();
                        let gate_factor = self.devices.surface_flow_factor(source_pos, dest_pos);
                        let blocked = delta <= 1 || (source.contained != dest.contained
                            && !self.devices.controls_surface_edge(source_pos, dest_pos))
                            || dest.surface_volume() >= CELL_CAPACITY_VU || gate_factor == 0;
                        if !blocked {
                            proof {
                                lemma_neighbors_adjacent(self.width, self.height, source_pos, n as int);
                                assert(open_downhill(*self, source_pos, dest_pos));
                            }
                            let base: u32 = delta as u32 / 4;
                            proof {
                                assert(base <= 18_384);
                                assert(base * gate_factor <= 18_384 * 65_535) by (nonlinear_arith)
                                    requires base <= 18_384, gate_factor <= 65_535;
                            }
                            let weight: u32 = base * gate_factor / 10_000;
                            proof {
                                assert(weight == edge_weight(*self, source_pos, dest_pos));
                            }
                            options.push((dest_pos, direction, weight));
                            proof {
                                if weight > 0 {
                                    assert(options@[options@.len() - 1].2 > 0);
                                }
                            }
                        }
                    }
                    proof {
                        if exists|n2: int| 0 <= n2 < n + 1 && #[trigger] surface_opening(*self, source_pos, neighbors@[n2].0) {
                            let n2 = choose|n2: int| 0 <= n2 < n + 1 && #[trigger] surface_opening(*self, source_pos, neighbors@[n2].0);
                            if n2 == n {
                                assert(surface_opening(*self, source_pos, dest_pos));
                                assert(options@[options@.len() - 1].2 > 0);
                            } else {
                                assert(exists|n3: int| 0 <= n3 < n && #[trigger] surface_opening(*self, source_pos, neighbors@[n3].0));
                                let m0 = choose|m: int| 0 <= m < before_opts.len() && (#[trigger] before_opts[m]).2 > 0;
                                assert(options@[m0] == before_opts[m0]);
                            }
                        }
                    }
                    n = n + 1;
                }
                let mut total_weight: u32 = 0;
                let mut m: usize = 0;
                while m < options.len()
                    invariant
                        m <= options@.len(),
                        options@.len() <= 4,
                        total_weight <= m * 120_500,
                        forall|q: int| 0 <= q < options@.len() ==> (#[trigger] options@[q]).2 <= 120_500,
                        forall|q: int| 0 <= q < options@.len() ==> open_downhill(*self, source_pos, (#[trigger] options@[q]).0),
                        (exists|q: int| 0 <= q < m && (#[trigger] options@[q]).2 > 0) ==> total_weight > 0,
                        total_weight == option_weights(options@.take(m as int)),
                    decreases options@.len() - m,
                {
                    proof {
                        assert(options@.take(m as int + 1).drop_last() =~= options@.take(m as int));
                    }
                    total_weight = total_weight + options[m].2;
                    m = m + 1;
                }
                proof {
                    assert(options@.take(m as int) =~= options@);
                    assert(neighbors@.take(neighbors@.len() as int) =~= neighbors@);
                }
                proof {
                    if surface_can_flow(*self, source_pos) {
                        let n2 = choose|n2: int| 0 <= n2 < neighbors_spec(self.width, self.height, source_pos).len()
                            && #[trigger] surface_opening(*self, source_pos, neighbors_spec(self.width, self.height, source_pos)[n2].0);
                        assert(surface_opening(*self, source_pos, neighbors@[n2].0));
                        assert(total_weight > 0);
                    }
                }
                if total_weight == 0 {
                    proof {
                        lemma_row_plan_next(*self, y as int, x as int);
                        assert(cell_plan(*self, source_pos) =~= seq![]);
                        assert(transfers@ + cell_plan(*self, source_pos) =~= transfers@);
                    }
                    x = x + 1;
                    continue;
                }
                let mut budget = if total <= limit { total } else { limit };
                if total_weight < budget {
                    budget = total_weight;
                }
                let mut assigned: u32 = 0;
                let mut m: usize = 0;
                while m < options.len()
                    invariant
                        self.wf(),
                        source.wf(),
                        source == self.cells@[source_index as int],
                        source_index < self.cells@.len(),
                        m <= options@.len(),
                        options@.len() <= 4,
                        budget <= 400,
                        total_weight > 0,
                        assigned <= m * 400,
                        forall|q: int| 0 <= q < options@.len() ==> {
                            &&& (#[trigger] options@[q]).0.x < self.width
                            &&& options@[q].0.y < self.height
                            &&& open_downhill(*self, source_pos, options@[q].0)
                        },
                        self.index_of(source_pos) == Some(source_index),
                        forall|k: int| 0 <= k < transfers@.len() ==> transfer_ok(#[trigger] transfers@[k], self.cells@.len() as int)
                    && downhill_pair(*self, transfers@[k].0 as int, transfers@[k].1 as int),
                        transfers@.len() >= prev.len(),
                        forall|k: int| 0 <= k < prev.len() ==> #[trigger] transfers@[k] == prev[k],
                        assigned > 0 ==> has_transfer_from(transfers@, source_index as int),
                        seq_volume(source.surface@) > 0,
                        transfers@ == prev + assigned_plan(*self, source_index, budget, total_weight as int, options@.take(m as int)).0,
                        assigned == assigned_plan(*self, source_index, budget, total_weight as int, options@.take(m as int)).1,
                    decreases options@.len() - m,
                {
                    let ghost before_m = transfers@;
                    proof {
                        assert(options@.take(m as int + 1).drop_last() =~= options@.take(m as int));
                    }
                    let (dest_pos, _, weight) = options[m];
                    proof {
                        lemma_grid_index_bound(self.width, self.height, dest_pos);
                    }
                    if let Some(destination) = self.index(dest_pos) {
                        proof {
                            assert((budget as int) * (weight as int) <= 400 * 4294967295) by (nonlinear_arith)
                                requires budget <= 400;
                            if weight <= total_weight {
                                assert((budget as int) * (weight as int) / (total_weight as int) <= budget) by (nonlinear_arith)
                                    requires weight <= total_weight, total_weight > 0;
                            }
                        }
                        let scaled: u64 = budget as u64 * weight as u64 / total_weight as u64;
                        let amount: u32 = if scaled <= 400 { scaled as u32 } else { 400 };
                        let ghost before_amount = transfers@;
                        assigned = assigned + amount;
                        if amount > 0 {
                            proof {
                                assert(open_downhill(*self, source_pos, options@[m as int].0));
                                assert(downhill_pair(*self, source_index as int, destination as int));
                            }
                            let parts = mixture_split(source, amount);
                            proof {
                                lemma_split_nonempty(source, amount);
                            }
                            let ghost before_parts = transfers@;
                            let mut p: usize = 0;
                            while p < parts.len()
                                invariant
                                    p <= parts@.len(),
                                    source_index < self.cells@.len(),
                                    destination < self.cells@.len(),
                                    downhill_pair(*self, source_index as int, destination as int),
                                    forall|k: int| 0 <= k < parts@.len() ==> -TEMPERATURE_LIMIT_DK <= (#[trigger] parts@[k]).2
                                        <= TEMPERATURE_LIMIT_DK,
                                    forall|k: int| 0 <= k < transfers@.len() ==> transfer_ok(#[trigger] transfers@[k], self.cells@.len() as int)
                    && downhill_pair(*self, transfers@[k].0 as int, transfers@[k].1 as int),
                                    transfers@.len() == before_parts.len() + p,
                                    forall|k: int| 0 <= k < before_parts.len() ==> #[trigger] transfers@[k] == before_parts[k],
                                    forall|k: int| before_parts.len() <= k < transfers@.len() ==> (#[trigger] transfers@[k]).0 == source_index,
                                    transfers@ == before_parts + parts_transfers(source_index, destination, parts@).take(p as int),
                                decreases parts@.len() - p,
                            {
                                let (fluid, part, temp, contamination) = parts[p];
                                transfers.push((source_index, destination, fluid, part, temp, contamination));
                                proof {
                                    assert(parts_transfers(source_index, destination, parts@).take(p as int + 1)
                                        =~= parts_transfers(source_index, destination, parts@).take(p as int).push(
                                        (source_index, destination, fluid, part, temp, contamination)));
                                }
                                p = p + 1;
                            }
                            proof {
                                assert(parts_transfers(source_index, destination, parts@).take(p as int)
                                    =~= parts_transfers(source_index, destination, parts@));
                            }
                            proof {
                                assert(transfers@[before_parts.len() as int].0 == source_index);
                                assert forall|k: int| 0 <= k < prev.len() implies #[trigger] transfers@[k] == prev[k] by {
                                    assert(transfers@[k] == before_parts[k]);
                                }
                            }
                        }
                        proof {
                            if has_transfer_from(before_amount, source_index as int) {
                                let k0 = choose|k: int| 0 <= k < before_amount.len() && (#[trigger] before_amount[k]).0 == source_index as int;
                                assert(transfers@[k0] == before_amount[k0]);
                            }
                        }
                    }
                    proof {
                        let t0 = options@.take(m as int);
                        let pl = assigned_plan(*self, source_index, budget, total_weight as int, t0);
                        let pl1 = assigned_plan(*self, source_index, budget, total_weight as int, options@.take(m as int + 1));
                        assert(options@.take(m as int + 1).last() == options@[m as int]);
                        if transfers@.len() > before_m.len() {
                            assert(transfers@ =~= prev + pl1.0);
                        } else {
                            assert(transfers@ =~= prev + pl1.0);
                        }
                    }
                    m = m + 1;
                }
                proof {
                    assert(options@.take(m as int) =~= options@);
                }
                let ghost after_assigned = transfers@;
                if assigned < budget && options.len() > 0 {
                    let (dest_pos, _, _) = options[0];
                    proof {
                        lemma_grid_index_bound(self.width, self.height, dest_pos);
                    }
                    if let Some(destination) = self.index(dest_pos) {
                        let amount = budget - assigned;
                        proof {
                            assert(open_downhill(*self, source_pos, options@[0].0));
                            assert(downhill_pair(*self, source_index as int, destination as int));
                        }
                        let parts = mixture_split(source, amount);
                        proof {
                            lemma_split_nonempty(source, amount);
                        }
                        let ghost before_parts = transfers@;
                        let mut p: usize = 0;
                        while p < parts.len()
                            invariant
                                p <= parts@.len(),
                                source_index < self.cells@.len(),
                                destination < self.cells@.len(),
                                downhill_pair(*self, source_index as int, destination as int),
                                forall|k: int| 0 <= k < parts@.len() ==> -TEMPERATURE_LIMIT_DK <= (#[trigger] parts@[k]).2
                                    <= TEMPERATURE_LIMIT_DK,
                                forall|k: int| 0 <= k < transfers@.len() ==> transfer_ok(#[trigger] transfers@[k], self.cells@.len() as int)
                    && downhill_pair(*self, transfers@[k].0 as int, transfers@[k].1 as int),
                                transfers@.len() == before_parts.len() + p,
                                forall|k: int| 0 <= k < before_parts.len() ==> #[trigger] transfers@[k] == before_parts[k],
                                forall|k: int| before_parts.len() <= k < transfers@.len() ==> (#[trigger] transfers@[k]).0 == source_index,
                                transfers@ == before_parts + parts_transfers(source_index, destination, parts@).take(p as int),
                            decreases parts@.len() - p,
                        {
                            let (fluid, part, temp, contamination) = parts[p];
                            transfers.push((source_index, destination, fluid, part, temp, contamination));
                            proof {
                                assert(parts_transfers(source_index, destination, parts@).take(p as int + 1)
                                    =~= parts_transfers(source_index, destination, parts@).take(p as int).push(
                                    (source_index, destination, fluid, part, temp, contamination)));
                            }
                            p = p + 1;
                        }
                        proof {
                            assert(parts_transfers(source_index, destination, parts@).take(p as int)
                                =~= parts_transfers(source_index, destination, parts@));
                        }
                        proof {
                            assert(transfers@[before_parts.len() as int].0 == source_index);
                            assert forall|k: int| 0 <= k < prev.len() implies #[trigger] transfers@[k] == prev[k] by {
                                assert(transfers@[k] == before_parts[k]);
                            }
                        }
                    }
                }
                proof {
                    lemma_row_plan_next(*self, y as int, x as int);
                    assert(transfers@ =~= prev + cell_plan(*self, source_pos));
                    if surface_can_flow(*self, source_pos) {
                        assert(has_transfer_from(transfers@, source_index as int));
                    }
                    assert forall|p2: CellPos|
                        p2.x < self.width && (p2.y < y || (p2.y == y && p2.x < x + 1)) && #[trigger] surface_can_flow(*self, p2)
                            implies has_transfer_from(transfers@, self.index_of(p2)->0 as int) by {
                        if p2.y == y && p2.x == x {
                            assert(p2 == source_pos);
                        } else {
                            let c = self.index_of(p2)->0 as int;
                            let k0 = choose|k: int| 0 <= k < prev.len() && (#[trigger] prev[k]).0 == c;
                            assert(transfers@[k0] == prev[k0]);
                        }
                    }
                }
                x = x + 1;
            }
            proof {
                assert(transfers@ == rows_plan(*self, y as int + 1));
            }
            y = y + 1;
        }
        transfers
    }
}

} // verus!
