//! The authored terrain, sources and infrastructure of the three campaign maps.

use vstd::prelude::*;

use super::edit::{edit_cell, edit_holds, edit_rect, edited_where, in_rect, same_but_grid, CellEdit};
use super::{cell_at, definition_at, install_device};
use crate::devices::DeviceId;
use crate::simulation::entries::{fluid_volume, seq_volume};
use crate::simulation::{accepted_volume, FluidId, SimCell, SimulationWorld, SourceState, ENTITY_LIMIT, LEDGER_LIMIT_VU};
use crate::simulation::world::same_apart_from_cells;
use crate::state::{lemma_grid_index_bound, lemma_grid_index_injective, CellPos};

verus! {

/// The world keeps its grid size, sources, devices and everything but its cells
/// and definitions.
pub open spec fn grid_only(before: SimulationWorld, after: SimulationWorld) -> bool {
    same_but_grid(before, after)
}

/// At `p`, when on the grid, the definition is unchanged.
pub open spec fn definition_kept(before: SimulationWorld, after: SimulationWorld, p: CellPos) -> bool {
    match before.index_of(p) {
        Some(i) => after.definitions@[i as int] == before.definitions@[i as int],
        None => true,
    }
}

/// At `p`, when on the grid, the definition is unchanged unless `p` is `drain`,
/// which became a protected 800 vU drain.
pub open spec fn drain_made(before: SimulationWorld, after: SimulationWorld, p: CellPos, drain: CellPos) -> bool {
    match before.index_of(p) {
        Some(i) => after.definitions@[i as int] == if p == drain {
            crate::simulation::CellDefinition {
                protected: true,
                surface_drain_rate_vu: 800,
                ..before.definitions@[i as int]
            }
        } else {
            before.definitions@[i as int]
        },
        None => true,
    }
}

/// Authoring keeps the tick, power sources, deposits, schedule and stock.
pub open spec fn authoring_frame(before: SimulationWorld, after: SimulationWorld) -> bool {
    &&& after.tick == before.tick
    &&& after.power_sources == before.power_sources
    &&& after.deposits == before.deposits
    &&& after.source_schedule == before.source_schedule
    &&& after.fabrication == before.fabrication
}

/// Only cells, the ledger and events differ.
pub open spec fn same_but_cells(before: SimulationWorld, after: SimulationWorld) -> bool {
    &&& same_apart_from_cells(before, after)
    &&& after.cells@.len() == before.cells@.len()
}

/// Set every definition's ambient temperature.
fn set_ambient(world: &mut SimulationWorld, ambient: i32)
    requires
        old(world).wf(),
        -1_000_000_000 <= ambient <= 1_000_000_000,
    ensures
        final(world).wf(),
        grid_only(*old(world), *final(world)),
        final(world).balance() == old(world).balance(),
        forall|p: CellPos| #![trigger old(world).index_of(p)] edit_holds(*old(world), *final(world), p, CellEdit::Ambient(ambient), true),
{
    if world.width > 0 && world.height > 0 {
        edit_rect(world, 0, world.width - 1, 0, world.height - 1, CellEdit::Ambient(ambient));
    } else {
        proof {
            assert forall|p: CellPos| #![trigger old(world).index_of(p)] edit_holds(*old(world), *world, p, CellEdit::Ambient(ambient), true) by {
            }
        }
    }
}

/// One runoff cut of the first map: the course just past it is raised 100 hU, the
/// cut descends 100 hU per cell from 100 hU below the course to a protected drain
/// of 800 vU per tick at `(x, drain_y)`.
fn author_cut(world: &mut SimulationWorld, x: u16, drain_y: u16)
    requires
        old(world).wf(),
        2 <= x <= 30,
        10 <= drain_y <= 20,
    ensures
        final(world).wf(),
        grid_only(*old(world), *final(world)),
        final(world).balance() == old(world).balance(),
        forall|p: CellPos| #![trigger old(world).index_of(p)] drain_made(*old(world), *final(world), p, CellPos { x, y: drain_y }),
{
    let ghost start = *world;
    let course: i16 = 1_900 - (x as i16) * 25;
    edit_cell(world, CellPos { x: x + 1, y: 9 }, CellEdit::Height(course + 100));
    let mut y: u16 = 10;
    while y <= drain_y
        invariant
            world.wf(),
            10 <= y <= drain_y + 1,
            drain_y <= 20,
            2 <= x <= 30,
            course == 1_900 - x * 25,
            grid_only(start, *world),
            world.balance() == start.balance(),
            forall|p: CellPos| #![trigger start.index_of(p)] definition_kept(start, *world, p),
        decreases drain_y + 1 - y,
    {
        let ghost before = *world;
        let h: i16 = course - 100 - (y as i16 - 10) * 100;
        edit_cell(world, CellPos { x, y }, CellEdit::Height(h));
        proof {
            assert forall|p: CellPos| #![trigger start.index_of(p)] definition_kept(start, *world, p) by {
                assert(before.index_of(p) == start.index_of(p));
                assert(definition_kept(start, before, p));
                assert(edit_holds(before, *world, p, CellEdit::Height(h), p == CellPos { x, y }));
            }
        }
        y = y + 1;
    }
    let ghost mid = *world;
    let drain = CellPos { x, y: drain_y };
    edit_cell(world, drain, CellEdit::Drain(800));
    let ghost drained = *world;
    edit_cell(world, drain, CellEdit::Protect);
    proof {
        assert forall|p: CellPos| #![trigger start.index_of(p)] drain_made(start, *world, p, drain) by {
            assert(mid.index_of(p) == start.index_of(p));
            assert(drained.index_of(p) == start.index_of(p));
            assert(definition_kept(start, mid, p));
            assert(edit_holds(mid, drained, p, CellEdit::Drain(800), p == drain));
            assert(edit_holds(drained, *world, p, CellEdit::Protect, p == drain));
        }
    }
}

/// Author the first map: a west-to-east meltwater course at 3030 dK ambient that
/// crosses three southward runoff cuts, each ending in a protected 800 vU drain;
/// a sealed, contained dam basin at 600 hU in columns 26 to 30, rows 7 to 11; a
/// water source at (2, 9) of 20 vU per tick; the protected beacon at (24, 8);
/// and an open floodgate at the dam inlet (25, 9).
pub fn author_l01(world: &mut SimulationWorld)
    requires
        old(world).wf(),
        old(world).sources@.len() < ENTITY_LIMIT,
        old(world).devices.next_entity_id < u32::MAX,
        old(world).devices.devices@.len() < ENTITY_LIMIT,
    ensures
        authoring_frame(*old(world), *final(world)),
        final(world).wf(),
        final(world).width == old(world).width,
        final(world).height == old(world).height,
        final(world).balance() == old(world).balance(),
        final(world).ledger == old(world).ledger,
        final(world).sources@ == old(world).sources@.push(
            SourceState { position: CellPos { x: 2, y: 9 }, fluid: FluidId::Water, rate_vu: 20, enabled: false },
        ),
        old(world).width >= 31 && old(world).height >= 16 ==> {
            &&& definition_at(*final(world), CellPos { x: 24, y: 8 }).protected
            &&& forall|p: CellPos|
                #![trigger cell_at(*final(world), p)]
                in_rect(p, 26, 30, 7, 11) ==> {
                    &&& cell_at(*final(world), p).height_hu == 600
                    &&& cell_at(*final(world), p).sealed
                    &&& cell_at(*final(world), p).contained
                }
            &&& definition_at(*final(world), CellPos { x: 8, y: 14 }).protected
            &&& definition_at(*final(world), CellPos { x: 8, y: 14 }).surface_drain_rate_vu == 800
            &&& definition_at(*final(world), CellPos { x: 14, y: 15 }).protected
            &&& definition_at(*final(world), CellPos { x: 14, y: 15 }).surface_drain_rate_vu == 800
            &&& definition_at(*final(world), CellPos { x: 20, y: 14 }).protected
            &&& definition_at(*final(world), CellPos { x: 20, y: 14 }).surface_drain_rate_vu == 800
        },
{
    let ghost w0 = *world;
    set_ambient(world, 3_030);
    if world.width > 0 && world.height > 0 {
        edit_rect(world, 0, world.width - 1, 0, world.height - 1, CellEdit::Height(2_400));
    }
    let mut x: u16 = 2;
    while x <= 25
        invariant
            world.wf(),
            2 <= x <= 26,
            grid_only(w0, *world),
            world.balance() == w0.balance(),
        decreases 26 - x,
    {
        edit_cell(world, CellPos { x, y: 9 }, CellEdit::Height(1_900 - (x as i16) * 25));
        x = x + 1;
    }
    let ghost w1 = *world;
    author_cut(world, 8, 14);
    let ghost w2 = *world;
    author_cut(world, 14, 15);
    let ghost w3 = *world;
    author_cut(world, 20, 14);
    let ghost w4 = *world;
    edit_rect(world, 26, 30, 7, 11, CellEdit::Height(600));
    let ghost w5 = *world;
    edit_rect(world, 26, 30, 7, 11, CellEdit::Seal);
    let ghost w6 = *world;
    edit_rect(world, 26, 30, 7, 11, CellEdit::Contain);
    let ghost w7 = *world;
    world.add_source(CellPos { x: 2, y: 9 }, FluidId::Water, 20);
    let ghost w8 = *world;
    edit_cell(world, CellPos { x: 24, y: 8 }, CellEdit::Protect);
    let ghost w9 = *world;
    install_device(world, DeviceId::Floodgate, CellPos { x: 25, y: 9 }, 0, 10_000);
    proof {
        if w0.width >= 31 && w0.height >= 16 {
            let beacon = CellPos { x: 24, y: 8 };
            assert(w8.index_of(beacon) == w9.index_of(beacon));
            assert(edit_holds(w8, w9, beacon, CellEdit::Protect, true));
            assert forall|p: CellPos| #![trigger cell_at(*world, p)] in_rect(p, 26, 30, 7, 11) implies {
                &&& cell_at(*world, p).height_hu == 600
                &&& cell_at(*world, p).sealed
                &&& cell_at(*world, p).contained
            } by {
                assert(w4.index_of(p) == w0.index_of(p));
                assert(w5.index_of(p) == w0.index_of(p));
                assert(w6.index_of(p) == w0.index_of(p));
                assert(w8.index_of(p) == w0.index_of(p));
                assert(edit_holds(w4, w5, p, CellEdit::Height(600), true));
                assert(edit_holds(w5, w6, p, CellEdit::Seal, true));
                assert(edit_holds(w6, w7, p, CellEdit::Contain, true));
                assert(edit_holds(w8, w9, p, CellEdit::Protect, p == beacon));
            }
            let d1 = CellPos { x: 8, y: 14 };
            let d2 = CellPos { x: 14, y: 15 };
            let d3 = CellPos { x: 20, y: 14 };
            assert(w1.index_of(d1) == w0.index_of(d1));
            assert(w2.index_of(d1) == w0.index_of(d1));
            assert(w3.index_of(d1) == w0.index_of(d1));
            assert(w4.index_of(d1) == w0.index_of(d1));
            assert(w5.index_of(d1) == w0.index_of(d1));
            assert(w6.index_of(d1) == w0.index_of(d1));
            assert(w8.index_of(d1) == w0.index_of(d1));
            assert(w2.index_of(d2) == w0.index_of(d2));
            assert(w3.index_of(d2) == w0.index_of(d2));
            assert(w4.index_of(d2) == w0.index_of(d2));
            assert(w5.index_of(d2) == w0.index_of(d2));
            assert(w6.index_of(d2) == w0.index_of(d2));
            assert(w8.index_of(d2) == w0.index_of(d2));
            assert(w3.index_of(d3) == w0.index_of(d3));
            assert(w4.index_of(d3) == w0.index_of(d3));
            assert(w5.index_of(d3) == w0.index_of(d3));
            assert(w6.index_of(d3) == w0.index_of(d3));
            assert(w8.index_of(d3) == w0.index_of(d3));
            assert(edit_holds(w4, w5, d1, CellEdit::Height(600), in_rect(d1, 26, 30, 7, 11)));
            assert(edit_holds(w5, w6, d1, CellEdit::Seal, in_rect(d1, 26, 30, 7, 11)));
            assert(edit_holds(w6, w7, d1, CellEdit::Contain, in_rect(d1, 26, 30, 7, 11)));
            assert(edit_holds(w8, w9, d1, CellEdit::Protect, d1 == beacon));
            assert(edit_holds(w4, w5, d2, CellEdit::Height(600), in_rect(d2, 26, 30, 7, 11)));
            assert(edit_holds(w5, w6, d2, CellEdit::Seal, in_rect(d2, 26, 30, 7, 11)));
            assert(edit_holds(w6, w7, d2, CellEdit::Contain, in_rect(d2, 26, 30, 7, 11)));
            assert(edit_holds(w8, w9, d2, CellEdit::Protect, d2 == beacon));
            assert(edit_holds(w4, w5, d3, CellEdit::Height(600), in_rect(d3, 26, 30, 7, 11)));
            assert(edit_holds(w5, w6, d3, CellEdit::Seal, in_rect(d3, 26, 30, 7, 11)));
            assert(edit_holds(w6, w7, d3, CellEdit::Contain, in_rect(d3, 26, 30, 7, 11)));
            assert(edit_holds(w8, w9, d3, CellEdit::Protect, d3 == beacon));
        }
    }
}

/// `ws` walks through installing authored `device` at each `(x, y, rotation)` of
/// `run` in turn, each with `setting_bp` (see `fixture_installed`).
pub open spec fn run_steps(ws: Seq<SimulationWorld>, device: DeviceId, run: Seq<(u16, u16, u8)>, setting_bp: u16) -> bool {
    &&& ws.len() == run.len() + 1
    &&& forall|i: int|
        0 <= i < run.len() ==> {
            &&& crate::campaign::fixture_installed(
                #[trigger] ws[i],
                ws[i].devices,
                ws[i + 1].devices,
                device,
                CellPos { x: run[i].0, y: run[i].1 },
                run[i].2,
                setting_bp,
            )
            &&& ws[i + 1] == (SimulationWorld { devices: ws[i + 1].devices, ..ws[i] })
        }
}

/// Install a run of authored devices of one kind, with rotation, at fixed setting.
fn install_run(world: &mut SimulationWorld, device: DeviceId, run: &[(u16, u16, u8)], setting_bp: u16)
    requires
        old(world).wf(),
        old(world).devices.next_entity_id + run@.len() < u32::MAX,
        old(world).devices.devices@.len() + run@.len() < ENTITY_LIMIT,
    ensures
        final(world).wf(),
        *final(world) == (SimulationWorld { devices: final(world).devices, ..*old(world) }),
        final(world).devices.next_entity_id <= old(world).devices.next_entity_id + run@.len(),
        final(world).devices.devices@.len() <= old(world).devices.devices@.len() + run@.len(),
        final(world).balance() == old(world).balance(),
        exists|ws: Seq<SimulationWorld>|
            #[trigger] run_steps(ws, device, run@, setting_bp) && ws[0] == *old(world) && ws.last() == *final(world),
{
    let mut k: usize = 0;
    let ghost mut ws: Seq<SimulationWorld> = seq![*world];
    while k < run.len()
        invariant
            k <= run@.len(),
            world.wf(),
            *world == (SimulationWorld { devices: world.devices, ..*old(world) }),
            world.devices.next_entity_id <= old(world).devices.next_entity_id + k,
            world.devices.devices@.len() <= old(world).devices.devices@.len() + k,
            old(world).devices.next_entity_id + run@.len() < u32::MAX,
            old(world).devices.devices@.len() + run@.len() < ENTITY_LIMIT,
            world.balance() == old(world).balance(),
            run_steps(ws, device, run@.take(k as int), setting_bp),
            ws[0] == *old(world),
            ws.last() == *world,
        decreases run@.len() - k,
    {
        let (x, y, rotation) = run[k];
        let ghost before = *world;
        install_device(world, device, CellPos { x, y }, rotation, setting_bp);
        proof {
            let r2 = run@.take(k as int + 1);
            let ws2 = ws.push(*world);
            assert forall|i: int| 0 <= i < r2.len() implies {
                &&& crate::campaign::fixture_installed(
                    #[trigger] ws2[i],
                    ws2[i].devices,
                    ws2[i + 1].devices,
                    device,
                    CellPos { x: r2[i].0, y: r2[i].1 },
                    r2[i].2,
                    setting_bp,
                )
                &&& ws2[i + 1] == (SimulationWorld { devices: ws2[i + 1].devices, ..ws2[i] })
            } by {
                if i < k {
                    assert(ws2[i] == ws[i] && ws2[i + 1] == ws[i + 1]);
                    assert(r2[i] == run@.take(k as int)[i]);
                } else {
                    assert(r2[i] == (x, y, rotation));
                }
            }
            assert(run_steps(ws2, device, r2, setting_bp));
            ws = ws2;
        }
        k = k + 1;
    }
    proof {
        assert(run@.take(k as int) =~= run@);
    }
}

/// The second map's authored height at (x, y): a high northern rim, a raised
/// eastern shelf, a raised central plain and low ground elsewhere.
pub open spec fn l02_height(x: u16, y: u16) -> i16 {
    if y < 4 {
        1_750
    } else if x > 29 {
        1_250
    } else if x > 10 && y < 14 {
        1_100
    } else {
        850
    }
}

/// Author the second map at 2930 dK: its terraced ground, a sealed aquifer at
/// (3..7, 14..18) filled with 8000 vU of water and fed by a 100 vU source at (5,
/// 16), a raised central reserve, the protected camp at (24..28, 14..18), the
/// sealed, contained trench at (31..36, 7..9), two broken authored pipe runs and
/// a low outlet at (39, 18).
pub fn author_l02(world: &mut SimulationWorld)
    requires
        old(world).wf(),
        old(world).sources@.len() < ENTITY_LIMIT,
        old(world).devices.next_entity_id + 18 < u32::MAX,
        old(world).devices.devices@.len() + 18 < ENTITY_LIMIT,
        old(world).ledger.injected <= LEDGER_LIMIT_VU,
    ensures
        final(world).ledger.drained == old(world).ledger.drained,
        final(world).ledger.injected <= old(world).ledger.injected + 8_000,
        authoring_frame(*old(world), *final(world)),
        final(world).wf(),
        final(world).width == old(world).width,
        final(world).height == old(world).height,
        final(world).balance() == old(world).balance(),
        final(world).sources@ == old(world).sources@.push(
            SourceState { position: CellPos { x: 5, y: 16 }, fluid: FluidId::Water, rate_vu: 100, enabled: false },
        ),
        old(world).width >= 40 && old(world).height >= 24 ==> {
            &&& forall|p: CellPos| #![trigger cell_at(*final(world), p)] in_rect(p, 31, 36, 7, 9) ==> cell_at(*final(world), p).contained
            &&& forall|p: CellPos|
                #![trigger definition_at(*final(world), p)]
                in_rect(p, 24, 28, 14, 18) ==> definition_at(*final(world), p).protected
        },
{
    let ghost w0 = *world;
    set_ambient(world, 2_930);
    world.add_source(CellPos { x: 5, y: 16 }, FluidId::Water, 100);
    let ghost w1 = *world;
    let mut y: u16 = 0;
    while y < world.height
        invariant
            world.wf(),
            grid_only(w1, *world),
            world.balance() == w1.balance(),
        decreases world.height - y,
    {
        let mut x: u16 = 0;
        while x < world.width
            invariant
                world.wf(),
                y < world.height,
                grid_only(w1, *world),
                world.balance() == w1.balance(),
            decreases world.width - x,
        {
            let height: i16 = if y < 4 {
                1_750
            } else if x > 29 {
                1_250
            } else if x > 10 && y < 14 {
                1_100
            } else {
                850
            };
            edit_cell(world, CellPos { x, y }, CellEdit::Height(height));
            x = x + 1;
        }
        y = y + 1;
    }
    edit_rect(world, 2, 8, 13, 19, CellEdit::Height(650));
    edit_rect(world, 3, 7, 14, 18, CellEdit::Height(0));
    edit_rect(world, 3, 7, 14, 18, CellEdit::Seal);
    world.inject(CellPos { x: 5, y: 16 }, FluidId::Water, 8_000);
    edit_rect(world, 17, 23, 5, 11, CellEdit::Height(2_000));
    edit_rect(world, 19, 20, 7, 8, CellEdit::Seal);
    edit_rect(world, 24, 28, 14, 18, CellEdit::Height(5_000));
    let ghost w2 = *world;
    edit_rect(world, 24, 28, 14, 18, CellEdit::Protect);
    let ghost w3 = *world;
    edit_rect(world, 31, 36, 7, 9, CellEdit::Height(0));
    let ghost w4 = *world;
    edit_rect(world, 31, 36, 7, 9, CellEdit::Seal);
    let ghost w5 = *world;
    edit_rect(world, 31, 36, 7, 9, CellEdit::Contain);
    let ghost w6 = *world;
    let run: [(u16, u16, u8); 18] = [
        (6, 16, 0),
        (7, 16, 0),
        (8, 16, 0),
        (10, 16, 0),
        (12, 16, 0),
        (14, 16, 0),
        (16, 16, 1),
        (16, 15, 1),
        (16, 14, 0),
        (17, 14, 1),
        (17, 13, 0),
        (18, 13, 1),
        (18, 12, 0),
        (22, 8, 0),
        (24, 8, 0),
        (26, 8, 0),
        (28, 8, 0),
        (30, 8, 0),
    ];
    install_run(world, DeviceId::Pipe, &run, 0);
    let ghost w7 = *world;
    edit_cell(world, CellPos { x: 39, y: 18 }, CellEdit::Height(0));
    proof {
        if w0.width >= 40 && w0.height >= 24 {
            let outlet = CellPos { x: 39, y: 18 };
            assert forall|p: CellPos| #![trigger cell_at(*world, p)] in_rect(p, 31, 36, 7, 9) implies cell_at(*world, p).contained by {
                assert(w6.index_of(p) == w5.index_of(p));
                assert(w7.index_of(p) == w5.index_of(p));
                assert(edit_holds(w5, w6, p, CellEdit::Contain, true));
                assert(edit_holds(w7, *world, p, CellEdit::Height(0), p == outlet));
            }
            assert forall|p: CellPos| #![trigger definition_at(*world, p)] in_rect(p, 24, 28, 14, 18) implies definition_at(*world, p).protected by {
                assert(w3.index_of(p) == w2.index_of(p));
                assert(w4.index_of(p) == w2.index_of(p));
                assert(w5.index_of(p) == w2.index_of(p));
                assert(w7.index_of(p) == w2.index_of(p));
                assert(edit_holds(w2, w3, p, CellEdit::Protect, true));
                assert(edit_holds(w3, w4, p, CellEdit::Height(0), in_rect(p, 31, 36, 7, 9)));
                assert(edit_holds(w4, w5, p, CellEdit::Seal, in_rect(p, 31, 36, 7, 9)));
                assert(edit_holds(w5, w6, p, CellEdit::Contain, in_rect(p, 31, 36, 7, 9)));
                assert(edit_holds(w7, *world, p, CellEdit::Height(0), p == outlet));
            }
        }
    }
}

/// The smaller of two integers.
pub open spec fn least(a: int, b: int) -> int {
    if a <= b {
        a
    } else {
        b
    }
}

/// The third map's caldera at `p` on a `width` by `height` grid: 2600 hU within
/// three cells of the rim, 1800 hU within six and 900 hU inside, the inner two
/// bands rippled by 70 hU times `(17 x + 31 y) mod 5`.
pub open spec fn caldera_height(p: CellPos, width: u16, height: u16) -> int {
    let rim = least(least(p.x as int, p.y as int), least(width - 1 - p.x, height - 1 - p.y));
    let ripple = ((p.x * 17 + p.y * 31) % 5) * 70;
    if rim < 3 {
        2_600
    } else if rim < 6 {
        1_800 + ripple
    } else {
        900 + ripple
    }
}

/// The third map's ground height at `p`: the sealed shelf at 500 hU, the pressure
/// pocket at 2000 hU, the relay row at 300 hU, the cistern floor at 250 hU, the
/// lava trough at 350 hU along row 15 from column 5 to 35 with 650 hU banks on
/// row 14 (but every third column), and the caldera elsewhere.
pub open spec fn l03_height(p: CellPos, width: u16, height: u16) -> int {
    if in_rect(p, 20, 25, 12, 16) {
        500
    } else if in_rect(p, 38, 39, 5, 6) {
        2_000
    } else if in_rect(p, 24, 30, 9, 9) {
        300
    } else if in_rect(p, 8, 11, 3, 6) {
        250
    } else if p.y == 15 && 5 <= p.x <= 35 {
        350
    } else if p.y == 14 && 5 <= p.x <= 35 && p.x % 3 != 0 {
        650
    } else {
        caldera_height(p, width, height)
    }
}

/// The third map's ambient temperature at `p`: 10000 dK under the lava approach
/// (row 15, columns 5 to 19), 3230 dK elsewhere.
pub open spec fn l03_ambient(p: CellPos) -> int {
    if p.y == 15 && 5 <= p.x <= 19 {
        10_000
    } else {
        3_230
    }
}

/// The service pipe run of the third map, as (x, y, rotation).
pub open spec fn l03_service_run() -> Seq<(u16, u16, u8)> {
    seq![
        (12u16, 5u16, 0u8),
        (13, 5, 0),
        (14, 5, 0),
        (16, 5, 0),
        (18, 5, 0),
        (20, 5, 1),
        (20, 7, 1),
        (20, 9, 1),
        (20, 11, 1),
        (20, 13, 1),
        (20, 15, 0),
        (21, 15, 0),
        (22, 15, 0),
    ]
}

/// The cold-side trunk of the third map, as (x, y, rotation).
pub open spec fn l03_trunk() -> Seq<(u16, u16, u8)> {
    seq![
        (28u16, 9u16, 0u8),
        (29, 9, 0),
        (31, 9, 0),
        (32, 9, 0),
        (33, 9, 0),
        (34, 9, 0),
        (35, 9, 0),
        (36, 9, 0),
        (37, 9, 0),
        (37, 5, 0),
        (37, 6, 0),
        (37, 7, 0),
        (37, 8, 0),
    ]
}

/// `last` is `start` with the third map's works installed in order, each where
/// its placement is allowed: the headworks floodgate at (19, 15) fully open, the
/// service run, the channel at (30, 9) and the trunk.
pub open spec fn l03_works_installed(start: SimulationWorld, last: SimulationWorld) -> bool {
    exists|run: Seq<SimulationWorld>, trunk: Seq<SimulationWorld>|
        #![trigger run_steps(run, DeviceId::Pipe, l03_service_run(), 0), run_steps(trunk, DeviceId::Pipe, l03_trunk(), 0)]
        {
            &&& run_steps(run, DeviceId::Pipe, l03_service_run(), 0)
            &&& run[0] == (SimulationWorld { devices: run[0].devices, ..start })
            &&& super::fixture_installed(start, start.devices, run[0].devices, DeviceId::Floodgate, CellPos { x: 19, y: 15 }, 0, 10_000)
            &&& run_steps(trunk, DeviceId::Pipe, l03_trunk(), 0)
            &&& trunk[0] == (SimulationWorld { devices: trunk[0].devices, ..run.last() })
            &&& super::fixture_installed(run.last(), run.last().devices, trunk[0].devices, DeviceId::Channel, CellPos { x: 30, y: 9 }, 0, 0)
            &&& trunk.last() == last
        }
}

/// The cells and definitions of the third map, at each on-grid position, from
/// the world it was authored over.
pub open spec fn l03_terrain(before: SimulationWorld, after: SimulationWorld, p: CellPos) -> bool {
    let c0 = cell_at(before, p);
    let c = cell_at(after, p);
    let d = definition_at(after, p);
    &&& c.height_hu == l03_height(p, before.width, before.height)
    &&& d.ambient_temperature_dk == l03_ambient(p)
    &&& d.protected == (definition_at(before, p).protected || in_rect(p, 35, 40, 12, 18))
    &&& d.surface_drain_rate_vu == definition_at(before, p).surface_drain_rate_vu
    &&& c.sealed == (c0.sealed || in_rect(p, 20, 25, 12, 16) || in_rect(p, 38, 39, 5, 6) || p == CellPos { x: 27, y: 9 })
    &&& c.contained == (c0.contained || in_rect(p, 5, 19, 15, 15) || in_rect(p, 38, 39, 5, 6))
    &&& c.airborne == c0.airborne
    &&& if in_rect(p, 8, 11, 3, 6) {
        fluid_volume(c.surface@, FluidId::Water) == fluid_volume(c0.surface@, FluidId::Water)
            + accepted_volume(750, seq_volume(c0.surface@))
    } else {
        c.surface == c0.surface
    }
}

/// Raise the third map's caldera over the whole grid (see `caldera_height`).
fn author_caldera(world: &mut SimulationWorld)
    requires
        old(world).wf(),
    ensures
        final(world).wf(),
        grid_only(*old(world), *final(world)),
        final(world).balance() == old(world).balance(),
        forall|p: CellPos|
            #![trigger old(world).index_of(p)]
            old(world).index_of(p) is Some ==> {
                &&& cell_at(*final(world), p) == SimCell {
                    height_hu: caldera_height(p, old(world).width, old(world).height) as i16,
                    ..cell_at(*old(world), p)
                }
                &&& definition_at(*final(world), p) == definition_at(*old(world), p)
            },
{
    let ghost w1 = *world;
    let width = world.width;
    let height = world.height;
    let mut y: u16 = 0;
    while y < height
        invariant
            world.wf(),
            width == world.width && width == w1.width,
            height == world.height && height == w1.height,
            grid_only(w1, *world),
            world.balance() == w1.balance(),
            forall|p: CellPos|
                #![trigger w1.index_of(p)]
                w1.index_of(p) is Some ==> {
                    &&& cell_at(*world, p) == if p.y < y {
                        SimCell { height_hu: caldera_height(p, width, height) as i16, ..cell_at(w1, p) }
                    } else {
                        cell_at(w1, p)
                    }
                    &&& definition_at(*world, p) == definition_at(w1, p)
                },
        decreases height - y,
    {
        let mut x: u16 = 0;
        while x < width
            invariant
                world.wf(),
                y < height,
                width == world.width && width == w1.width,
                height == world.height && height == w1.height,
                grid_only(w1, *world),
                world.balance() == w1.balance(),
                forall|p: CellPos|
                    #![trigger w1.index_of(p)]
                    w1.index_of(p) is Some ==> {
                        &&& cell_at(*world, p) == if p.y < y || (p.y == y && p.x < x) {
                            SimCell { height_hu: caldera_height(p, width, height) as i16, ..cell_at(w1, p) }
                        } else {
                            cell_at(w1, p)
                        }
                        &&& definition_at(*world, p) == definition_at(w1, p)
                    },
            decreases width - x,
        {
            let mut rim = if x <= y { x } else { y };
            let east = width - 1 - x;
            let south = height - 1 - y;
            if east < rim {
                rim = east;
            }
            if south < rim {
                rim = south;
            }
            let noise: i16 = (((x as u32) * 17 + (y as u32) * 31) % 5) as i16 * 70;
            let h: i16 = if rim < 3 {
                2_600
            } else if rim < 6 {
                1_800 + noise
            } else {
                900 + noise
            };
            let pos = CellPos { x, y };
            proof {
                assert(h as int == caldera_height(pos, width, height));
            }
            let ghost prev = *world;
            edit_cell(world, pos, CellEdit::Height(h));
            proof {
                assert forall|p: CellPos| #![trigger w1.index_of(p)] w1.index_of(p) is Some implies {
                    &&& cell_at(*world, p) == if p.y < y || (p.y == y && p.x < x + 1) {
                        SimCell { height_hu: caldera_height(p, width, height) as i16, ..cell_at(w1, p) }
                    } else {
                        cell_at(w1, p)
                    }
                    &&& definition_at(*world, p) == definition_at(w1, p)
                } by {
                    assert(prev.index_of(p) == world.index_of(p));
                    assert(definition_at(prev, p) == definition_at(w1, p));
                    assert(edit_holds(prev, *world, p, CellEdit::Height(h), p == pos));
                }
            }
            x = x + 1;
        }
        y = y + 1;
    }
}

/// Cut the third map's lava trough: 350 hU along row 15 from column 5 to 35, with
/// 650 hU banks on row 14 at the columns not divisible by three.
fn author_trough(world: &mut SimulationWorld)
    requires
        old(world).wf(),
    ensures
        final(world).wf(),
        grid_only(*old(world), *final(world)),
        final(world).balance() == old(world).balance(),
        forall|p: CellPos|
            #![trigger old(world).index_of(p)]
            old(world).index_of(p) is Some ==> {
                &&& cell_at(*final(world), p) == if p.y == 15 && 5 <= p.x <= 35 {
                    SimCell { height_hu: 350, ..cell_at(*old(world), p) }
                } else if p.y == 14 && 5 <= p.x <= 35 && p.x % 3 != 0 {
                    SimCell { height_hu: 650, ..cell_at(*old(world), p) }
                } else {
                    cell_at(*old(world), p)
                }
                &&& definition_at(*final(world), p) == definition_at(*old(world), p)
            },
{
    let ghost wc = *world;
    let mut x: u16 = 5;
    while x <= 35
        invariant
            world.wf(),
            5 <= x <= 36,
            grid_only(wc, *world),
            world.balance() == wc.balance(),
            forall|p: CellPos|
                #![trigger wc.index_of(p)]
                wc.index_of(p) is Some ==> {
                    &&& cell_at(*world, p) == if p.y == 15 && 5 <= p.x < x {
                        SimCell { height_hu: 350, ..cell_at(wc, p) }
                    } else if p.y == 14 && 5 <= p.x < x && p.x % 3 != 0 {
                        SimCell { height_hu: 650, ..cell_at(wc, p) }
                    } else {
                        cell_at(wc, p)
                    }
                    &&& definition_at(*world, p) == definition_at(wc, p)
                },
        decreases 36 - x,
    {
        let ghost prev = *world;
        let row = CellPos { x, y: 15 };
        edit_cell(world, row, CellEdit::Height(350));
        let ghost mid = *world;
        let bank = CellPos { x, y: 14 };
        if x % 3 != 0 {
            edit_cell(world, bank, CellEdit::Height(650));
        }
        proof {
            assert forall|p: CellPos| #![trigger wc.index_of(p)] wc.index_of(p) is Some implies {
                &&& cell_at(*world, p) == if p.y == 15 && 5 <= p.x < x + 1 {
                    SimCell { height_hu: 350, ..cell_at(wc, p) }
                } else if p.y == 14 && 5 <= p.x < x + 1 && p.x % 3 != 0 {
                    SimCell { height_hu: 650, ..cell_at(wc, p) }
                } else {
                    cell_at(wc, p)
                }
                &&& definition_at(*world, p) == definition_at(wc, p)
            } by {
                assert(prev.index_of(p) == world.index_of(p));
                assert(mid.index_of(p) == world.index_of(p));
                assert(definition_at(prev, p) == definition_at(wc, p));
                assert(edit_holds(prev, mid, p, CellEdit::Height(350), p == row));
                if x % 3 != 0 {
                    assert(edit_holds(mid, *world, p, CellEdit::Height(650), p == bank));
                }
            }
        }
        x = x + 1;
    }
}

/// Pour 750 vU of water into each cell of the cistern at (8..11, 3..6).
fn fill_cistern(world: &mut SimulationWorld)
    requires
        old(world).wf(),
        old(world).ledger.injected <= LEDGER_LIMIT_VU,
    ensures
        final(world).wf(),
        same_but_cells(*old(world), *final(world)),
        final(world).balance() == old(world).balance(),
        final(world).ledger.drained == old(world).ledger.drained,
        final(world).ledger.injected <= old(world).ledger.injected + 128_000,
        forall|p: CellPos|
            #![trigger old(world).index_of(p)]
            old(world).index_of(p) is Some ==> if in_rect(p, 8, 11, 3, 6) {
                cistern_filled(*old(world), *final(world), p)
            } else {
                cell_at(*final(world), p) == cell_at(*old(world), p)
            },
{
    let ghost w2 = *world;
    let mut y: u16 = 3;
    while y <= 6
        invariant
            world.wf(),
            3 <= y <= 7,
            same_but_cells(w2, *world),
            world.ledger.injected <= w2.ledger.injected + (y - 3) * 4 * 8000,
            world.ledger.drained == w2.ledger.drained,
            w2.ledger.injected <= LEDGER_LIMIT_VU,
            world.balance() == w2.balance(),
            forall|p: CellPos|
                #![trigger w2.index_of(p)]
                w2.index_of(p) is Some ==> if in_rect(p, 8, 11, 3, 6) && p.y < y {
                    cistern_filled(w2, *world, p)
                } else {
                    cell_at(*world, p) == cell_at(w2, p)
                },
        decreases 7 - y,
    {
        let mut x: u16 = 8;
        while x <= 11
            invariant
                world.wf(),
                3 <= y <= 6,
                8 <= x <= 12,
                same_but_cells(w2, *world),
                world.ledger.injected <= w2.ledger.injected + (y - 3) * 4 * 8000 + (x - 8) * 8000,
                world.ledger.drained == w2.ledger.drained,
                w2.ledger.injected <= LEDGER_LIMIT_VU,
                world.balance() == w2.balance(),
                forall|p: CellPos|
                    #![trigger w2.index_of(p)]
                    w2.index_of(p) is Some ==> if in_rect(p, 8, 11, 3, 6) && (p.y < y || (p.y == y && p.x < x)) {
                        cistern_filled(w2, *world, p)
                    } else {
                        cell_at(*world, p) == cell_at(w2, p)
                    },
            decreases 12 - x,
        {
            let ghost prev = *world;
            let pos = CellPos { x, y };
            world.inject(pos, FluidId::Water, 750);
            proof {
                assert forall|p: CellPos| #![trigger w2.index_of(p)] w2.index_of(p) is Some implies (if in_rect(
                    p,
                    8,
                    11,
                    3,
                    6,
                ) && (p.y < y || (p.y == y && p.x < x + 1)) {
                    cistern_filled(w2, *world, p)
                } else {
                    cell_at(*world, p) == cell_at(w2, p)
                }) by {
                    assert(prev.index_of(p) == w2.index_of(p));
                    assert(world.index_of(p) == w2.index_of(p));
                    lemma_grid_index_bound(w2.width, w2.height, p);
                    let i = w2.index_of(p)->0;
                    let before_p = cell_at(prev, p);
                    if p == pos {
                        assert(before_p == cell_at(w2, p));
                        assert(world.cells@[i as int] == cell_at(*world, p));
                    } else {
                        if prev.index_of(pos) is Some {
                            lemma_grid_index_injective(prev.width, prev.height, p, pos);
                            let j = prev.index_of(pos)->0;
                            assert(i != j);
                            assert(prev.width == w2.width && prev.height == w2.height);
                            assert(i < prev.cells@.len());
                            lemma_grid_index_bound(prev.width, prev.height, pos);
                            assert(j < prev.cells@.len());
                            assert(world.cells@ == prev.cells@.update(j as int, world.cells@[j as int]));
                            assert(world.cells@[i as int] == prev.cells@[i as int]);
                        } else {
                            assert(world.cells == prev.cells);
                        }
                    }
                }
            }
            x = x + 1;
        }
        y = y + 1;
    }
}

/// Author the third map at 3230 dK: a caldera of walls and noisy inner ground, a
/// descending lava trough along row 15 fed by a 100 vU lava source at (5, 15)
/// and kept molten by 10000 dK contained ground at columns 5 to 19, a cistern at
/// (8..11, 3..6) given 750 vU of water per cell, protected works at (35..40,
/// 12..18), a sealed reaction shelf at (20..25, 12..16), the headworks floodgate
/// at (19, 15) and the authored service pipes and channel (see `l03_terrain` and
/// `l03_works_installed`).
#[verifier::rlimit(100)]
#[verifier::spinoff_prover]
pub fn author_l03(world: &mut SimulationWorld)
    requires
        old(world).wf(),
        old(world).sources@.len() < ENTITY_LIMIT,
        old(world).devices.next_entity_id + 28 < u32::MAX,
        old(world).devices.devices@.len() + 28 < ENTITY_LIMIT,
        old(world).ledger.injected <= LEDGER_LIMIT_VU,
    ensures
        authoring_frame(*old(world), *final(world)),
        final(world).wf(),
        final(world).width == old(world).width,
        final(world).height == old(world).height,
        final(world).balance() == old(world).balance(),
        final(world).sources@ == old(world).sources@.push(
            SourceState { position: CellPos { x: 5, y: 15 }, fluid: FluidId::Lava, rate_vu: 100, enabled: false },
        ),
        final(world).ledger.drained == old(world).ledger.drained,
        final(world).ledger.injected <= old(world).ledger.injected + 128_000,
        forall|p: CellPos|
            #![trigger cell_at(*final(world), p)]
            #![trigger definition_at(*final(world), p)]
            old(world).index_of(p) is Some ==> l03_terrain(*old(world), *final(world), p),
        l03_works_installed(
            SimulationWorld {
                devices: old(world).devices,
                ..*final(world)
            },
            *final(world),
        ),
{
    let ghost w0 = *world;
    set_ambient(world, 3_230);
    let ghost wamb = *world;
    world.add_source(CellPos { x: 5, y: 15 }, FluidId::Lava, 100);
    let ghost w1 = *world;
    author_caldera(world);
    let ghost wc = *world;
    author_trough(world);
    let ghost wt = *world;
    edit_rect(world, 5, 19, 15, 15, CellEdit::Ambient(10_000));
    let ghost wa = *world;
    edit_rect(world, 5, 19, 15, 15, CellEdit::Contain);
    let ghost wb = *world;
    edit_rect(world, 8, 11, 3, 6, CellEdit::Height(250));
    let ghost w2 = *world;
    fill_cistern(world);
    let ghost w3 = *world;
    edit_rect(world, 35, 40, 12, 18, CellEdit::Protect);
    let ghost w4 = *world;
    edit_rect(world, 20, 25, 12, 16, CellEdit::Seal);
    let ghost w5 = *world;
    edit_rect(world, 20, 25, 12, 16, CellEdit::Height(500));
    let ghost w6 = *world;
    edit_cell(world, CellPos { x: 27, y: 9 }, CellEdit::Seal);
    let ghost w7 = *world;
    edit_rect(world, 38, 39, 5, 6, CellEdit::Height(2_000));
    let ghost w8 = *world;
    edit_rect(world, 38, 39, 5, 6, CellEdit::Seal);
    let ghost w9 = *world;
    edit_rect(world, 38, 39, 5, 6, CellEdit::Contain);
    let ghost w10 = *world;
    edit_rect(world, 24, 30, 9, 9, CellEdit::Height(300));
    let ghost w11 = *world;
    install_l03_works(world);
    proof {
        assert(w11.devices == w0.devices);
        assert(w11 == (SimulationWorld { devices: w0.devices, ..*world }));
        lemma_l03_terrain(w0, wamb, w1, wc, wt, wa, wb, w2, w3, w4, w5, w6, w7, w8, w9, w10, w11, *world);
    }
}

/// Install the third map's works in order: the headworks floodgate at (19, 15)
/// fully open, the service run, the channel at (30, 9) and the trunk.
#[verifier::rlimit(100)]
#[verifier::spinoff_prover]
fn install_l03_works(world: &mut SimulationWorld)
    requires
        old(world).wf(),
        old(world).devices.next_entity_id + 28 < u32::MAX,
        old(world).devices.devices@.len() + 28 < ENTITY_LIMIT,
    ensures
        final(world).wf(),
        *final(world) == (SimulationWorld { devices: final(world).devices, ..*old(world) }),
        final(world).balance() == old(world).balance(),
        l03_works_installed(*old(world), *final(world)),
{
    let ghost w11 = *world;
    install_device(world, DeviceId::Floodgate, CellPos { x: 19, y: 15 }, 0, 10_000);
    let ghost wf = *world;
    let run: [(u16, u16, u8); 13] = [
        (12, 5, 0),
        (13, 5, 0),
        (14, 5, 0),
        (16, 5, 0),
        (18, 5, 0),
        (20, 5, 1),
        (20, 7, 1),
        (20, 9, 1),
        (20, 11, 1),
        (20, 13, 1),
        (20, 15, 0),
        (21, 15, 0),
        (22, 15, 0),
    ];
    proof {
        assert(run@ =~= l03_service_run());
    }
    install_run(world, DeviceId::Pipe, &run, 0);
    let ghost wr = *world;
    install_device(world, DeviceId::Channel, CellPos { x: 30, y: 9 }, 0, 0);
    let ghost wch = *world;
    let trunk: [(u16, u16, u8); 13] = [
        (28, 9, 0),
        (29, 9, 0),
        (31, 9, 0),
        (32, 9, 0),
        (33, 9, 0),
        (34, 9, 0),
        (35, 9, 0),
        (36, 9, 0),
        (37, 9, 0),
        (37, 5, 0),
        (37, 6, 0),
        (37, 7, 0),
        (37, 8, 0),
    ];
    proof {
        assert(trunk@ =~= l03_trunk());
    }
    install_run(world, DeviceId::Pipe, &trunk, 0);
    proof {
        let run_ws = choose|ws: Seq<SimulationWorld>|
            #[trigger] run_steps(ws, DeviceId::Pipe, l03_service_run(), 0) && ws[0] == wf && ws.last() == wr;
        let trunk_ws = choose|ws: Seq<SimulationWorld>|
            #[trigger] run_steps(ws, DeviceId::Pipe, l03_trunk(), 0) && ws[0] == wch && ws.last() == *world;
        assert(l03_works_installed(w11, *world));
    }
}

/// At an on-grid cistern cell, `after` holds the cell of `before` with 750 vU of
/// water poured into its surface, as far as the cell takes it.
pub open spec fn cistern_filled(before: SimulationWorld, after: SimulationWorld, p: CellPos) -> bool {
    let c0 = cell_at(before, p);
    let c = cell_at(after, p);
    &&& c == SimCell { surface: c.surface, ..c0 }
    &&& fluid_volume(c.surface@, FluidId::Water) == fluid_volume(c0.surface@, FluidId::Water) + accepted_volume(
        750,
        seq_volume(c0.surface@),
    )
}

/// The third map's cells and definitions follow from its authoring stages (see
/// `l03_terrain`).
#[verifier::rlimit(100)]
proof fn lemma_l03_terrain(
    w0: SimulationWorld,
    wamb: SimulationWorld,
    w1: SimulationWorld,
    wc: SimulationWorld,
    wt: SimulationWorld,
    wa: SimulationWorld,
    wb: SimulationWorld,
    w2: SimulationWorld,
    w3: SimulationWorld,
    w4: SimulationWorld,
    w5: SimulationWorld,
    w6: SimulationWorld,
    w7: SimulationWorld,
    w8: SimulationWorld,
    w9: SimulationWorld,
    w10: SimulationWorld,
    w11: SimulationWorld,
    last: SimulationWorld,
)
    requires
        grid_only(w0, wamb),
        forall|p: CellPos| #![trigger w0.index_of(p)] edit_holds(w0, wamb, p, CellEdit::Ambient(3_230), true),
        w1 == (SimulationWorld { sources: w1.sources, ..wamb }),
        grid_only(w1, wc),
        forall|p: CellPos|
            #![trigger w1.index_of(p)]
            w1.index_of(p) is Some ==> {
                &&& cell_at(wc, p) == SimCell { height_hu: caldera_height(p, w1.width, w1.height) as i16, ..cell_at(w1, p) }
                &&& definition_at(wc, p) == definition_at(w1, p)
            },
        grid_only(wc, wt),
        forall|p: CellPos|
            #![trigger wc.index_of(p)]
            wc.index_of(p) is Some ==> {
                &&& cell_at(wt, p) == if p.y == 15 && 5 <= p.x <= 35 {
                    SimCell { height_hu: 350, ..cell_at(wc, p) }
                } else if p.y == 14 && 5 <= p.x <= 35 && p.x % 3 != 0 {
                    SimCell { height_hu: 650, ..cell_at(wc, p) }
                } else {
                    cell_at(wc, p)
                }
                &&& definition_at(wt, p) == definition_at(wc, p)
            },
        edited_where(wt, wa, CellEdit::Ambient(10_000), |p: CellPos| in_rect(p, 5, 19, 15, 15)),
        edited_where(wa, wb, CellEdit::Contain, |p: CellPos| in_rect(p, 5, 19, 15, 15)),
        edited_where(wb, w2, CellEdit::Height(250), |p: CellPos| in_rect(p, 8, 11, 3, 6)),
        same_but_cells(w2, w3),
        forall|p: CellPos|
            #![trigger w2.index_of(p)]
            w2.index_of(p) is Some ==> if in_rect(p, 8, 11, 3, 6) {
                cistern_filled(w2, w3, p)
            } else {
                cell_at(w3, p) == cell_at(w2, p)
            },
        edited_where(w3, w4, CellEdit::Protect, |p: CellPos| in_rect(p, 35, 40, 12, 18)),
        edited_where(w4, w5, CellEdit::Seal, |p: CellPos| in_rect(p, 20, 25, 12, 16)),
        edited_where(w5, w6, CellEdit::Height(500), |p: CellPos| in_rect(p, 20, 25, 12, 16)),
        edited_where(w6, w7, CellEdit::Seal, |p: CellPos| p == CellPos { x: 27, y: 9 }),
        edited_where(w7, w8, CellEdit::Height(2_000), |p: CellPos| in_rect(p, 38, 39, 5, 6)),
        edited_where(w8, w9, CellEdit::Seal, |p: CellPos| in_rect(p, 38, 39, 5, 6)),
        edited_where(w9, w10, CellEdit::Contain, |p: CellPos| in_rect(p, 38, 39, 5, 6)),
        edited_where(w10, w11, CellEdit::Height(300), |p: CellPos| in_rect(p, 24, 30, 9, 9)),
        last == (SimulationWorld { devices: last.devices, ..w11 }),
    ensures
        forall|p: CellPos|
            #![trigger cell_at(last, p)]
            #![trigger definition_at(last, p)]
            w0.index_of(p) is Some ==> l03_terrain(w0, last, p),
{
    assert forall|p: CellPos|
        #![trigger cell_at(last, p)]
        #![trigger definition_at(last, p)]
        w0.index_of(p) is Some implies l03_terrain(w0, last, p) by {
        assert(edit_holds(w0, wamb, p, CellEdit::Ambient(3_230), true));
        assert(wamb.index_of(p) == w0.index_of(p));
        assert(w1.index_of(p) == w0.index_of(p));
        assert(wc.index_of(p) == w0.index_of(p));
        assert(wt.index_of(p) == w0.index_of(p));
        assert(wa.index_of(p) == w0.index_of(p));
        assert(wb.index_of(p) == w0.index_of(p));
        assert(w2.index_of(p) == w0.index_of(p));
        assert(w3.index_of(p) == w0.index_of(p));
        assert(w4.index_of(p) == w0.index_of(p));
        assert(w5.index_of(p) == w0.index_of(p));
        assert(w6.index_of(p) == w0.index_of(p));
        assert(w7.index_of(p) == w0.index_of(p));
        assert(w8.index_of(p) == w0.index_of(p));
        assert(w9.index_of(p) == w0.index_of(p));
        assert(w10.index_of(p) == w0.index_of(p));
        assert(w11.index_of(p) == w0.index_of(p));
        assert(last.index_of(p) == w0.index_of(p));
        assert(cell_at(wc, p) == SimCell { height_hu: caldera_height(p, w1.width, w1.height) as i16, ..cell_at(w1, p) });
        assert(definition_at(wc, p) == definition_at(w1, p));
        assert(cell_at(wt, p) == cell_at(wt, p));
        assert(definition_at(wt, p) == definition_at(wc, p));
        assert(edit_holds(wt, wa, p, CellEdit::Ambient(10_000), in_rect(p, 5, 19, 15, 15)));
        assert(edit_holds(wa, wb, p, CellEdit::Contain, in_rect(p, 5, 19, 15, 15)));
        assert(edit_holds(wb, w2, p, CellEdit::Height(250), in_rect(p, 8, 11, 3, 6)));
        assert(cell_at(w3, p) == cell_at(w3, p));
        assert(edit_holds(w3, w4, p, CellEdit::Protect, in_rect(p, 35, 40, 12, 18)));
        assert(edit_holds(w4, w5, p, CellEdit::Seal, in_rect(p, 20, 25, 12, 16)));
        assert(edit_holds(w5, w6, p, CellEdit::Height(500), in_rect(p, 20, 25, 12, 16)));
        assert(edit_holds(w6, w7, p, CellEdit::Seal, p == CellPos { x: 27, y: 9 }));
        assert(edit_holds(w7, w8, p, CellEdit::Height(2_000), in_rect(p, 38, 39, 5, 6)));
        assert(edit_holds(w8, w9, p, CellEdit::Seal, in_rect(p, 38, 39, 5, 6)));
        assert(edit_holds(w9, w10, p, CellEdit::Contain, in_rect(p, 38, 39, 5, 6)));
        assert(edit_holds(w10, w11, p, CellEdit::Height(300), in_rect(p, 24, 30, 9, 9)));
    }
}

} // verus!
