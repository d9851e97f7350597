//! Authoring edits of single cells and rectangles of cells.

use vstd::prelude::*;

use crate::simulation::entries::TEMPERATURE_LIMIT_DK;
use crate::simulation::{cell_products, cells_material, lemma_cells_material_update, CellDefinition, SimCell, SimulationWorld};
use crate::state::{lemma_grid_index_bound, lemma_grid_index_injective, CellPos};

verus! {

/// One authoring edit of a cell or of its definition.
#[derive(Debug, Clone, Copy, PartialEq, Eq, Structural)]
pub enum CellEdit {
    Height(i16),
    Seal,
    Contain,
    Protect,
    Drain(u32),
    Ambient(i32),
}

/// A cell after an edit.
pub open spec fn edit_cell_spec(c: SimCell, e: CellEdit) -> SimCell {
    match e {
        CellEdit::Height(h) => SimCell { height_hu: h, ..c },
        CellEdit::Seal => SimCell { sealed: true, ..c },
        CellEdit::Contain => SimCell { contained: true, ..c },
        _ => c,
    }
}

/// A definition after an edit.
pub open spec fn edit_def_spec(d: CellDefinition, e: CellEdit) -> CellDefinition {
    match e {
        CellEdit::Protect => CellDefinition { protected: true, ..d },
        CellEdit::Drain(r) => CellDefinition { surface_drain_rate_vu: r, ..d },
        CellEdit::Ambient(a) => CellDefinition { ambient_temperature_dk: a, ..d },
        _ => d,
    }
}

/// An edit that keeps a world well formed: ambient temperatures stay in range.
pub open spec fn edit_ok(e: CellEdit) -> bool {
    e matches CellEdit::Ambient(a) ==> -TEMPERATURE_LIMIT_DK <= a <= TEMPERATURE_LIMIT_DK
}

/// Only cells and definitions differ between two worlds.
pub open spec fn same_but_grid(before: SimulationWorld, after: SimulationWorld) -> bool {
    &&& after == (SimulationWorld { cells: after.cells, definitions: after.definitions, ..before })
    &&& after.cells@.len() == before.cells@.len()
    &&& after.definitions@.len() == before.definitions@.len()
}

/// The cells of `x0..=x1` by `y0..=y1`.
pub open spec fn in_rect(p: CellPos, x0: u16, x1: u16, y0: u16, y1: u16) -> bool {
    x0 <= p.x <= x1 && y0 <= p.y <= y1
}

/// At `p`, when it lies on the grid, `after` holds `before`'s cell and definition,
/// edited by `e` when `edited`.
pub open spec fn edit_holds(before: SimulationWorld, after: SimulationWorld, p: CellPos, e: CellEdit, edited: bool) -> bool {
    match before.index_of(p) {
        Some(i) => {
            &&& after.cells@[i as int] == if edited {
                edit_cell_spec(before.cells@[i as int], e)
            } else {
                before.cells@[i as int]
            }
            &&& after.definitions@[i as int] == if edited {
                edit_def_spec(before.definitions@[i as int], e)
            } else {
                before.definitions@[i as int]
            }
        },
        None => true,
    }
}

/// `after` is `before` with `e` applied to every on-grid cell of a region.
pub open spec fn edited_where(before: SimulationWorld, after: SimulationWorld, e: CellEdit, region: spec_fn(CellPos) -> bool) -> bool {
    &&& same_but_grid(before, after)
    &&& forall|p: CellPos| #![trigger before.index_of(p)] edit_holds(before, after, p, e, region(p))
}

/// Apply an edit to the cell at `pos`, when it lies on the grid.
pub fn edit_cell(world: &mut SimulationWorld, pos: CellPos, e: CellEdit)
    requires
        old(world).wf(),
        edit_ok(e),
    ensures
        final(world).wf(),
        final(world).balance() == old(world).balance(),
        edited_where(*old(world), *final(world), e, |p: CellPos| p == pos),
        forall|i: int| 0 <= i < final(world).cells@.len() ==> cell_products(#[trigger] final(world).cells@[i])
            == cell_products(old(world).cells@[i]),
{
    let index = match world.index(pos) {
        Some(i) => i,
        None => {
            return;
        },
    };
    proof {
        lemma_grid_index_bound(world.width, world.height, pos);
    }
    let ghost cells0 = world.cells@;
    let cell = world.cells[index].clone();
    let definition = world.definitions[index];
    match e {
        CellEdit::Height(h) => {
            world.cells[index].height_hu = h;
        },
        CellEdit::Seal => {
            world.cells[index].sealed = true;
        },
        CellEdit::Contain => {
            world.cells[index].contained = true;
        },
        CellEdit::Protect => {
            world.definitions.set(index, CellDefinition { protected: true, ..definition });
        },
        CellEdit::Drain(r) => {
            world.definitions.set(index, CellDefinition { surface_drain_rate_vu: r, ..definition });
        },
        CellEdit::Ambient(a) => {
            world.definitions.set(index, CellDefinition { ambient_temperature_dk: a, ..definition });
        },
    }
    proof {
        let c = world.cells@[index as int];
        assert(world.cells@ == cells0.update(index as int, c));
        lemma_cells_material_update(cells0, index as int, c);
        assert(world.cells@[index as int] == edit_cell_spec(old(world).cells@[index as int], e));
        assert(world.definitions@[index as int] == edit_def_spec(old(world).definitions@[index as int], e));
        assert forall|p: CellPos| #![trigger old(world).index_of(p)] edit_holds(*old(world), *world, p, e, p == pos) by {
            if p != pos && old(world).index_of(p) is Some {
                lemma_grid_index_injective(world.width, world.height, p, pos);
                lemma_grid_index_bound(world.width, world.height, p);
            }
        }
        assert forall|i: int| 0 <= i < world.cells@.len() implies (#[trigger] world.cells@[i]).wf() by {
            assert(old(world).cells@[i].wf());
        }
    }
}

/// Apply an edit to every on-grid cell of the rectangle `x0..=x1` by `y0..=y1`,
/// row by row.
pub fn edit_rect(world: &mut SimulationWorld, x0: u16, x1: u16, y0: u16, y1: u16, e: CellEdit)
    requires
        old(world).wf(),
        edit_ok(e),
        x0 <= x1 < u16::MAX,
        y0 <= y1 < u16::MAX,
    ensures
        final(world).wf(),
        final(world).balance() == old(world).balance(),
        edited_where(*old(world), *final(world), e, |p: CellPos| in_rect(p, x0, x1, y0, y1)),
        forall|i: int| 0 <= i < final(world).cells@.len() ==> cell_products(#[trigger] final(world).cells@[i])
            == cell_products(old(world).cells@[i]),
{
    let ghost start = *world;
    let mut y = y0;
    while y <= y1
        invariant
            world.wf(),
            edit_ok(e),
            x0 <= x1 < u16::MAX,
            y1 < u16::MAX,
            y0 <= y <= y1 + 1,
            world.balance() == start.balance(),
            edited_where(start, *world, e, |p: CellPos| in_rect(p, x0, x1, y0, y1) && p.y < y),
            forall|i: int| 0 <= i < world.cells@.len() ==> cell_products(#[trigger] world.cells@[i])
                == cell_products(start.cells@[i]),
        decreases y1 + 1 - y,
    {
        let mut x = x0;
        while x <= x1
            invariant
                world.wf(),
                edit_ok(e),
                x1 < u16::MAX,
                y1 < u16::MAX,
                y0 <= y <= y1,
                x0 <= x <= x1 + 1,
                world.balance() == start.balance(),
                forall|i: int| 0 <= i < world.cells@.len() ==> cell_products(#[trigger] world.cells@[i])
                    == cell_products(start.cells@[i]),
                edited_where(
                    start,
                    *world,
                    e,
                    |p: CellPos| in_rect(p, x0, x1, y0, y1) && (p.y < y || (p.y == y && p.x < x)),
                ),
            decreases x1 + 1 - x,
        {
            let ghost before = *world;
            let pos = CellPos { x, y };
            edit_cell(world, pos, e);
            proof {
                assert forall|p: CellPos| #![trigger start.index_of(p)] edit_holds(
                    start,
                    *world,
                    p,
                    e,
                    in_rect(p, x0, x1, y0, y1) && (p.y < y || (p.y == y && p.x < x + 1)),
                ) by {
                    assert(before.index_of(p) == start.index_of(p));
                    assert(edit_holds(before, *world, p, e, p == pos));
                    assert(edit_holds(
                        start,
                        before,
                        p,
                        e,
                        in_rect(p, x0, x1, y0, y1) && (p.y < y || (p.y == y && p.x < x)),
                    ));
                }
            }
            x = x + 1;
        }
        proof {
            assert forall|p: CellPos| #![trigger start.index_of(p)] edit_holds(
                start,
                *world,
                p,
                e,
                in_rect(p, x0, x1, y0, y1) && p.y < y + 1,
            ) by {
                assert(edit_holds(
                    start,
                    *world,
                    p,
                    e,
                    in_rect(p, x0, x1, y0, y1) && (p.y < y || (p.y == y && p.x < x)),
                ));
            }
        }
        y = y + 1;
    }
}

} // verus!
