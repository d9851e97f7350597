//! Integer world coordinates, the survey heightfield and time controls.

use vstd::prelude::*;

pub mod session;

pub use session::{check_save, GameSession, SAVE_SCHEMA_VERSION};

verus! {

pub const SIM_TICKS_PER_SECOND: u64 = 10;

pub const MAX_TICKS_PER_FRAME: u32 = 8;

/// A cell coordinate on a row-major grid.
#[derive(Debug, Clone, Copy, PartialEq, Eq, Structural)]
pub struct CellPos {
    pub x: u16,
    pub y: u16,
}

/// One survey cell: its terrain height and whether its floor is sealed.
#[derive(Debug, Clone, Copy, PartialEq, Eq, Structural)]
pub struct CellState {
    pub height_hu: i16,
    pub sealed: bool,
}

/// The survey heightfield shown by the renderer.
#[derive(Debug, Clone)]
pub struct WorldState {
    pub width: u16,
    pub height: u16,
    pub cells: Vec<CellState>,
}

/// Absolute value of an integer.
pub open spec fn abs_int(v: int) -> int {
    if v < 0 { -v } else { v }
}

/// Row-major index of `pos` on a grid `width` cells wide, when it lies on the grid.
pub open spec fn grid_index(width: u16, height: u16, pos: CellPos) -> Option<usize> {
    if pos.x < width && pos.y < height {
        Some((pos.y * width + pos.x) as usize)
    } else {
        None
    }
}

/// An on-grid index lies inside the grid.
pub proof fn lemma_grid_index_bound(width: u16, height: u16, pos: CellPos)
    ensures
        grid_index(width, height, pos) matches Some(i) ==> i < width * height && i == pos.y * width + pos.x,
        width * height <= 4294836225,
{
    assert(width * height <= 65535 * 65535) by (nonlinear_arith)
        requires width <= 65535, height <= 65535;
    if pos.x < width && pos.y < height {
        assert(pos.y * width + pos.x < width * height) by (nonlinear_arith)
            requires pos.x < width, pos.y < height;
    }
}

/// Distinct on-grid positions have distinct indices.
pub proof fn lemma_grid_index_injective(width: u16, height: u16, p: CellPos, q: CellPos)
    requires
        grid_index(width, height, p) is Some,
        grid_index(width, height, q) is Some,
        p != q,
    ensures
        grid_index(width, height, p) != grid_index(width, height, q),
{
    lemma_grid_index_bound(width, height, p);
    lemma_grid_index_bound(width, height, q);
    if p.y == q.y {
    } else if p.y < q.y {
        assert(p.y * width + p.x < q.y * width + q.x) by (nonlinear_arith)
            requires
                p.y < q.y,
                p.x < width,
        ;
    } else {
        assert(q.y * width + q.x < p.y * width + p.x) by (nonlinear_arith)
            requires
                q.y < p.y,
                q.x < width,
        ;
    }
}

/// The authored ridge height of cell `(x, y)` on a `width` by `height` survey grid:
/// 1000 hU plus 125 hU per step of Manhattan distance from the grid centre.
pub open spec fn ridge_height(width: int, height: int, x: int, y: int) -> int {
    1000 + (abs_int(x - width / 2) + abs_int(y - height / 2)) * 125
}

/// Whether `(x, y)` lies on the outer border of the grid.
pub open spec fn on_border(width: int, height: int, x: int, y: int) -> bool {
    x == 0 || y == 0 || x + 1 == width || y + 1 == height
}

impl WorldState {
    /// The survey world: a ridge centred on the grid whose border cells are sealed.
    pub fn new(width: usize, height: usize) -> (world: Self)
        requires
            width == 0 || height == 0 || width / 2 + height / 2 <= 254,
            width * height <= usize::MAX,
        ensures
            world.width == width as u16,
            world.height == height as u16,
            world.cells@.len() == width * height,
            forall|x: int, y: int|
                0 <= x < width && 0 <= y < height ==> {
                    &&& (#[trigger] world.cells@[y * width + x]).height_hu
                        == ridge_height(width as int, height as int, x, y)
                    &&& world.cells@[y * width + x].sealed == on_border(
                        width as int,
                        height as int,
                        x,
                        y,
                    )
                },
    {
        let mut cells: Vec<CellState> = Vec::new();
        let mut y: usize = 0;
        while y < height
            invariant
                width == 0 || height == 0 || width / 2 + height / 2 <= 254,
                width * height <= usize::MAX,
                y <= height,
                cells@.len() == y * width,
                forall|xx: int, yy: int|
                    0 <= xx < width && 0 <= yy < y ==> {
                        &&& (#[trigger] cells@[yy * width + xx]).height_hu
                            == ridge_height(width as int, height as int, xx, yy)
                        &&& cells@[yy * width + xx].sealed == on_border(
                            width as int,
                            height as int,
                            xx,
                            yy,
                        )
                    },
            decreases height - y,
        {
            let mut x: usize = 0;
            while x < width
                invariant
                    width == 0 || width / 2 + height / 2 <= 254,
                    width * height <= usize::MAX,
                    y < height,
                    x <= width,
                    cells@.len() == y * width + x,
                    forall|xx: int, yy: int|
                        0 <= xx < width && 0 <= yy < y ==> {
                            &&& (#[trigger] cells@[yy * width + xx]).height_hu
                                == ridge_height(width as int, height as int, xx, yy)
                            &&& cells@[yy * width + xx].sealed == on_border(
                                width as int,
                                height as int,
                                xx,
                                yy,
                            )
                        },
                    forall|xx: int|
                        0 <= xx < x ==> {
                            &&& (#[trigger] cells@[y * width + xx]).height_hu
                                == ridge_height(width as int, height as int, xx, y as int)
                            &&& cells@[y * width + xx].sealed == on_border(
                                width as int,
                                height as int,
                                xx,
                                y as int,
                            )
                        },
                decreases width - x,
            {
                let dx: i16 = if x >= width / 2 { (x - width / 2) as i16 } else { (width / 2 - x) as i16 };
                let dy: i16 = if y >= height / 2 { (y - height / 2) as i16 } else { (height / 2 - y) as i16 };
                proof {
                    assert(x < width);
                    assert(dx <= width / 2) by (nonlinear_arith)
                        requires x < width, dx == (if x >= width / 2 { x - width / 2 } else { width / 2 - x });
                    assert(dy <= height / 2) by (nonlinear_arith)
                        requires y < height, dy == (if y >= height / 2 { y - height / 2 } else { height / 2 - y });
                }
                let ridge: i16 = (dx + dy) * 125;
                let sealed: bool = x == 0 || y == 0 || x + 1 == width || y + 1 == height;
                cells.push(CellState { height_hu: 1000 + ridge, sealed });
                proof {
                    assert(y * width + x + 1 == y * width + (x + 1));
                    assert forall|xx: int, yy: int|
                        0 <= xx < width && 0 <= yy < y implies {
                            &&& (#[trigger] cells@[yy * width + xx]).height_hu
                                == ridge_height(width as int, height as int, xx, yy)
                            &&& cells@[yy * width + xx].sealed == on_border(
                                width as int,
                                height as int,
                                xx,
                                yy,
                            )
                        } by {
                        assert(yy * width + xx < y * width) by (nonlinear_arith)
                            requires 0 <= xx < width, 0 <= yy < y;
                    }
                }
                x = x + 1;
            }
            proof {
                assert((y + 1) * width == y * width + width) by (nonlinear_arith);
                assert(y * width + width <= height * width) by (nonlinear_arith)
                    requires y < height;
            }
            y = y + 1;
        }
        assert(height * width == width * height) by (nonlinear_arith);
        WorldState { width: width as u16, height: height as u16, cells }
    }

    /// The survey of a simulation world: its size, and each cell's height and seal.
    pub fn from_simulation(simulation: &crate::simulation::SimulationWorld) -> (world: Self)
        ensures
            world.width == simulation.width,
            world.height == simulation.height,
            world.cells@.len() == simulation.cells@.len(),
            session::survey_follows(world, *simulation),
    {
        let mut cells: Vec<CellState> = Vec::new();
        let mut i: usize = 0;
        while i < simulation.cells.len()
            invariant
                i <= simulation.cells@.len(),
                cells@.len() == i,
                forall|j: int|
                    0 <= j < i ==> {
                        &&& (#[trigger] cells@[j]).height_hu == simulation.cells@[j].height_hu
                        &&& cells@[j].sealed == simulation.cells@[j].sealed
                    },
            decreases simulation.cells@.len() - i,
        {
            cells.push(CellState { height_hu: simulation.cells[i].height_hu, sealed: simulation.cells[i].sealed });
            i = i + 1;
        }
        WorldState { width: simulation.width, height: simulation.height, cells }
    }

    /// Row-major index of `pos`, or `None` outside the grid.
    pub fn index(&self, pos: CellPos) -> (result: Option<usize>)
        ensures
            result == grid_index(self.width, self.height, pos),
    {
        if pos.x < self.width && pos.y < self.height {
            proof {
                assert(pos.y * self.width + pos.x <= 65534 * 65535 + 65535) by (nonlinear_arith)
                    requires pos.y < self.height, pos.x < self.width, self.height <= 65535, self.width <= 65535;
            }
            Some(pos.y as usize * self.width as usize + pos.x as usize)
        } else {
            None
        }
    }
}

/// Simulation speed selected by the player.
#[derive(Debug, Clone, Copy, PartialEq, Eq, Structural)]
pub enum TimeControl {
    Paused,
    OneX,
    TwoX,
    FourX,
}

impl TimeControl {
    /// Simulation ticks per real-time tick interval: 0, 1, 2 or 4.
    pub fn multiplier(self) -> (m: u64)
        ensures
            m == match self {
                TimeControl::Paused => 0u64,
                TimeControl::OneX => 1u64,
                TimeControl::TwoX => 2u64,
                TimeControl::FourX => 4u64,
            },
    {
        match self {
            TimeControl::Paused => 0,
            TimeControl::OneX => 1,
            TimeControl::TwoX => 2,
            TimeControl::FourX => 4,
        }
    }
}

/// A saved session: schema and content versions, the tick, the survey and
/// simulation worlds, the selected cell, the mission and the campaign progress.
#[derive(Debug, Clone)]
pub struct SaveData {
    pub schema_version: u32,
    pub version: String,
    pub tick: u64,
    pub world: WorldState,
    pub simulation: crate::simulation::SimulationWorld,
    pub selected: CellPos,
    pub mission: crate::mission::state::MissionState,
    pub campaign: crate::mission::progress::CampaignProgress,
}

} // verus!
