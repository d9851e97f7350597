//! The operator's field actions on the running session: time, selection,
//! inspection, terrain, build plans, flow settings, deposits, devices, test
//! injections, the overlay and the tutorial prompt.

use vstd::prelude::*;

use super::{admitted, Game};
use crate::devices::placement::{device_removed, plan_cancelled, plan_queued, plans_committed, plans_cost};
use crate::devices::{flow_set, enabled_set, DeviceError, DeviceState, DeviceSystem};
use crate::economy::FabricationState;
use crate::mission::state::admit_spec;
use crate::mission::CommandKind;
use crate::simulation::world::{injected_into, injection_accepted, recovered_at, terrain_edited};
use crate::simulation::{FluidId, TerrainAction, TerrainError, ENTITY_LIMIT};
use crate::state::session::clamp_axis;
use crate::state::{CellPos, CellState, GameSession, TimeControl};
use crate::text::{decimal, push_decimal};

verus! {

/// `g1` differs from `g0` in its notice alone.
pub open spec fn only_notice(g0: Game, g1: Game) -> bool {
    g1 == (Game { notice: g1.notice, ..g0 })
}

/// `g1` is `g0` with the pause menu toggled; opening it pauses time.
pub open spec fn pause_toggled(g0: Game, g1: Game) -> bool {
    if g0.pause_menu {
        g1 == (Game { pause_menu: false, ..g0 })
    } else {
        &&& g1 == (Game {
            pause_menu: true,
            session: GameSession { time_control: TimeControl::Paused, ..g0.session },
            notice: g1.notice,
            ..g0
        })
        &&& g1.notice@ == "Pause menu open"@
    }
}

/// The command that asks for a speed.
pub open spec fn time_command(time: TimeControl) -> CommandKind {
    if time == TimeControl::Paused {
        CommandKind::SetPaused
    } else {
        CommandKind::SetTimeRunning
    }
}

/// `g1` is `g0` after asking for speed `time`: the mission is asked (see
/// `admitted`) and, when it admits, the speed is set.
pub open spec fn time_set(g0: Game, g1: Game, time: TimeControl) -> bool {
    exists|mid: Game, ok: bool|
        #[trigger] admitted(g0, mid, time_command(time), ok) && g1 == if ok {
            Game { session: GameSession { time_control: time, ..mid.session }, ..mid }
        } else {
            mid
        }
}

/// The mission after a selection: it is told of the selection unless it has
/// taken every command it can count.
pub open spec fn after_selection(g0: Game) -> crate::mission::state::MissionView {
    if g0.session.mission.command_count < u32::MAX {
        admit_spec(g0.session.mission@, CommandKind::Select)
    } else {
        g0.session.mission@
    }
}

/// The notice naming the selected cell.
pub open spec fn selection_notice(p: CellPos) -> Seq<char> {
    "Survey target selected: "@ + decimal(p.x as nat) + ", "@ + decimal(p.y as nat)
}

/// `g1` is `g0` with `pos` selected and the mission told (see `after_selection`).
pub open spec fn selected_at(g0: Game, g1: Game, pos: CellPos) -> bool {
    &&& g1 == (Game {
        session: GameSession { selected: pos, mission: g1.session.mission, ..g0.session },
        notice: g1.notice,
        ..g0
    })
    &&& g1.session.mission@ == after_selection(g0)
    &&& g1.notice@ == selection_notice(pos)
}

/// Whether a selection move stays within the coordinate range the survey grid
/// allows.
pub open spec fn move_fits(s: GameSession, dx: i16, dy: i16) -> bool {
    &&& 1 <= s.world.width <= 32767
    &&& 1 <= s.world.height <= 32767
    &&& s.selected.x <= 32767
    &&& s.selected.y <= 32767
    &&& s.selected.x + dx <= 32767
    &&& s.selected.y + dy <= 32767
}

/// The selection after a move by `(dx, dy)`, held on the survey grid.
pub open spec fn moved_selection(s: GameSession, dx: i16, dy: i16) -> CellPos {
    if move_fits(s, dx, dy) {
        CellPos {
            x: clamp_axis(s.selected.x + dx, s.world.width as int) as u16,
            y: clamp_axis(s.selected.y + dy, s.world.height as int) as u16,
        }
    } else {
        s.selected
    }
}

/// The mission was asked `command`, which turned `g0` into `mid` (see
/// `admitted`); a refusal ends there, so `g1` is `mid`.
pub open spec fn then_if_admitted(g0: Game, g1: Game, command: CommandKind, mid: Game, ok: bool) -> bool {
    &&& admitted(g0, mid, command, ok)
    &&& !ok ==> g1 == mid
}

/// The notice of an inspection.
pub open spec fn inspect_notice(p: CellPos) -> Seq<char> {
    "Inspecting cell "@ + decimal(p.x as nat) + ", "@ + decimal(p.y as nat)
}

/// `g1` is `g0` after asking to inspect the selected cell.
pub open spec fn inspected(g0: Game, g1: Game) -> bool {
    exists|mid: Game, ok: bool|
        #[trigger] then_if_admitted(g0, g1, CommandKind::Inspect, mid, ok) && (ok ==> only_notice(mid, g1)
            && g1.notice@ == inspect_notice(g0.session.selected))
}

/// The name of the placement's quarter turn in degrees.
pub open spec fn rotation_notice(r: u8) -> Seq<char> {
    "Placement rotation "@ + decimal((r * 90) as nat) + "°"@
}

/// `g1` is `g0` with the placement turned a quarter.
pub open spec fn rotated(g0: Game, g1: Game) -> bool {
    let r = ((g0.placement_rotation + 1) % 4) as u8;
    &&& g1 == (Game { placement_rotation: r, notice: g1.notice, ..g0 })
    &&& g1.notice@ == rotation_notice(r)
}

/// The name of an overlay mode.
pub open spec fn overlay_name_spec(mode: u8) -> Seq<char> {
    if mode == 1 {
        "GRADE"@
    } else if mode == 2 {
        "FLOW"@
    } else if mode == 3 {
        "HEAT"@
    } else if mode == 4 {
        "CONTAMINATION"@
    } else {
        "MATERIAL"@
    }
}

/// The name of an overlay mode (see `overlay_name_spec`).
pub fn overlay_name(mode: u8) -> (name: &'static str)
    ensures
        name@ == overlay_name_spec(mode),
{
    if mode == 1 {
        "GRADE"
    } else if mode == 2 {
        "FLOW"
    } else if mode == 3 {
        "HEAT"
    } else if mode == 4 {
        "CONTAMINATION"
    } else {
        "MATERIAL"
    }
}

/// `g1` is `g0` showing the next of the five overlays.
pub open spec fn overlay_cycled(g0: Game, g1: Game) -> bool {
    let m = ((g0.overlay_mode + 1) % 5) as u8;
    &&& g1 == (Game { overlay_mode: m, notice: g1.notice, ..g0 })
    &&& g1.notice@ == overlay_name_spec(m) + " overlay"@
}

/// Whether a test injection can be credited to the ledger.
pub open spec fn injection_fits(g: Game) -> bool {
    g.session.simulation.ledger.injected <= u64::MAX - 500
}

/// `g1` is `g0` after pouring 500 vU of `fluid` into the selected cell, when the
/// ledger can take it; otherwise nothing changes.
pub open spec fn injected_at_selection(g0: Game, g1: Game, fluid: FluidId) -> bool {
    if injection_fits(g0) {
        &&& g1 == (Game { session: GameSession { simulation: g1.session.simulation, ..g0.session }, ..g0 })
        &&& injected_into(g0.session.simulation, g1.session.simulation, g0.session.selected, fluid, 500)
    } else {
        g1 == g0
    }
}

/// The command that asks for a terrain edit.
pub open spec fn terrain_command(action: TerrainAction) -> CommandKind {
    if action == TerrainAction::Excavate {
        CommandKind::QueueExcavate
    } else {
        CommandKind::SelectTerrain
    }
}

/// How a terrain refusal reads in a notice.
pub open spec fn terrain_error_name(e: TerrainError) -> Seq<char> {
    match e {
        TerrainError::OutOfBounds => "OutOfBounds"@,
        TerrainError::Protected => "Protected"@,
        TerrainError::Capacity => "Capacity"@,
    }
}

/// Whether the edit keeps the selected cell's height within `i16`.
pub open spec fn height_fits(w: crate::simulation::SimulationWorld, pos: CellPos, action: TerrainAction) -> bool {
    match w.index_of(pos) {
        Some(i) => {
            &&& action == TerrainAction::Excavate ==> w.cells@[i as int].height_hu - 250 >= i16::MIN
            &&& action == TerrainAction::Raise ==> w.cells@[i as int].height_hu + 250 <= i16::MAX
        },
        None => true,
    }
}

/// The survey grid after a terrain edit: the edited cell's survey twin, when
/// there is one, takes the simulation cell's height and seal.
pub open spec fn survey_after_edit(g: Game, w: crate::simulation::SimulationWorld, pos: CellPos) -> Seq<CellState> {
    match w.index_of(pos) {
        Some(i) => if i < g.session.world.cells@.len() {
            g.session.world.cells@.update(
                i as int,
                CellState { height_hu: w.cells@[i as int].height_hu, sealed: w.cells@[i as int].sealed },
            )
        } else {
            g.session.world.cells@
        },
        None => g.session.world.cells@,
    }
}

/// `g1` is `mid`, whose mission admitted the edit, after the terrain edit
/// `action` on the selected cell: the edit is made (see `terrain_edited`), the
/// survey follows it, and the notice reports it. An edit that would carry a
/// height out of `i16` reads as a capacity refusal and changes nothing.
pub open spec fn terrain_applied(mid: Game, g1: Game, action: TerrainAction) -> bool {
    let pos = mid.session.selected;
    let w0 = mid.session.simulation;
    if height_fits(w0, pos, action) {
        exists|result: Result<(), TerrainError>|
            {
                &&& #[trigger] terrain_edited(w0, g1.session.simulation, pos, action, result)
                &&& g1 == (Game {
                    session: GameSession {
                        simulation: g1.session.simulation,
                        world: crate::state::WorldState { cells: g1.session.world.cells, ..mid.session.world },
                        ..mid.session
                    },
                    notice: g1.notice,
                    ..mid
                })
                &&& g1.session.world.cells@ == survey_after_edit(mid, g1.session.simulation, pos)
                &&& g1.notice@ == match result {
                    Ok(()) => "Terrain edit committed"@,
                    Err(e) => "Terrain edit rejected: "@ + terrain_error_name(e),
                }
            }
    } else {
        &&& only_notice(mid, g1)
        &&& g1.notice@ == "Terrain edit rejected: Capacity"@
    }
}

/// `g1` is `g0` after asking for the terrain edit `action` on the selected cell.
pub open spec fn terrain_done(g0: Game, g1: Game, action: TerrainAction) -> bool {
    exists|mid: Game, ok: bool|
        #[trigger] then_if_admitted(g0, g1, terrain_command(action), mid, ok) && (ok ==> terrain_applied(mid, g1, action))
}

/// How a placement refusal reads in a notice.
pub open spec fn device_error_name(e: DeviceError) -> Seq<char> {
    match e {
        DeviceError::OutOfBounds => "OutOfBounds"@,
        DeviceError::Occupied => "Occupied"@,
        DeviceError::InsufficientFabrication => "InsufficientFabrication"@,
        DeviceError::Protected => "Protected"@,
        DeviceError::InvalidRotation => "InvalidRotation"@,
    }
}

/// The name of a placement refusal (see `device_error_name`).
pub fn device_error_text(e: DeviceError) -> (text: &'static str)
    ensures
        text@ == device_error_name(e),
{
    match e {
        DeviceError::OutOfBounds => "OutOfBounds",
        DeviceError::Occupied => "Occupied",
        DeviceError::InsufficientFabrication => "InsufficientFabrication",
        DeviceError::Protected => "Protected",
        DeviceError::InvalidRotation => "InvalidRotation",
    }
}

/// `g1` differs from `g` in the simulation's devices and fabrication stock alone,
/// and in the notice.
pub open spec fn devices_and_stock(g: Game, g1: Game) -> bool {
    g1 == (Game {
        session: GameSession {
            simulation: crate::simulation::SimulationWorld {
                devices: g1.session.simulation.devices,
                fabrication: g1.session.simulation.fabrication,
                ..g.session.simulation
            },
            ..g.session
        },
        notice: g1.notice,
        ..g
    })
}

/// Whether the stock and plan counters can take a new plan for `device`.
pub open spec fn queue_fits(g: Game, device: crate::devices::DeviceId) -> bool {
    &&& g.session.simulation.devices.next_plan_id < u32::MAX
    &&& g.session.simulation.fabrication.reserved_fu + device.cost_spec() <= u32::MAX
}

/// `g1` is `mid`, whose mission admitted the plan, after queueing `device` at the
/// selection with the placement's rotation (see `plan_queued`); counters that
/// cannot take another plan read as an insufficient stock and change nothing.
pub open spec fn queue_applied(mid: Game, g1: Game, device: crate::devices::DeviceId) -> bool {
    let w = mid.session.simulation;
    if queue_fits(mid, device) {
        exists|result: Result<u32, DeviceError>|
            {
                &&& #[trigger] plan_queued(
                    w,
                    w.devices,
                    g1.session.simulation.devices,
                    w.fabrication,
                    g1.session.simulation.fabrication,
                    device,
                    mid.session.selected,
                    mid.placement_rotation,
                    result,
                )
                &&& devices_and_stock(mid, g1)
                &&& g1.notice@ == match result {
                    Ok(id) => "Queued "@ + device.name_spec() + " plan #"@ + decimal(id as nat) + " at "@ + decimal(
                        (mid.placement_rotation * 90) as nat,
                    ) + "° — use COMMIT or CANCEL"@,
                    Err(e) => "Queue rejected: "@ + device_error_name(e),
                }
            }
    } else {
        &&& only_notice(mid, g1)
        &&& g1.notice@ == "Queue rejected: InsufficientFabrication"@
    }
}

/// `g1` is `g0` after choosing `device` for placement and asking to queue it.
pub open spec fn device_queued(g0: Game, g1: Game, device: crate::devices::DeviceId) -> bool {
    let g = Game { placement_device: device, ..g0 };
    exists|mid: Game, ok: bool|
        #[trigger] then_if_admitted(g, g1, CommandKind::QueueDevice(device), mid, ok) && (ok ==> queue_applied(
            mid,
            g1,
            device,
        ))
}

/// Whether the counters can take every queued plan at once.
pub open spec fn commit_fits(g: Game) -> bool {
    let d = g.session.simulation.devices;
    let f = g.session.simulation.fabrication;
    let cost = plans_cost(d.queued@);
    &&& cost <= u32::MAX
    &&& d.queued@.len() <= ENTITY_LIMIT
    &&& d.next_entity_id + d.queued@.len() <= u32::MAX
    &&& f.spent_fu + cost <= u32::MAX
    &&& d.devices@.len() <= ENTITY_LIMIT - d.queued@.len()
}

/// `g1` is `mid`, whose mission admitted the commit, after committing every
/// queued plan (see `plans_committed`); counters that cannot take them read as
/// an insufficient stock and change nothing.
pub open spec fn commit_applied(mid: Game, g1: Game) -> bool {
    let w = mid.session.simulation;
    if commit_fits(mid) {
        exists|result: Result<Vec<u32>, DeviceError>|
            {
                &&& #[trigger] plans_committed(
                    w,
                    w.devices,
                    g1.session.simulation.devices,
                    w.fabrication,
                    g1.session.simulation.fabrication,
                    result,
                )
                &&& devices_and_stock(mid, g1)
                &&& g1.notice@ == match result {
                    Ok(ids) => "Committed "@ + decimal(ids@.len()) + " build plan(s)"@,
                    Err(e) => "Plan commit rejected: "@ + device_error_name(e),
                }
            }
    } else {
        &&& only_notice(mid, g1)
        &&& g1.notice@ == "Plan commit rejected: InsufficientFabrication"@
    }
}

/// `g1` is `g0` after asking to commit the queued plans.
pub open spec fn plans_commit_done(g0: Game, g1: Game) -> bool {
    exists|mid: Game, ok: bool|
        #[trigger] then_if_admitted(g0, g1, CommandKind::CommitPlan, mid, ok) && (ok ==> commit_applied(mid, g1))
}

/// Whether the stock can take back any reservation.
pub open spec fn cancel_fits(g: Game) -> bool {
    g.session.simulation.fabrication.available_fu + g.session.simulation.fabrication.reserved_fu <= u32::MAX
}

/// `g1` is `g0` after cancelling the last queued plan (see `plan_cancelled`); a
/// stock that could not take back a reservation changes nothing.
pub open spec fn plan_cancel_done(g0: Game, g1: Game) -> bool {
    let w = g0.session.simulation;
    if cancel_fits(g0) {
        exists|cancelled: bool|
            {
                &&& #[trigger] plan_cancelled(
                    w.devices,
                    g1.session.simulation.devices,
                    w.fabrication,
                    g1.session.simulation.fabrication,
                    cancelled,
                )
                &&& devices_and_stock(g0, g1)
                &&& g1.notice@ == if cancelled {
                    "Last build plan cancelled"@
                } else {
                    "No queued build plan"@
                }
            }
    } else {
        &&& only_notice(g0, g1)
        &&& g1.notice@ == "Build plan cancel rejected: stock at its limit"@
    }
}

/// `g1` is `mid`, whose mission admitted the setting, after setting the flow
/// device at the selection (see `flow_set`).
pub open spec fn gate_applied(mid: Game, g1: Game, setting_bp: u16) -> bool {
    let w = mid.session.simulation;
    exists|found: bool|
        {
            &&& #[trigger] flow_set(w.devices, g1.session.simulation.devices, mid.session.selected, setting_bp, found)
            &&& g1 == (Game {
                session: GameSession {
                    simulation: crate::simulation::SimulationWorld { devices: g1.session.simulation.devices, ..w },
                    ..mid.session
                },
                notice: g1.notice,
                ..mid
            })
            &&& g1.notice@ == if found {
                "Selected flow control set to "@ + decimal((setting_bp / 100) as nat) + "%"@
            } else {
                "Select a floodgate, pump, or reservoir"@
            }
        }
}

/// `g1` is `g0` after asking to set the selected flow device to `setting_bp`.
pub open spec fn gate_set(g0: Game, g1: Game, setting_bp: u16) -> bool {
    exists|mid: Game, ok: bool|
        #[trigger] then_if_admitted(g0, g1, CommandKind::SetGate(setting_bp), mid, ok) && (ok ==> gate_applied(
            mid,
            g1,
            setting_bp,
        ))
}

/// `g1` is `mid`, whose mission admitted the recovery, after recovering the
/// deposit at the selection (see `recovered_at`); a stock that could not take
/// some deposit's yield changes nothing.
pub open spec fn recovery_applied(mid: Game, g1: Game) -> bool {
    let w = mid.session.simulation;
    if crate::replay::yields_fit(w) {
        exists|result: Result<u32, crate::economy::FabricationError>|
            {
                &&& #[trigger] recovered_at(w, g1.session.simulation, mid.session.selected, result)
                &&& g1 == (Game {
                    session: GameSession { simulation: g1.session.simulation, ..mid.session },
                    notice: g1.notice,
                    ..mid
                })
                &&& g1.notice@ == match result {
                    Ok(y) => "Recovered "@ + decimal(y as nat) + " fabU from local deposit"@,
                    Err(e) => "Deposit recovery rejected: "@ + e.message_spec(),
                }
            }
    } else {
        &&& only_notice(mid, g1)
        &&& g1.notice@ == "Deposit recovery rejected: stock at its limit"@
    }
}

/// `g1` is `g0` after asking to recover the deposit at the selection.
pub open spec fn deposit_recovery_done(g0: Game, g1: Game) -> bool {
    exists|mid: Game, ok: bool|
        #[trigger] then_if_admitted(g0, g1, CommandKind::RecoverDeposit, mid, ok) && (ok ==> recovery_applied(mid, g1))
}

/// The first device anchored at `anchor` (a player's, when `player_only`) is at `i`.
pub open spec fn first_at_anchor(devices: Seq<DeviceState>, anchor: CellPos, player_only: bool, i: int) -> bool {
    &&& 0 <= i < devices.len()
    &&& devices[i].anchor == anchor
    &&& player_only ==> !devices[i].authored
    &&& forall|j: int| 0 <= j < i ==> !((#[trigger] devices[j]).anchor == anchor && (player_only ==> !devices[j].authored))
}

/// The first device with `entity_id` is disabled.
pub open spec fn first_disabled(devices: Seq<DeviceState>, entity_id: u32) -> bool {
    exists|k: int| #[trigger] crate::devices::placement::first_with_id(devices, entity_id, k) && !devices[k].enabled
}

/// `g1` is `mid`, whose mission admitted the toggle, after switching the first
/// player device at the selection on when the first device with its identifier
/// is off, and off otherwise (see `enabled_set`).
pub open spec fn toggle_applied(mid: Game, g1: Game) -> bool {
    let w = mid.session.simulation;
    let anchor = mid.session.selected;
    if exists|i: int| #[trigger] first_at_anchor(w.devices.devices@, anchor, true, i) {
        let i = choose|i: int| #[trigger] first_at_anchor(w.devices.devices@, anchor, true, i);
        let id = w.devices.devices@[i].entity_id;
        let enabled = first_disabled(w.devices.devices@, id);
        exists|found: bool|
            {
                &&& #[trigger] enabled_set(w.devices, g1.session.simulation.devices, id, enabled, found)
                &&& g1 == (Game {
                    session: GameSession {
                        simulation: crate::simulation::SimulationWorld { devices: g1.session.simulation.devices, ..w },
                        ..mid.session
                    },
                    notice: g1.notice,
                    ..mid
                })
                &&& g1.notice@ == if enabled {
                    "Selected device enabled"@
                } else {
                    "Selected device disabled"@
                }
            }
    } else {
        &&& only_notice(mid, g1)
        &&& g1.notice@ == "Select a player device to toggle"@
    }
}

/// `g1` is `g0` after asking to toggle the selected device.
pub open spec fn device_toggle_done(g0: Game, g1: Game) -> bool {
    exists|mid: Game, ok: bool|
        #[trigger] then_if_admitted(g0, g1, CommandKind::ToggleDevice, mid, ok) && (ok ==> toggle_applied(mid, g1))
}

/// Whether the stock can take any device's refund.
pub open spec fn refund_fits(g: Game) -> bool {
    &&& g.session.simulation.fabrication.available_fu <= u32::MAX - 20
    &&& g.session.simulation.fabrication.refunded_fu <= u32::MAX - 20
}

/// `g1` is `g0` after removing the first device anchored at the selection (see
/// `device_removed`); a stock that could not take a refund changes nothing.
pub open spec fn device_removal_done(g0: Game, g1: Game) -> bool {
    let w = g0.session.simulation;
    let anchor = g0.session.selected;
    if exists|i: int| #[trigger] first_at_anchor(w.devices.devices@, anchor, false, i) {
        let i = choose|i: int| #[trigger] first_at_anchor(w.devices.devices@, anchor, false, i);
        let id = w.devices.devices@[i].entity_id;
        if refund_fits(g0) {
            exists|removed: bool|
                {
                    &&& #[trigger] device_removed(
                        w.devices,
                        g1.session.simulation.devices,
                        w.fabrication,
                        g1.session.simulation.fabrication,
                        id,
                        removed,
                    )
                    &&& devices_and_stock(g0, g1)
                    &&& g1.notice@ == if removed {
                        "Device removed and fabrication refunded"@
                    } else {
                        "Device removal rejected"@
                    }
                }
        } else {
            &&& only_notice(g0, g1)
            &&& g1.notice@ == "Device removal rejected"@
        }
    } else {
        &&& only_notice(g0, g1)
        &&& g1.notice@ == "Select a device to remove"@
    }
}

impl Game {
    /// Open or close the pause menu; opening it pauses time.
    pub fn toggle_pause(&mut self)
        requires
            old(self).wf(),
        ensures
            final(self).wf(),
            pause_toggled(*old(self), *final(self)),
    {
        self.pause_menu = !self.pause_menu;
        if self.pause_menu {
            self.session.time_control = TimeControl::Paused;
            self.notice = "Pause menu open".to_owned();
        }
    }

    /// Ask for speed `time`; the mission must admit it (see `time_set`).
    pub fn set_time(&mut self, time: TimeControl)
        requires
            old(self).wf(),
        ensures
            final(self).wf(),
            time_set(*old(self), *final(self), time),
    {
        let command = if time == TimeControl::Paused {
            CommandKind::SetPaused
        } else {
            CommandKind::SetTimeRunning
        };
        let ok = self.admit_command(command);
        let ghost mid = *self;
        if ok {
            self.session.time_control = time;
        }
        proof {
            assert(admitted(*old(self), mid, time_command(time), ok));
        }
    }

    /// Tell the mission of a selection, unless it has taken every command it can
    /// count, and name the selected cell in the notice.
    fn announce_selection(&mut self)
        ensures
            *final(self) == (Game {
                session: GameSession { mission: final(self).session.mission, ..old(self).session },
                notice: final(self).notice,
                ..*old(self)
            }),
            final(self).session.mission@ == after_selection(*old(self)),
            final(self).notice@ == selection_notice(old(self).session.selected),
    {
        if self.session.mission.command_count < u32::MAX {
            let _ = self.session.mission.admit_command(CommandKind::Select);
        }
        let mut notice = "Survey target selected: ".to_owned();
        push_decimal(&mut notice, self.session.selected.x as u64);
        notice.append(", ");
        push_decimal(&mut notice, self.session.selected.y as u64);
        self.notice = notice;
    }

    /// Select the cell at `pos` when it lies on the simulation grid (see
    /// `selected_at`); false, with nothing changed, when it does not.
    pub fn select(&mut self, pos: CellPos) -> (on_grid: bool)
        requires
            old(self).wf(),
        ensures
            final(self).wf(),
            on_grid == old(self).session.simulation.index_of(pos) is Some,
            on_grid ==> selected_at(*old(self), *final(self), pos),
            !on_grid ==> *final(self) == *old(self),
    {
        if self.session.simulation.index(pos).is_none() {
            return false;
        }
        self.session.selected = pos;
        self.announce_selection();
        true
    }

    /// Move the selection by `(dx, dy)`, held on the survey grid (see
    /// `moved_selection`), and tell the mission.
    pub fn move_selection(&mut self, dx: i16, dy: i16)
        requires
            old(self).wf(),
        ensures
            final(self).wf(),
            selected_at(*old(self), *final(self), moved_selection(old(self).session, dx, dy)),
    {
        let fits = 1 <= self.session.world.width && self.session.world.width <= 32767 && 1 <= self.session.world.height
            && self.session.world.height <= 32767 && self.session.selected.x <= 32767 && self.session.selected.y
            <= 32767 && self.session.selected.x as i32 + dx as i32 <= 32767 && self.session.selected.y as i32
            + dy as i32 <= 32767;
        if fits {
            self.session.move_selected(dx, dy);
        }
        self.announce_selection();
    }

    /// Ask to inspect the selected cell (see `inspected`).
    pub fn inspect(&mut self)
        requires
            old(self).wf(),
        ensures
            final(self).wf(),
            inspected(*old(self), *final(self)),
    {
        let ok = self.admit_command(CommandKind::Inspect);
        let ghost mid = *self;
        if ok {
            let mut notice = "Inspecting cell ".to_owned();
            push_decimal(&mut notice, self.session.selected.x as u64);
            notice.append(", ");
            push_decimal(&mut notice, self.session.selected.y as u64);
            self.notice = notice;
        }
        proof {
            assert(then_if_admitted(*old(self), *self, CommandKind::Inspect, mid, ok));
        }
    }

    /// Turn the placement a quarter (see `rotated`).
    pub fn rotate_placement(&mut self)
        requires
            old(self).wf(),
        ensures
            final(self).wf(),
            rotated(*old(self), *final(self)),
    {
        let r: u8 = (self.placement_rotation % 4 + 1) % 4;
        self.placement_rotation = r;
        let mut notice = "Placement rotation ".to_owned();
        push_decimal(&mut notice, r as u64 * 90);
        notice.append("°");
        self.notice = notice;
    }

    /// Show the next of the five overlays (see `overlay_cycled`).
    pub fn cycle_overlay(&mut self)
        requires
            old(self).wf(),
        ensures
            final(self).wf(),
            overlay_cycled(*old(self), *final(self)),
    {
        let m: u8 = (self.overlay_mode % 5 + 1) % 5;
        self.overlay_mode = m;
        let mut notice = overlay_name(m).to_owned();
        notice.append(" overlay");
        self.notice = notice;
    }

    /// Pour 500 vU of `fluid` into the selected cell, as a test of the field (see
    /// `injected_at_selection`).
    pub fn inject_at_selection(&mut self, fluid: FluidId)
        requires
            old(self).wf(),
        ensures
            final(self).wf(),
            injected_at_selection(*old(self), *final(self), fluid),
    {
        if self.session.simulation.ledger.injected <= u64::MAX - 500 {
            proof {
                assert(injection_accepted(self.session.simulation, self.session.selected, fluid, 500) <= 500);
            }
            let pos = self.session.selected;
            self.session.simulation.inject(pos, fluid, 500);
        }
    }

    /// Ask for the terrain edit `action` on the selected cell (see `terrain_done`).
    pub fn apply_terrain(&mut self, action: TerrainAction)
        requires
            old(self).wf(),
        ensures
            final(self).wf(),
            terrain_done(*old(self), *final(self), action),
    {
        let command = if action == TerrainAction::Excavate {
            CommandKind::QueueExcavate
        } else {
            CommandKind::SelectTerrain
        };
        let ok = self.admit_command(command);
        let ghost mid = *self;
        if ok {
            self.edit_selected_terrain(action);
        }
        proof {
            assert(then_if_admitted(*old(self), *self, terrain_command(action), mid, ok));
        }
    }

    /// Make the terrain edit `action` on the selected cell and copy the cell onto
    /// its survey twin (see `terrain_applied`).
    fn edit_selected_terrain(&mut self, action: TerrainAction)
        requires
            old(self).wf(),
        ensures
            final(self).wf(),
            terrain_applied(*old(self), *final(self), action),
    {
        let pos = self.session.selected;
        let fits = match self.session.simulation.index(pos) {
            Some(i) => {
                proof {
                    crate::state::lemma_grid_index_bound(self.session.simulation.width, self.session.simulation.height, pos);
                }
                let h = self.session.simulation.cells[i].height_hu;
                (action != TerrainAction::Excavate || h >= i16::MIN + 250) && (action != TerrainAction::Raise || h
                    <= i16::MAX - 250)
            },
            None => true,
        };
        if !fits {
            self.notice = "Terrain edit rejected: Capacity".to_owned();
            return;
        }
        let result = self.session.simulation.terrain_edit(pos, action);
        self.notice = match result {
            Ok(()) => "Terrain edit committed".to_owned(),
            Err(e) => {
                let mut notice = "Terrain edit rejected: ".to_owned();
                notice.append(
                    match e {
                        TerrainError::OutOfBounds => "OutOfBounds",
                        TerrainError::Protected => "Protected",
                        TerrainError::Capacity => "Capacity",
                    },
                );
                notice
            },
        };
        match self.session.simulation.index(pos) {
            Some(i) => {
                proof {
                    crate::state::lemma_grid_index_bound(self.session.simulation.width, self.session.simulation.height, pos);
                }
                if i < self.session.world.cells.len() {
                    let cell = CellState {
                        height_hu: self.session.simulation.cells[i].height_hu,
                        sealed: self.session.simulation.cells[i].sealed,
                    };
                    self.session.world.cells.set(i, cell);
                }
            },
            None => {},
        }
        proof {
            assert(terrain_edited(old(self).session.simulation, self.session.simulation, pos, action, result));
        }
    }
}

impl Game {
    /// Take the devices and stock out of the simulation for a change made
    /// through `DeviceSystem`.
    fn take_devices(&mut self) -> (parts: (DeviceSystem, FabricationState))
        ensures
            parts.0 == old(self).session.simulation.devices,
            parts.1 == old(self).session.simulation.fabrication,
            final(self).session.simulation.devices.wf(),
            *final(self) == (Game {
                session: GameSession {
                    simulation: crate::simulation::SimulationWorld {
                        devices: final(self).session.simulation.devices,
                        fabrication: final(self).session.simulation.fabrication,
                        ..old(self).session.simulation
                    },
                    ..old(self).session
                },
                ..*old(self)
            }),
    {
        let mut devices = DeviceSystem::default();
        std::mem::swap(&mut devices, &mut self.session.simulation.devices);
        let mut fabrication = FabricationState::default();
        std::mem::swap(&mut fabrication, &mut self.session.simulation.fabrication);
        (devices, fabrication)
    }

    /// Choose `device` for placement and ask to queue it at the selection (see
    /// `device_queued`).
    pub fn queue_device(&mut self, device: crate::devices::DeviceId)
        requires
            old(self).wf(),
        ensures
            final(self).wf(),
            device_queued(*old(self), *final(self), device),
    {
        self.placement_device = device;
        let ghost g = *self;
        let ok = self.admit_command(CommandKind::QueueDevice(device));
        let ghost mid = *self;
        if ok {
            if self.session.simulation.devices.next_plan_id == u32::MAX || self.session.simulation.fabrication.reserved_fu
                > u32::MAX - device.cost() {
                self.notice = "Queue rejected: InsufficientFabrication".to_owned();
            } else {
                let anchor = self.session.selected;
                let rotation = self.placement_rotation;
                let (mut devices, mut fabrication) = self.take_devices();
                proof {
                    crate::devices::placement::lemma_first_cell_error_frame(
                        self.session.simulation,
                        mid.session.simulation,
                        devices.devices@,
                        devices.queued@,
                        device,
                        anchor,
                        0,
                    );
                }
                let result = devices.queue(&self.session.simulation, device, anchor, rotation, &mut fabrication);
                let ghost d1 = devices;
                let ghost f1 = fabrication;
                self.session.simulation.devices = devices;
                self.session.simulation.fabrication = fabrication;
                let mut notice: String;
                match result {
                    Ok(id) => {
                        notice = "Queued ".to_owned();
                        notice.append(device.name());
                        notice.append(" plan #");
                        push_decimal(&mut notice, id as u64);
                        notice.append(" at ");
                        push_decimal(&mut notice, rotation as u64 * 90);
                        notice.append("° — use COMMIT or CANCEL");
                    },
                    Err(e) => {
                        notice = "Queue rejected: ".to_owned();
                        notice.append(device_error_text(e));
                    },
                }
                self.notice = notice;
                proof {
                    assert(plan_queued(
                        mid.session.simulation,
                        mid.session.simulation.devices,
                        d1,
                        mid.session.simulation.fabrication,
                        f1,
                        device,
                        anchor,
                        rotation,
                        result,
                    ));
                    assert(self.session.simulation == (crate::simulation::SimulationWorld { devices: d1, fabrication: f1, ..mid.session.simulation }));
                    assert(devices_and_stock(mid, *self));
                }
            }
        }
        proof {
            assert(then_if_admitted(g, *self, CommandKind::QueueDevice(device), mid, ok));
        }
    }

    /// Ask to commit every queued plan (see `plans_commit_done`).
    pub fn commit_build_plan(&mut self)
        requires
            old(self).wf(),
        ensures
            final(self).wf(),
            plans_commit_done(*old(self), *final(self)),
    {
        let ok = self.admit_command(CommandKind::CommitPlan);
        let ghost mid = *self;
        if ok {
            let fits = match crate::replay::queued_cost(&self.session.simulation.devices.queued) {
                Some(cost) => {
                    let d = &self.session.simulation.devices;
                    d.queued.len() <= ENTITY_LIMIT && d.next_entity_id as u64 + d.queued.len() as u64 <= u32::MAX as u64
                        && self.session.simulation.fabrication.spent_fu <= u32::MAX - cost && d.devices.len()
                        <= ENTITY_LIMIT - d.queued.len()
                },
                None => false,
            };
            if !fits {
                self.notice = "Plan commit rejected: InsufficientFabrication".to_owned();
            } else {
                let (mut devices, mut fabrication) = self.take_devices();
                proof {
                    crate::devices::placement::lemma_commit_error_frame(
                        self.session.simulation,
                        mid.session.simulation,
                        devices.devices@,
                        devices.queued@,
                        0,
                    );
                }
                let result = devices.commit_plan(&self.session.simulation, &mut fabrication);
                let ghost d1 = devices;
                let ghost f1 = fabrication;
                self.session.simulation.devices = devices;
                self.session.simulation.fabrication = fabrication;
                let mut notice: String;
                match &result {
                    Ok(ids) => {
                        notice = "Committed ".to_owned();
                        push_decimal(&mut notice, ids.len() as u64);
                        notice.append(" build plan(s)");
                    },
                    Err(e) => {
                        notice = "Plan commit rejected: ".to_owned();
                        notice.append(device_error_text(*e));
                    },
                }
                self.notice = notice;
                proof {
                    assert(plans_committed(
                        mid.session.simulation,
                        mid.session.simulation.devices,
                        d1,
                        mid.session.simulation.fabrication,
                        f1,
                        result,
                    ));
                    assert(self.session.simulation == (crate::simulation::SimulationWorld { devices: d1, fabrication: f1, ..mid.session.simulation }));
                    assert(devices_and_stock(mid, *self));
                }
            }
        }
        proof {
            assert(then_if_admitted(*old(self), *self, CommandKind::CommitPlan, mid, ok));
        }
    }

    /// Cancel the last queued plan (see `plan_cancel_done`).
    pub fn cancel_build_plan(&mut self)
        requires
            old(self).wf(),
        ensures
            final(self).wf(),
            plan_cancel_done(*old(self), *final(self)),
    {
        let f = &self.session.simulation.fabrication;
        if f.available_fu as u64 + f.reserved_fu as u64 > u32::MAX as u64 {
            self.notice = "Build plan cancel rejected: stock at its limit".to_owned();
            return;
        }
        let (mut devices, mut fabrication) = self.take_devices();
        let cancelled = devices.cancel_last_plan(&mut fabrication);
        let ghost d1 = devices;
        let ghost f1 = fabrication;
        self.session.simulation.devices = devices;
        self.session.simulation.fabrication = fabrication;
        self.notice = if cancelled {
            "Last build plan cancelled".to_owned()
        } else {
            "No queued build plan".to_owned()
        };
        proof {
            assert(plan_cancelled(
                old(self).session.simulation.devices,
                d1,
                old(self).session.simulation.fabrication,
                f1,
                cancelled,
            ));
            assert(self.session.simulation == (crate::simulation::SimulationWorld { devices: d1, fabrication: f1, ..old(self).session.simulation }));
            assert(devices_and_stock(*old(self), *self));
            assert(cancel_fits(*old(self)));
        }
    }

    /// Ask to set the selected flow device to `setting_bp` (see `gate_set`).
    pub fn set_gate(&mut self, setting_bp: u16)
        requires
            old(self).wf(),
        ensures
            final(self).wf(),
            gate_set(*old(self), *final(self), setting_bp),
    {
        let ok = self.admit_command(CommandKind::SetGate(setting_bp));
        let ghost mid = *self;
        if ok {
            let anchor = self.session.selected;
            let found = self.session.simulation.devices.set_selected_flow(anchor, setting_bp);
            if found {
                let mut notice = "Selected flow control set to ".to_owned();
                push_decimal(&mut notice, (setting_bp / 100) as u64);
                notice.append("%");
                self.notice = notice;
            } else {
                self.notice = "Select a floodgate, pump, or reservoir".to_owned();
            }
            proof {
                assert(flow_set(mid.session.simulation.devices, self.session.simulation.devices, anchor, setting_bp, found));
            }
        }
        proof {
            assert(then_if_admitted(*old(self), *self, CommandKind::SetGate(setting_bp), mid, ok));
        }
    }

    /// Ask to recover the deposit at the selection (see `deposit_recovery_done`).
    pub fn recover_selected_deposit(&mut self)
        requires
            old(self).wf(),
        ensures
            final(self).wf(),
            deposit_recovery_done(*old(self), *final(self)),
    {
        let ok = self.admit_command(CommandKind::RecoverDeposit);
        let ghost mid = *self;
        if ok {
            if !crate::replay::deposit_yields_fit(&self.session.simulation) {
                self.notice = "Deposit recovery rejected: stock at its limit".to_owned();
            } else {
                let pos = self.session.selected;
                let result = self.session.simulation.recover_deposit_at(pos);
                let mut notice: String;
                match &result {
                    Ok(y) => {
                        notice = "Recovered ".to_owned();
                        push_decimal(&mut notice, *y as u64);
                        notice.append(" fabU from local deposit");
                    },
                    Err(e) => {
                        notice = "Deposit recovery rejected: ".to_owned();
                        let message = e.message();
                        notice.append(message.as_str());
                    },
                }
                self.notice = notice;
                proof {
                    assert(recovered_at(mid.session.simulation, self.session.simulation, pos, result));
                }
            }
        }
        proof {
            assert(then_if_admitted(*old(self), *self, CommandKind::RecoverDeposit, mid, ok));
        }
    }
}

/// The first device anchored at `anchor` (a player's, when `player_only`).
fn find_at_anchor(devices: &Vec<DeviceState>, anchor: CellPos, player_only: bool) -> (found: Option<usize>)
    ensures
        match found {
            Some(i) => first_at_anchor(devices@, anchor, player_only, i as int),
            None => forall|i: int| !#[trigger] first_at_anchor(devices@, anchor, player_only, i),
        },
{
    let mut i: usize = 0;
    while i < devices.len()
        invariant
            i <= devices@.len(),
            forall|j: int| 0 <= j < i ==> !((#[trigger] devices@[j]).anchor == anchor && (player_only ==> !devices@[j].authored)),
        decreases devices@.len() - i,
    {
        if devices[i].anchor == anchor && (!player_only || !devices[i].authored) {
            return Some(i);
        }
        i = i + 1;
    }
    proof {
        assert forall|k: int| !#[trigger] first_at_anchor(devices@, anchor, player_only, k) by {
            if 0 <= k < devices@.len() {
                assert(!(devices@[k].anchor == anchor && (player_only ==> !devices@[k].authored)));
            }
        }
    }
    None
}

/// Whether the first device with `entity_id` is disabled.
fn first_is_disabled(devices: &Vec<DeviceState>, entity_id: u32) -> (off: bool)
    ensures
        off == first_disabled(devices@, entity_id),
{
    let mut i: usize = 0;
    while i < devices.len()
        invariant
            i <= devices@.len(),
            forall|j: int| 0 <= j < i ==> (#[trigger] devices@[j]).entity_id != entity_id,
        decreases devices@.len() - i,
    {
        if devices[i].entity_id == entity_id {
            proof {
                assert(crate::devices::placement::first_with_id(devices@, entity_id, i as int));
                assert forall|k: int| #[trigger] crate::devices::placement::first_with_id(devices@, entity_id, k) implies k == i by {
                    if k > i {
                        assert(devices@[i as int].entity_id == entity_id);
                    }
                }
            }
            return !devices[i].enabled;
        }
        i = i + 1;
    }
    false
}

impl Game {
    /// Ask to switch the first player device at the selection on or off (see
    /// `device_toggle_done`).
    pub fn toggle_selected_device(&mut self)
        requires
            old(self).wf(),
        ensures
            final(self).wf(),
            device_toggle_done(*old(self), *final(self)),
    {
        let ok = self.admit_command(CommandKind::ToggleDevice);
        let ghost mid = *self;
        if ok {
            let anchor = self.session.selected;
            match find_at_anchor(&self.session.simulation.devices.devices, anchor, true) {
                None => {
                    self.notice = "Select a player device to toggle".to_owned();
                },
                Some(i) => {
                    let id = self.session.simulation.devices.devices[i].entity_id;
                    let enabled = first_is_disabled(&self.session.simulation.devices.devices, id);
                    let found = self.session.simulation.devices.set_enabled(id, enabled);
                    self.notice = if enabled {
                        "Selected device enabled".to_owned()
                    } else {
                        "Selected device disabled".to_owned()
                    };
                    proof {
                        let c = choose|c: int| #[trigger] first_at_anchor(mid.session.simulation.devices.devices@, anchor, true, c);
                        if c < i {
                            assert(mid.session.simulation.devices.devices@[c].anchor == anchor);
                        } else if c > i {
                            assert(mid.session.simulation.devices.devices@[i as int].anchor == anchor);
                        }
                        assert(enabled_set(mid.session.simulation.devices, self.session.simulation.devices, id, enabled, found));
                    }
                },
            }
        }
        proof {
            assert(then_if_admitted(*old(self), *self, CommandKind::ToggleDevice, mid, ok));
        }
    }

    /// Remove the first device anchored at the selection (see
    /// `device_removal_done`).
    pub fn remove_selected_device(&mut self)
        requires
            old(self).wf(),
        ensures
            final(self).wf(),
            device_removal_done(*old(self), *final(self)),
    {
        let anchor = self.session.selected;
        match find_at_anchor(&self.session.simulation.devices.devices, anchor, false) {
            None => {
                self.notice = "Select a device to remove".to_owned();
            },
            Some(i) => {
                let id = self.session.simulation.devices.devices[i].entity_id;
                let f = &self.session.simulation.fabrication;
                proof {
                    let c = choose|c: int| #[trigger] first_at_anchor(old(self).session.simulation.devices.devices@, anchor, false, c);
                    if c < i {
                        assert(old(self).session.simulation.devices.devices@[c].anchor == anchor);
                    } else if c > i {
                        assert(old(self).session.simulation.devices.devices@[i as int].anchor == anchor);
                    }
                }
                if f.available_fu > u32::MAX - 20 || f.refunded_fu > u32::MAX - 20 {
                    self.notice = "Device removal rejected".to_owned();
                    return;
                }
                let (mut devices, mut fabrication) = self.take_devices();
                let removed = devices.remove(id, &mut fabrication);
                let ghost d1 = devices;
                let ghost f1 = fabrication;
                self.session.simulation.devices = devices;
                self.session.simulation.fabrication = fabrication;
                self.notice = if removed {
                    "Device removed and fabrication refunded".to_owned()
                } else {
                    "Device removal rejected".to_owned()
                };
                proof {
                    assert(device_removed(
                        old(self).session.simulation.devices,
                        d1,
                        old(self).session.simulation.fabrication,
                        f1,
                        id,
                        removed,
                    ));
                    assert(self.session.simulation == (crate::simulation::SimulationWorld { devices: d1, fabrication: f1, ..old(self).session.simulation }));
                    assert(devices_and_stock(*old(self), *self));
                }
            },
        }
    }
}

} // verus!
