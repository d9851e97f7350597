//! Keyboard routing of an operation in play: which action a pressed key asks for.

use vstd::prelude::*;

use super::{FrontendMode, Game, UiAction, VerificationMode};
use crate::devices::DeviceId;
use crate::mission::MissionPhase;
use crate::simulation::{FluidId, TerrainAction};
use crate::state::TimeControl;

verus! {

/// A key the game reads while an operation is in play.
#[derive(Debug, Clone, Copy, PartialEq, Eq, Structural)]
pub enum Key {
    Escape,
    Enter,
    Space,
    Backspace,
    Digit1,
    Digit2,
    Digit4,
    Up,
    Down,
    Left,
    Right,
    B,
    C,
    F,
    G,
    H,
    I,
    J,
    K,
    L,
    N,
    O,
    P,
    R,
    T,
    V,
    X,
    Y,
    Z,
    F1,
    F2,
    F3,
    F4,
    F5,
    F6,
    F7,
    F8,
    F9,
    F10,
    F11,
    F12,
}

/// The showcase after `d` in the order of `DeviceId::ALL`, wrapping round.
pub open spec fn next_showcase(d: DeviceId) -> DeviceId {
    match d {
        DeviceId::Channel => DeviceId::Pipe,
        DeviceId::Pipe => DeviceId::Pump,
        DeviceId::Pump => DeviceId::Floodgate,
        DeviceId::Floodgate => DeviceId::Reservoir,
        DeviceId::Reservoir => DeviceId::Spillway,
        DeviceId::Spillway => DeviceId::FlowTurbine,
        DeviceId::FlowTurbine => DeviceId::Sensor,
        DeviceId::Sensor => DeviceId::Filter,
        DeviceId::Filter => DeviceId::RuneRelay,
        DeviceId::RuneRelay => DeviceId::Channel,
    }
}

/// Space toggles between paused and normal speed; any faster speed pauses.
pub open spec fn toggled_time(t: TimeControl) -> TimeControl {
    match t {
        TimeControl::Paused => TimeControl::OneX,
        _ => TimeControl::Paused,
    }
}

/// The action a key asks for in the operation's shortcuts, outside the briefing
/// and the pause menu.
pub open spec fn shortcut_spec(g: Game, key: Key) -> Option<UiAction> {
    let verifying = g.verification_mode is Some;
    match key {
        Key::Escape => Some(UiAction::TogglePause),
        Key::Space => Some(UiAction::SetTime(toggled_time(g.session.time_control))),
        Key::Digit1 => Some(UiAction::SetTime(TimeControl::OneX)),
        Key::Digit2 => Some(UiAction::SetTime(TimeControl::TwoX)),
        Key::Digit4 => Some(UiAction::SetTime(TimeControl::FourX)),
        Key::Up => Some(UiAction::MoveSelection(0i16, -1i16)),
        Key::Down => Some(UiAction::MoveSelection(0i16, 1i16)),
        Key::Left => Some(UiAction::MoveSelection(-1i16, 0i16)),
        Key::Right => Some(UiAction::MoveSelection(1i16, 0i16)),
        Key::X => Some(UiAction::Terrain(TerrainAction::Excavate)),
        Key::R => Some(UiAction::Terrain(TerrainAction::Raise)),
        Key::T => Some(UiAction::Terrain(TerrainAction::Seal)),
        Key::I => Some(UiAction::Inspect),
        Key::L => Some(UiAction::Inject(FluidId::Lava)),
        Key::G => Some(UiAction::Inject(FluidId::ToxicSlurry)),
        Key::Y => Some(UiAction::CycleOverlay),
        Key::F1 => Some(UiAction::ToggleLab),
        Key::F2 => Some(
            if verifying {
                UiAction::RestoreCampaign
            } else {
                UiAction::EnterShowcase(DeviceId::Channel)
            },
        ),
        Key::V => match g.verification_mode {
            Some(VerificationMode::Showcase(current)) => Some(UiAction::EnterShowcase(next_showcase(current))),
            _ => None,
        },
        Key::F3 => None,
        Key::N => Some(UiAction::NextCampaign),
        Key::F4 => Some(UiAction::SkipTutorial),
        Key::C => Some(UiAction::RemoveSelectedDevice),
        Key::B => Some(UiAction::QueueDevice(DeviceId::Channel)),
        Key::P => Some(UiAction::QueueDevice(DeviceId::Pipe)),
        Key::O => Some(UiAction::QueueDevice(DeviceId::Pump)),
        Key::F => Some(UiAction::QueueDevice(DeviceId::Floodgate)),
        Key::Z => Some(UiAction::RotatePlacement),
        Key::J => Some(UiAction::SetGate(0u16)),
        Key::K => Some(UiAction::SetGate(5_000u16)),
        Key::H => Some(UiAction::SetGate(10_000u16)),
        Key::Enter => Some(
            if g.session.simulation.devices.queued@.len() == 0 {
                UiAction::DismissPrompt
            } else {
                UiAction::CommitPlan
            },
        ),
        Key::Backspace => Some(UiAction::CancelPlan),
        Key::F5 => Some(UiAction::Save),
        Key::F9 => Some(UiAction::Load),
        Key::F6 => Some(
            if verifying {
                UiAction::ResetVerification
            } else {
                UiAction::Checkpoint
            },
        ),
        Key::F7 => Some(UiAction::FailMission),
        Key::F8 => Some(
            if verifying {
                UiAction::StepVerification
            } else {
                UiAction::RunShowcaseReport
            },
        ),
        Key::F10 => Some(UiAction::ReloadMission),
        Key::F11 => Some(UiAction::RunScenarioReport),
        Key::F12 => Some(UiAction::ResetMission),
    }
}

/// The action a pressed key asks for while an operation is in play: in the
/// briefing only Enter, which begins the mission; Escape toggles the pause menu;
/// while it is open only reset (F12), save (F5) and load (F9); otherwise the
/// shortcuts (see `shortcut_spec`). Outside play the title screens read keys as
/// menu choices, and no action is asked for here.
pub open spec fn key_action_spec(g: Game, key: Key) -> Option<UiAction> {
    if g.frontend_mode != FrontendMode::Playing {
        None
    } else if g.session.mission.phase == MissionPhase::Briefing {
        if key == Key::Enter {
            Some(UiAction::BeginMission)
        } else {
            None
        }
    } else if key == Key::Escape {
        Some(UiAction::TogglePause)
    } else if g.pause_menu {
        match key {
            Key::F12 => Some(UiAction::ResetMission),
            Key::F5 => Some(UiAction::Save),
            Key::F9 => Some(UiAction::Load),
            _ => None,
        }
    } else {
        shortcut_spec(g, key)
    }
}

/// The showcase after `d` (see `next_showcase`).
fn showcase_after(d: DeviceId) -> (n: DeviceId)
    ensures
        n == next_showcase(d),
{
    match d {
        DeviceId::Channel => DeviceId::Pipe,
        DeviceId::Pipe => DeviceId::Pump,
        DeviceId::Pump => DeviceId::Floodgate,
        DeviceId::Floodgate => DeviceId::Reservoir,
        DeviceId::Reservoir => DeviceId::Spillway,
        DeviceId::Spillway => DeviceId::FlowTurbine,
        DeviceId::FlowTurbine => DeviceId::Sensor,
        DeviceId::Sensor => DeviceId::Filter,
        DeviceId::Filter => DeviceId::RuneRelay,
        DeviceId::RuneRelay => DeviceId::Channel,
    }
}

/// The action a shortcut key asks for (see `shortcut_spec`).
fn shortcut(game: &Game, key: Key) -> (action: Option<UiAction>)
    ensures
        action == shortcut_spec(*game, key),
{
    let verifying = game.verification_mode.is_some();
    match key {
        Key::Escape => Some(UiAction::TogglePause),
        Key::Space => Some(
            UiAction::SetTime(
                match game.session.time_control {
                    TimeControl::Paused => TimeControl::OneX,
                    _ => TimeControl::Paused,
                },
            ),
        ),
        Key::Digit1 => Some(UiAction::SetTime(TimeControl::OneX)),
        Key::Digit2 => Some(UiAction::SetTime(TimeControl::TwoX)),
        Key::Digit4 => Some(UiAction::SetTime(TimeControl::FourX)),
        Key::Up => Some(UiAction::MoveSelection(0, -1)),
        Key::Down => Some(UiAction::MoveSelection(0, 1)),
        Key::Left => Some(UiAction::MoveSelection(-1, 0)),
        Key::Right => Some(UiAction::MoveSelection(1, 0)),
        Key::X => Some(UiAction::Terrain(TerrainAction::Excavate)),
        Key::R => Some(UiAction::Terrain(TerrainAction::Raise)),
        Key::T => Some(UiAction::Terrain(TerrainAction::Seal)),
        Key::I => Some(UiAction::Inspect),
        Key::L => Some(UiAction::Inject(FluidId::Lava)),
        Key::G => Some(UiAction::Inject(FluidId::ToxicSlurry)),
        Key::Y => Some(UiAction::CycleOverlay),
        Key::F1 => Some(UiAction::ToggleLab),
        Key::F2 => Some(
            if verifying {
                UiAction::RestoreCampaign
            } else {
                UiAction::EnterShowcase(DeviceId::Channel)
            },
        ),
        Key::V => match game.verification_mode {
            Some(VerificationMode::Showcase(current)) => Some(UiAction::EnterShowcase(showcase_after(current))),
            _ => None,
        },
        Key::F3 => None,
        Key::N => Some(UiAction::NextCampaign),
        Key::F4 => Some(UiAction::SkipTutorial),
        Key::C => Some(UiAction::RemoveSelectedDevice),
        Key::B => Some(UiAction::QueueDevice(DeviceId::Channel)),
        Key::P => Some(UiAction::QueueDevice(DeviceId::Pipe)),
        Key::O => Some(UiAction::QueueDevice(DeviceId::Pump)),
        Key::F => Some(UiAction::QueueDevice(DeviceId::Floodgate)),
        Key::Z => Some(UiAction::RotatePlacement),
        Key::J => Some(UiAction::SetGate(0)),
        Key::K => Some(UiAction::SetGate(5_000)),
        Key::H => Some(UiAction::SetGate(10_000)),
        Key::Enter => Some(
            if game.session.simulation.devices.queued.len() == 0 {
                UiAction::DismissPrompt
            } else {
                UiAction::CommitPlan
            },
        ),
        Key::Backspace => Some(UiAction::CancelPlan),
        Key::F5 => Some(UiAction::Save),
        Key::F9 => Some(UiAction::Load),
        Key::F6 => Some(
            if verifying {
                UiAction::ResetVerification
            } else {
                UiAction::Checkpoint
            },
        ),
        Key::F7 => Some(UiAction::FailMission),
        Key::F8 => Some(
            if verifying {
                UiAction::StepVerification
            } else {
                UiAction::RunShowcaseReport
            },
        ),
        Key::F10 => Some(UiAction::ReloadMission),
        Key::F11 => Some(UiAction::RunScenarioReport),
        Key::F12 => Some(UiAction::ResetMission),
    }
}

/// The action a pressed key asks for while an operation is in play (see
/// `key_action_spec`).
pub fn key_action(game: &Game, key: Key) -> (action: Option<UiAction>)
    ensures
        action == key_action_spec(*game, key),
{
    if game.frontend_mode != FrontendMode::Playing {
        None
    } else if game.session.mission.phase == MissionPhase::Briefing {
        if key == Key::Enter {
            Some(UiAction::BeginMission)
        } else {
            None
        }
    } else if key == Key::Escape {
        Some(UiAction::TogglePause)
    } else if game.pause_menu {
        match key {
            Key::F12 => Some(UiAction::ResetMission),
            Key::F5 => Some(UiAction::Save),
            Key::F9 => Some(UiAction::Load),
            _ => None,
        }
    } else {
        shortcut(game, key)
    }
}

} // verus!
