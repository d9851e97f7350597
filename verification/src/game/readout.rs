//! The engineering readout of the selected cell: map size, mission objective and
//! status, alert, tutorial step, surface depth and heat, ground contamination, and
//! the device and deposit there.

use vstd::prelude::*;

use crate::campaign::campaign_record;
use crate::content::{first_mission, ContentRegistry, MissionRecord};
use crate::devices::{DeviceId, DeviceState};
use crate::economy::ResourceDeposit;
use crate::mission::state::lemma_first_mission_unique;
use crate::mission::MissionId;
use crate::replay::{kind_active, kind_power, kind_stored, power_of, stored_of, relay_is_active};
use crate::simulation::entries::seq_volume;
use crate::state::{lemma_grid_index_bound, CellPos, GameSession};
use crate::text::{chars_of, decimal, push_decimal};

verus! {

/// The mission's content record, where the content has one.
pub open spec fn record_of(content: ContentRegistry, id: MissionId) -> Option<MissionRecord> {
    if exists|i: int| first_mission(content.missions@, id.content_id_spec(), i) {
        Some(campaign_record(content, id))
    } else {
        None
    }
}

/// The objective's name in the readout.
pub open spec fn objective_label(id: MissionId) -> Seq<char> {
    match id {
        MissionId::L01FirstFlow => "Dam"@,
        MissionId::L02HoldingLine => "Trench"@,
        MissionId::L03Firebreak => "Firebreak"@,
    }
}

/// The objective status: progress against the record's range, or progress alone.
pub open spec fn primary_status(s: GameSession, content: ContentRegistry) -> Seq<char> {
    let progress = s.mission.objective_progress as nat;
    match record_of(content, s.mission.id) {
        Some(r) => objective_label(s.mission.id) + " "@ + decimal(progress) + " / "@ + decimal(r.objective_min_vu as nat) + if r.objective_min_vu
            == r.objective_max_vu {
            " vU"@
        } else {
            "-"@ + decimal(r.objective_max_vu as nat)
        },
        None => "Progress "@ + decimal(progress),
    }
}

/// The mission's second status: stability for the first mission, reserve and
/// surge for the second, turbine power and relay for the third.
pub open spec fn secondary_status(s: GameSession, content: ContentRegistry) -> Seq<char> {
    let devices = s.simulation.devices.devices@;
    match s.mission.id {
        MissionId::L01FirstFlow => "Stable "@ + decimal(s.mission.stability_ticks as nat) + " / 100 ticks"@,
        MissionId::L02HoldingLine => {
            let surge_end = match record_of(content, s.mission.id) {
                Some(r) => match r.surge_end_tick {
                    Some(t) => t,
                    None => s.mission.tick,
                },
                None => s.mission.tick,
            };
            let shown = if s.mission.tick <= surge_end { s.mission.tick } else { surge_end };
            "Reserve "@ + decimal(kind_stored(devices, DeviceId::Reservoir) as nat) + "/2000 | Surge "@ + decimal(shown as nat) + "/"@
                + decimal(surge_end as nat)
        },
        MissionId::L03Firebreak => "Power "@ + decimal(kind_power(devices, DeviceId::FlowTurbine) as nat) + "/40 | Relay "@ + if kind_active(
            devices,
            DeviceId::RuneRelay,
        ) {
            "ACTIVE"@
        } else {
            "OFF"@
        },
    }
}

/// A tutorial step without its first-mission prefix.
pub open spec fn step_label(step: Seq<char>) -> Seq<char> {
    if step.len() >= 13 && step.subrange(0, 13) == "tutorial_l01_"@ {
        step.subrange(13, step.len() as int)
    } else {
        step
    }
}

/// An integer in decimal, with a minus sign when negative.
pub open spec fn int_text(v: int) -> Seq<char> {
    if v < 0 {
        "-"@ + decimal((-v) as nat)
    } else {
        decimal(v as nat)
    }
}

/// A device's status line.
pub open spec fn device_status(d: DeviceState) -> Seq<char> {
    let state = if d.active { "ACTIVE"@ } else { "IDLE"@ };
    match d.device {
        DeviceId::Reservoir => "RES "@ + decimal(d.stored_vu as nat) + "vU HOLD "@ + decimal((d.setting_bp / 100) as nat) + "% "@ + state,
        DeviceId::FlowTurbine => "TURBINE "@ + decimal(d.cumulative_power as nat) + " power "@ + state,
        DeviceId::RuneRelay => "RELAY PWR "@ + (if d.powered { "YES"@ } else { "NO"@ }) + " FLOW "@ + decimal(d.stored_vu as nat) + "vU "@ + state,
        _ => d.device.name_spec() + " "@ + decimal((d.setting_bp / 100) as nat) + "% "@ + state,
    }
}

/// The first device anchored at `pos` is at index `i`.
pub open spec fn first_device_at(devices: Seq<DeviceState>, pos: CellPos, i: int) -> bool {
    &&& 0 <= i < devices.len()
    &&& devices[i].anchor == pos
    &&& forall|j: int| 0 <= j < i ==> (#[trigger] devices[j]).anchor != pos
}

/// The first deposit at `pos` is at index `i`.
pub open spec fn first_deposit_at(deposits: Seq<ResourceDeposit>, pos: CellPos, i: int) -> bool {
    &&& 0 <= i < deposits.len()
    &&& deposits[i].position == pos
    &&& forall|j: int| 0 <= j < i ==> (#[trigger] deposits[j]).position != pos
}

/// The line of the first device at `pos`, or "Device none".
pub open spec fn device_line(devices: Seq<DeviceState>, pos: CellPos) -> Seq<char> {
    if exists|i: int| first_device_at(devices, pos, i) {
        device_status(devices[choose|i: int| first_device_at(devices, pos, i)])
    } else {
        "Device none"@
    }
}

/// A deposit's line: its id and its yield, or that it is depleted.
pub open spec fn deposit_status(d: ResourceDeposit) -> Seq<char> {
    "Deposit "@ + d.id@ + " "@ + if d.depleted {
        "DEPLETED"@
    } else {
        decimal(d.yield_fu as nat) + " fabU AVAILABLE"@
    }
}

/// The line of the first deposit at `pos`, or "Deposit none".
pub open spec fn deposit_line(deposits: Seq<ResourceDeposit>, pos: CellPos) -> Seq<char> {
    if exists|i: int| first_deposit_at(deposits, pos, i) {
        deposit_status(deposits[choose|i: int| first_deposit_at(deposits, pos, i)])
    } else {
        "Deposit none"@
    }
}

/// Line `k` of the readout of the selected cell, at index `i` of the world.
pub open spec fn readout_line(s: GameSession, content: ContentRegistry, i: int, k: int) -> Seq<char> {
    let w = s.simulation;
    let cell = w.cells@[i];
    let target = match record_of(content, s.mission.id) {
        Some(r) => r.stability_ticks,
        None => 0,
    };
    let heat: int = if cell.surface@.len() > 0 { cell.surface@[0].temperature_dk as int } else { w.definitions@[i].ambient_temperature_dk as int };
    if k == 0 {
        "Map "@ + decimal(w.width as nat) + "×"@ + decimal(w.height as nat)
    } else if k == 1 {
        primary_status(s, content) + "  STAB "@ + decimal(s.mission.stability_ticks as nat) + "/"@ + decimal(target as nat)
    } else if k == 2 {
        secondary_status(s, content)
    } else if k == 3 {
        "ALERT "@ + s.mission.alert_level.name_spec()
    } else if k == 4 {
        "Tutorial "@ + match s.mission.tutorial {
            Some(t) => step_label(t.current_step_id@),
            None => "none"@,
        }
    } else if k == 5 {
        "Depth "@ + decimal(seq_volume(cell.surface@)) + " vU  Heat "@ + int_text(heat) + " dK"@
    } else if k == 6 {
        "Ground "@ + decimal(cell.ground_contamination_bp as nat) + " bp"@
    } else if k == 7 {
        device_line(w.devices.devices@, s.selected)
    } else {
        deposit_line(w.deposits@, s.selected)
    }
}

/// Append `v` in decimal, with a minus sign when negative (see `int_text`).
fn push_int(text: &mut String, v: i32)
    ensures
        final(text)@ == old(text)@ + int_text(v as int),
{
    if v < 0 {
        text.append("-");
        let ghost mid = text@;
        let magnitude: u64 = (-(v as i64)) as u64;
        push_decimal(text, magnitude);
        proof {
            assert(text@ =~= old(text)@ + int_text(v as int));
        }
    } else {
        push_decimal(text, v as u64);
    }
}

/// The record of mission `id`, where the content has one (see `record_of`).
fn record_for(content: &ContentRegistry, id: MissionId) -> (found: Option<&MissionRecord>)
    ensures
        match found {
            Some(r) => record_of(*content, id) == Some(*r),
            None => record_of(*content, id) is None,
        },
{
    match content.mission(id.content_id()) {
        Some(record) => {
            proof {
                let i = choose|i: int| first_mission(content.missions@, id.content_id_spec(), i) && *record == content.missions@[i];
                let k = choose|k: int| first_mission(content.missions@, id.content_id_spec(), k);
                lemma_first_mission_unique(content.missions@, id.content_id_spec(), i, k);
            }
            Some(record)
        },
        None => {
            proof {
                if exists|i: int| first_mission(content.missions@, id.content_id_spec(), i) {
                    let i = choose|i: int| first_mission(content.missions@, id.content_id_spec(), i);
                    assert(content.missions@[i].id@ == id.content_id_spec());
                }
            }
            None
        },
    }
}

/// The objective status (see `primary_status`).
fn primary_text(session: &GameSession, content: &ContentRegistry) -> (text: String)
    ensures
        text@ == primary_status(*session, *content),
{
    let mut text = String::new();
    match record_for(content, session.mission.id) {
        Some(r) => {
            let label = match session.mission.id {
                MissionId::L01FirstFlow => "Dam",
                MissionId::L02HoldingLine => "Trench",
                MissionId::L03Firebreak => "Firebreak",
            };
            text.append(label);
            text.append(" ");
            push_decimal(&mut text, session.mission.objective_progress as u64);
            text.append(" / ");
            push_decimal(&mut text, r.objective_min_vu as u64);
            if r.objective_min_vu == r.objective_max_vu {
                text.append(" vU");
            } else {
                text.append("-");
                push_decimal(&mut text, r.objective_max_vu as u64);
            }
        },
        None => {
            text.append("Progress ");
            push_decimal(&mut text, session.mission.objective_progress as u64);
        },
    }
    proof {
        assert(text@ =~= primary_status(*session, *content));
    }
    text
}

/// The mission's second status (see `secondary_status`).
fn secondary_text(session: &GameSession, content: &ContentRegistry) -> (text: String)
    ensures
        text@ == secondary_status(*session, *content),
{
    let devices = &session.simulation.devices.devices;
    let mut text = String::new();
    match session.mission.id {
        MissionId::L01FirstFlow => {
            text.append("Stable ");
            push_decimal(&mut text, session.mission.stability_ticks as u64);
            text.append(" / 100 ticks");
        },
        MissionId::L02HoldingLine => {
            let surge_end = match record_for(content, session.mission.id) {
                Some(r) => match r.surge_end_tick {
                    Some(t) => t,
                    None => session.mission.tick,
                },
                None => session.mission.tick,
            };
            let shown = if session.mission.tick <= surge_end { session.mission.tick } else { surge_end };
            text.append("Reserve ");
            push_decimal(&mut text, stored_of(devices, DeviceId::Reservoir) as u64);
            text.append("/2000 | Surge ");
            push_decimal(&mut text, shown);
            text.append("/");
            push_decimal(&mut text, surge_end);
        },
        MissionId::L03Firebreak => {
            text.append("Power ");
            push_decimal(&mut text, power_of(devices, DeviceId::FlowTurbine));
            text.append("/40 | Relay ");
            if relay_is_active(devices) {
                text.append("ACTIVE");
            } else {
                text.append("OFF");
            }
        },
    }
    proof {
        assert(text@ =~= secondary_status(*session, *content));
    }
    text
}

/// A device's status line (see `device_status`).
fn device_text(d: &DeviceState) -> (text: String)
    ensures
        text@ == device_status(*d),
{
    let state = if d.active { "ACTIVE" } else { "IDLE" };
    let mut text = String::new();
    match d.device {
        DeviceId::Reservoir => {
            text.append("RES ");
            push_decimal(&mut text, d.stored_vu as u64);
            text.append("vU HOLD ");
            push_decimal(&mut text, (d.setting_bp / 100) as u64);
            text.append("% ");
            text.append(state);
        },
        DeviceId::FlowTurbine => {
            text.append("TURBINE ");
            push_decimal(&mut text, d.cumulative_power);
            text.append(" power ");
            text.append(state);
        },
        DeviceId::RuneRelay => {
            text.append("RELAY PWR ");
            text.append(if d.powered { "YES" } else { "NO" });
            text.append(" FLOW ");
            push_decimal(&mut text, d.stored_vu as u64);
            text.append("vU ");
            text.append(state);
        },
        _ => {
            text.append(d.device.name());
            text.append(" ");
            push_decimal(&mut text, (d.setting_bp / 100) as u64);
            text.append("% ");
            text.append(state);
        },
    }
    proof {
        assert(text@ =~= device_status(*d));
    }
    text
}

/// The line of the first device at `pos` (see `device_line`).
fn device_line_text(devices: &Vec<DeviceState>, pos: CellPos) -> (text: String)
    ensures
        text@ == device_line(devices@, pos),
{
    let mut i: usize = 0;
    while i < devices.len()
        invariant
            i <= devices@.len(),
            forall|j: int| 0 <= j < i ==> (#[trigger] devices@[j]).anchor != pos,
        decreases devices@.len() - i,
    {
        if devices[i].anchor == pos {
            proof {
                assert(first_device_at(devices@, pos, i as int));
                let k = choose|k: int| first_device_at(devices@, pos, k);
                if k < i {
                    assert(devices@[k].anchor != pos);
                } else if k > i {
                    assert(devices@[i as int].anchor != pos);
                }
            }
            return device_text(&devices[i]);
        }
        i = i + 1;
    }
    let text = "Device none".to_owned();
    proof {
        if exists|k: int| first_device_at(devices@, pos, k) {
            let k = choose|k: int| first_device_at(devices@, pos, k);
            assert(devices@[k].anchor != pos);
        }
    }
    text
}

/// The line of the first deposit at `pos` (see `deposit_line`).
fn deposit_line_text(deposits: &Vec<ResourceDeposit>, pos: CellPos) -> (text: String)
    ensures
        text@ == deposit_line(deposits@, pos),
{
    let mut i: usize = 0;
    while i < deposits.len()
        invariant
            i <= deposits@.len(),
            forall|j: int| 0 <= j < i ==> (#[trigger] deposits@[j]).position != pos,
        decreases deposits@.len() - i,
    {
        if deposits[i].position == pos {
            proof {
                assert(first_deposit_at(deposits@, pos, i as int));
                let k = choose|k: int| first_deposit_at(deposits@, pos, k);
                if k < i {
                    assert(deposits@[k].position != pos);
                } else if k > i {
                    assert(deposits@[i as int].position != pos);
                }
            }
            let d = &deposits[i];
            let mut text = "Deposit ".to_owned();
            text.append(d.id.as_str());
            text.append(" ");
            if d.depleted {
                text.append("DEPLETED");
            } else {
                push_decimal(&mut text, d.yield_fu as u64);
                text.append(" fabU AVAILABLE");
            }
            proof {
                assert(text@ =~= deposit_status(deposits@[i as int]));
            }
            return text;
        }
        i = i + 1;
    }
    let text = "Deposit none".to_owned();
    proof {
        if exists|k: int| first_deposit_at(deposits@, pos, k) {
            let k = choose|k: int| first_deposit_at(deposits@, pos, k);
            assert(deposits@[k].position != pos);
        }
    }
    text
}

/// The tutorial line: "Tutorial " and the current step without its first-mission
/// prefix, or "none".
fn tutorial_chars(session: &GameSession) -> (line: Vec<char>)
    ensures
        line@ == "Tutorial "@ + match session.mission.tutorial {
            Some(t) => step_label(t.current_step_id@),
            None => "none"@,
        },
{
    let mut line = chars_of("Tutorial ");
    let ghost head = line@;
    let rest = match &session.mission.tutorial {
        Some(t) => {
            let step = chars_of(t.current_step_id.as_str());
            let prefix = chars_of("tutorial_l01_");
            proof {
                reveal_strlit("tutorial_l01_");
            }
            let mut matches = step.len() >= 13;
            let mut q: usize = 0;
            while q < 13 && matches
                invariant
                    q <= 13,
                    prefix@ == "tutorial_l01_"@,
                    prefix@.len() == 13,
                    matches ==> step@.len() >= 13 && forall|j: int| 0 <= j < q ==> step@[j] == prefix@[j],
                    !matches ==> !(step@.len() >= 13 && step@.subrange(0, 13) == "tutorial_l01_"@),
                decreases 13 - q,
            {
                if step[q] != prefix[q] {
                    matches = false;
                    proof {
                        if step@.len() >= 13 && step@.subrange(0, 13) == "tutorial_l01_"@ {
                            assert(step@.subrange(0, 13)[q as int] == step@[q as int]);
                        }
                    }
                }
                q = q + 1;
            }
            let start: usize = if matches { 13 } else { 0 };
            proof {
                if matches {
                    assert(step@.subrange(0, 13) =~= "tutorial_l01_"@);
                }
            }
            let mut out: Vec<char> = Vec::new();
            let mut k: usize = start;
            while k < step.len()
                invariant
                    start <= k <= step@.len(),
                    out@ == step@.subrange(start as int, k as int),
                decreases step@.len() - k,
            {
                out.push(step[k]);
                proof {
                    assert(step@.subrange(start as int, k as int + 1) =~= step@.subrange(start as int, k as int).push(step@[k as int]));
                }
                k = k + 1;
            }
            proof {
                if !matches {
                    assert(step@.subrange(0, step@.len() as int) =~= step@);
                }
                assert(out@ == step_label(t.current_step_id@));
            }
            out
        },
        None => chars_of("none"),
    };
    let mut k: usize = 0;
    while k < rest.len()
        invariant
            k <= rest@.len(),
            line@ == head + rest@.subrange(0, k as int),
        decreases rest@.len() - k,
    {
        line.push(rest[k]);
        proof {
            assert(rest@.subrange(0, k as int + 1) =~= rest@.subrange(0, k as int).push(rest@[k as int]));
        }
        k = k + 1;
    }
    proof {
        assert(rest@.subrange(0, rest@.len() as int) =~= rest@);
    }
    line
}

/// The engineering readout of the selected cell, each line as its characters:
/// nothing when the selection lies off the map, else nine lines (see
/// `readout_line`).
pub fn selection_readout(session: &GameSession, content: &ContentRegistry) -> (lines: Vec<Vec<char>>)
    requires
        session.simulation.wf(),
    ensures
        session.simulation.index_of(session.selected) is None ==> lines@.len() == 0,
        session.simulation.index_of(session.selected) matches Some(i) ==> {
            &&& lines@.len() == 9
            &&& forall|k: int| 0 <= k < 9 ==> (#[trigger] lines@[k])@ == readout_line(*session, *content, i as int, k)
        },
{
    let w = &session.simulation;
    let index = match w.index(session.selected) {
        Some(i) => i,
        None => return Vec::new(),
    };
    proof {
        lemma_grid_index_bound(w.width, w.height, session.selected);
        assert(w.cells@[index as int].wf());
    }
    let cell = &w.cells[index];
    let heat: i32 = if cell.surface.len() > 0 { cell.surface[0].temperature_dk } else { w.definitions[index].ambient_temperature_dk };
    let mut lines: Vec<Vec<char>> = Vec::new();

    let mut map = "Map ".to_owned();
    push_decimal(&mut map, w.width as u64);
    map.append("×");
    push_decimal(&mut map, w.height as u64);
    lines.push(chars_of(map.as_str()));

    let target: u32 = match record_for(content, session.mission.id) {
        Some(r) => r.stability_ticks,
        None => 0,
    };
    let mut objective = primary_text(session, content);
    objective.append("  STAB ");
    push_decimal(&mut objective, session.mission.stability_ticks as u64);
    objective.append("/");
    push_decimal(&mut objective, target as u64);
    lines.push(chars_of(objective.as_str()));

    let secondary = secondary_text(session, content);
    lines.push(chars_of(secondary.as_str()));

    let mut alert = "ALERT ".to_owned();
    alert.append(session.mission.alert_level.name());
    lines.push(chars_of(alert.as_str()));

    lines.push(tutorial_chars(session));

    let mut depth = "Depth ".to_owned();
    push_decimal(&mut depth, cell.surface_volume() as u64);
    depth.append(" vU  Heat ");
    push_int(&mut depth, heat);
    depth.append(" dK");
    lines.push(chars_of(depth.as_str()));

    let mut ground = "Ground ".to_owned();
    push_decimal(&mut ground, cell.ground_contamination_bp as u64);
    ground.append(" bp");
    lines.push(chars_of(ground.as_str()));

    let device = device_line_text(&w.devices.devices, session.selected);
    lines.push(chars_of(device.as_str()));

    let deposit = deposit_line_text(&w.deposits, session.selected);
    lines.push(chars_of(deposit.as_str()));

    proof {
        assert(lines@[0]@ =~= readout_line(*session, *content, index as int, 0));
        assert(lines@[1]@ =~= readout_line(*session, *content, index as int, 1));
        assert(lines@[2]@ =~= readout_line(*session, *content, index as int, 2));
        assert(lines@[3]@ =~= readout_line(*session, *content, index as int, 3));
        assert(lines@[4]@ =~= readout_line(*session, *content, index as int, 4));
        assert(lines@[5]@ =~= readout_line(*session, *content, index as int, 5));
        assert(lines@[6]@ =~= readout_line(*session, *content, index as int, 6));
        assert(lines@[7]@ =~= readout_line(*session, *content, index as int, 7));
        assert(lines@[8]@ =~= readout_line(*session, *content, index as int, 8));
    }
    lines
}

/// The engineering readout of the selected cell on a verification map named
/// `label`: the map size, "{label} tick {tick}" in place of the objective, and
/// then the readout's alert, tutorial, cell, device and deposit lines (the
/// secondary objective is left out); nothing when the selection is off the map.
pub fn verification_readout(session: &GameSession, content: &ContentRegistry, label: &str) -> (lines: Vec<Vec<char>>)
    requires
        session.simulation.wf(),
    ensures
        session.simulation.index_of(session.selected) is None ==> lines@.len() == 0,
        session.simulation.index_of(session.selected) matches Some(i) ==> {
            &&& lines@.len() == 8
            &&& lines@[0]@ == readout_line(*session, *content, i as int, 0)
            &&& lines@[1]@ == label@ + " tick "@ + decimal(session.simulation.tick as nat)
            &&& forall|k: int| 2 <= k < 8 ==> (#[trigger] lines@[k])@ == readout_line(*session, *content, i as int, k + 1)
        },
{
    let mut lines = selection_readout(session, content);
    if lines.len() == 0 {
        return lines;
    }
    let ghost full = lines@;
    let mut heading = label.to_owned();
    heading.append(" tick ");
    push_decimal(&mut heading, session.simulation.tick);
    lines.set(1, chars_of(heading.as_str()));
    lines.remove(2);
    proof {
        assert forall|k: int| 2 <= k < 8 implies (#[trigger] lines@[k])@ == full[k + 1]@ by {
        }
    }
    lines
}

} // verus!
