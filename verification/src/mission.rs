//! Mission lifecycle, campaign progression and event-driven tutorial state.

use vstd::prelude::*;

use crate::devices::DeviceId;
use crate::text::same_text;

pub mod state;
pub mod progress;


verus! {

/// The three campaign missions.
#[derive(Debug, Clone, Copy, PartialEq, Eq, Structural)]
pub enum MissionId {
    L01FirstFlow,
    L02HoldingLine,
    L03Firebreak,
}

impl MissionId {
    pub const ALL: [MissionId; 3] = [MissionId::L01FirstFlow, MissionId::L02HoldingLine, MissionId::L03Firebreak];

    pub open spec fn sequence_spec(self) -> usize {
        match self {
            MissionId::L01FirstFlow => 1,
            MissionId::L02HoldingLine => 2,
            MissionId::L03Firebreak => 3,
        }
    }

    /// Position of the mission in the campaign, from 1.
    #[verifier::when_used_as_spec(sequence_spec)]
    pub fn sequence(self) -> (s: usize)
        ensures
            s == self.sequence_spec(),
    {
        match self {
            MissionId::L01FirstFlow => 1,
            MissionId::L02HoldingLine => 2,
            MissionId::L03Firebreak => 3,
        }
    }

    pub open spec fn content_id_spec(self) -> Seq<char> {
        match self {
            MissionId::L01FirstFlow => "campaign_l01_first_flow"@,
            MissionId::L02HoldingLine => "campaign_l02_holding_line"@,
            MissionId::L03Firebreak => "campaign_l03_firebreak"@,
        }
    }

    /// Identifier of the mission's content record.
    pub fn content_id(self) -> (id: &'static str)
        ensures
            id@ == self.content_id_spec(),
    {
        match self {
            MissionId::L01FirstFlow => "campaign_l01_first_flow",
            MissionId::L02HoldingLine => "campaign_l02_holding_line",
            MissionId::L03Firebreak => "campaign_l03_firebreak",
        }
    }
}

/// Where a mission stands in its lifecycle.
#[derive(Debug, Clone, Copy, PartialEq, Eq, Structural)]
pub enum MissionPhase {
    Briefing,
    Active,
    Success,
    Failure,
    Debrief,
}

/// Escalating hazard alert levels.
#[derive(Debug, Clone, Copy, PartialEq, Eq, Structural, PartialOrd, Ord, Hash)]
pub enum AlertLevel {
    Clear,
    Advisory,
    Warning,
    Critical,
}

impl AlertLevel {
    /// Severity, from 0 for clear to 3 for critical.
    pub open spec fn severity(self) -> int {
        match self {
            AlertLevel::Clear => 0,
            AlertLevel::Advisory => 1,
            AlertLevel::Warning => 2,
            AlertLevel::Critical => 3,
        }
    }

    pub open spec fn name_spec(self) -> Seq<char> {
        match self {
            AlertLevel::Clear => "CLEAR"@,
            AlertLevel::Advisory => "ADVISORY"@,
            AlertLevel::Warning => "WARNING"@,
            AlertLevel::Critical => "CRITICAL"@,
        }
    }

    /// The level as shown to the player.
    pub fn name(self) -> (n: &'static str)
        ensures
            n@ == self.name_spec(),
    {
        match self {
            AlertLevel::Clear => "CLEAR",
            AlertLevel::Advisory => "ADVISORY",
            AlertLevel::Warning => "WARNING",
            AlertLevel::Critical => "CRITICAL",
        }
    }
}

/// The player commands a mission admits or refuses.
#[derive(Debug, Clone, Copy, PartialEq, Eq, Structural)]
pub enum CommandKind {
    Camera,
    Select,
    Inspect,
    SetPaused,
    SelectTerrain,
    QueueExcavate,
    QueueDevice(DeviceId),
    CommitPlan,
    RecoverDeposit,
    ToggleDevice,
    SetTimeRunning,
    SetGate(u16),
    DismissPrompt,
    SkipTutorial,
}

/// The answer to a command.
#[derive(Debug, Clone, Copy, PartialEq, Eq, Structural)]
pub enum Admission {
    Accepted,
    TutorialLocked,
    MissionNotActive,
    AlreadyComplete,
}

/// Progress through the first mission's tutorial. `steps` lists the tutorial's
/// step identifiers in order, as authored in the content registry.
#[derive(Debug, Clone)]
pub struct TutorialState {
    pub tutorial_id: String,
    pub current_step_id: String,
    pub completed_step_ids: Vec<String>,
    pub hint_level: u8,
    pub ticks_in_step: u32,
    pub dismissed_prompt: bool,
    pub skip_confirmed: bool,
    pub actions_in_step: u8,
    pub steps: Vec<String>,
}

/// A tutorial state with its texts read as character sequences.
pub struct TutorialView {
    pub tutorial_id: Seq<char>,
    pub current: Seq<char>,
    pub completed: Seq<Seq<char>>,
    pub hint_level: u8,
    pub ticks_in_step: u32,
    pub dismissed_prompt: bool,
    pub skip_confirmed: bool,
    pub actions_in_step: u8,
    pub steps: Seq<Seq<char>>,
}

/// The characters of each text.
pub open spec fn texts(v: Seq<String>) -> Seq<Seq<char>> {
    v.map_values(|s: String| s@)
}

impl View for TutorialState {
    type V = TutorialView;

    open spec fn view(&self) -> TutorialView {
        TutorialView {
            tutorial_id: self.tutorial_id@,
            current: self.current_step_id@,
            completed: texts(self.completed_step_ids@),
            hint_level: self.hint_level,
            ticks_in_step: self.ticks_in_step,
            dismissed_prompt: self.dismissed_prompt,
            skip_confirmed: self.skip_confirmed,
            actions_in_step: self.actions_in_step,
            steps: texts(self.steps@),
        }
    }
}

/// The step a finished tutorial rests on.
pub open spec fn finished_step() -> Seq<char> {
    "tutorial_complete"@
}

/// Completing the current step: it joins the completed steps and the next
/// authored step (or the finished marker) becomes current, with fresh counters.
/// A finished tutorial stays as it is.
pub open spec fn complete_spec(t: TutorialView) -> TutorialView {
    if t.current == finished_step() {
        t
    } else {
        let completed = t.completed.push(t.current);
        TutorialView {
            completed,
            current: if completed.len() < t.steps.len() {
                t.steps[completed.len() as int]
            } else {
                finished_step()
            },
            ticks_in_step: 0,
            actions_in_step: 0,
            dismissed_prompt: false,
            ..t
        }
    }
}

/// Skipping: every authored step counts as completed and the tutorial finishes.
pub open spec fn skip_spec(t: TutorialView) -> TutorialView {
    TutorialView { skip_confirmed: true, completed: t.steps, current: finished_step(), ..t }
}

/// The commands a tutorial step lets through.
pub open spec fn allows(step: Seq<char>, command: CommandKind) -> bool {
    if step == "tutorial_l01_welcome"@ {
        command is Camera || command is Select || command is Inspect || command is DismissPrompt
            || command is SkipTutorial
    } else if step == "tutorial_l01_move_camera"@ {
        command is Camera
    } else if step == "tutorial_l01_move_cursor"@ {
        command is Select || command is Camera
    } else if step == "tutorial_l01_inspect_grade"@ {
        command is Inspect || command is DismissPrompt
    } else if step == "tutorial_l01_pause_plan"@ {
        command is SetPaused
    } else if step == "tutorial_l01_raise_first"@ || step == "tutorial_l01_raise_remaining"@ {
        command is SelectTerrain
    } else if step == "tutorial_l01_select_deposit"@ {
        command is Select
    } else if step == "tutorial_l01_recover_deposit"@ {
        command is RecoverDeposit
    } else if step == "tutorial_l01_place_channel"@ {
        command == CommandKind::QueueDevice(DeviceId::Channel) || command is CommitPlan
    } else if step == "tutorial_l01_run_and_observe"@ {
        command is SetTimeRunning || command is Select
    } else if step == "tutorial_l01_beacon_warning"@ {
        command is Inspect
    } else if step == "tutorial_l01_open_gate"@ {
        command == CommandKind::SetGate(10_000)
    } else if step == "tutorial_l01_stabilize"@ {
        command is SetTimeRunning || command is Select
    } else {
        true
    }
}

/// The command that completes a tutorial step, for the steps one command completes.
pub open spec fn completes_on(step: Seq<char>, command: CommandKind) -> bool {
    if step == "tutorial_l01_welcome"@ {
        command is DismissPrompt
    } else if step == "tutorial_l01_move_camera"@ {
        command is Camera
    } else if step == "tutorial_l01_move_cursor"@ {
        command is Select
    } else if step == "tutorial_l01_select_deposit"@ {
        command is Select
    } else if step == "tutorial_l01_recover_deposit"@ {
        command is RecoverDeposit
    } else if step == "tutorial_l01_pause_plan"@ {
        command is SetPaused
    } else if step == "tutorial_l01_raise_first"@ {
        command is SelectTerrain
    } else if step == "tutorial_l01_raise_remaining"@ {
        command is SelectTerrain
    } else if step == "tutorial_l01_place_channel"@ {
        command is CommitPlan
    } else if step == "tutorial_l01_run_and_observe"@ {
        command is SetTimeRunning
    } else if step == "tutorial_l01_beacon_warning"@ {
        command is Inspect
    } else if step == "tutorial_l01_open_gate"@ {
        command == CommandKind::SetGate(10_000)
    } else if step == "tutorial_l01_stabilize"@ {
        command is SetTimeRunning
    } else {
        false
    }
}

/// `a` plus one, saturating at `u8::MAX`.
pub open spec fn inc_u8(a: u8) -> u8 {
    if a == u8::MAX { a } else { (a + 1) as u8 }
}

/// How an admitted command moves the tutorial. Inspecting the grade explanation
/// only marks it read; dismissing it afterwards completes the step. Raising the
/// remaining barriers takes two terrain selections. Other steps complete on their
/// command.
pub open spec fn advance_spec(t: TutorialView, command: CommandKind) -> TutorialView {
    if t.current == "tutorial_l01_inspect_grade"@ && command is Inspect {
        TutorialView { dismissed_prompt: true, ..t }
    } else {
        let completes = completes_on(t.current, command) || (t.current == "tutorial_l01_inspect_grade"@
            && t.dismissed_prompt && command is DismissPrompt);
        if t.current == "tutorial_l01_raise_remaining"@ && command is SelectTerrain {
            let counted = TutorialView { actions_in_step: inc_u8(t.actions_in_step), ..t };
            if counted.actions_in_step < 2 {
                counted
            } else if completes {
                complete_spec(counted)
            } else {
                counted
            }
        } else if completes {
            complete_spec(t)
        } else {
            t
        }
    }
}

/// A copy of a list of texts.
pub(crate) fn copy_texts(v: &Vec<String>) -> (copy: Vec<String>)
    ensures
        copy@ == v@,
{
    let mut copy: Vec<String> = Vec::new();
    let mut i: usize = 0;
    while i < v.len()
        invariant
            i <= v@.len(),
            copy@ == v@.take(i as int),
        decreases v@.len() - i,
    {
        copy.push(v[i].clone());
        proof {
            assert(v@.take(i as int + 1) == v@.take(i as int).push(v@[i as int]));
        }
        i = i + 1;
    }
    proof {
        assert(v@.take(v@.len() as int) == v@);
    }
    copy
}

impl TutorialState {
    /// The first mission's tutorial at its welcome step, over the authored steps.
    pub fn l01(steps: Vec<String>) -> (t: Self)
        ensures
            t@ == (TutorialView {
                tutorial_id: "tutorial_l01"@,
                current: "tutorial_l01_welcome"@,
                completed: seq![],
                hint_level: 0,
                ticks_in_step: 0,
                dismissed_prompt: false,
                skip_confirmed: false,
                actions_in_step: 0,
                steps: texts(steps@),
            }),
    {
        let t = TutorialState {
            tutorial_id: "tutorial_l01".to_owned(),
            current_step_id: "tutorial_l01_welcome".to_owned(),
            completed_step_ids: Vec::new(),
            hint_level: 0,
            ticks_in_step: 0,
            dismissed_prompt: false,
            skip_confirmed: false,
            actions_in_step: 0,
            steps,
        };
        proof {
            assert(texts(t.completed_step_ids@) =~= seq![]);
        }
        t
    }

    /// Skip the tutorial: every step counts as completed.
    pub fn skip(&mut self)
        ensures
            final(self)@ == skip_spec(old(self)@),
    {
        self.skip_confirmed = true;
        self.completed_step_ids = copy_texts(&self.steps);
        self.current_step_id = "tutorial_complete".to_owned();
    }

    /// Complete the current step and move to the next authored one.
    pub fn complete_current(&mut self)
        ensures
            final(self)@ == complete_spec(old(self)@),
    {
        if !same_text(&self.current_step_id, "tutorial_complete") {
            let current = self.current_step_id.clone();
            self.completed_step_ids.push(current);
            let next = self.completed_step_ids.len();
            if next < self.steps.len() {
                self.current_step_id = self.steps[next].clone();
            } else {
                self.current_step_id = "tutorial_complete".to_owned();
            }
            self.ticks_in_step = 0;
            self.actions_in_step = 0;
            self.dismissed_prompt = false;
            proof {
                assert(texts(self.completed_step_ids@) =~= texts(old(self).completed_step_ids@).push(old(self).current_step_id@));
            }
        }
    }

    /// Whether the tutorial is finished or was skipped.
    pub fn is_complete(&self) -> (done: bool)
        ensures
            done == (self@.current == finished_step() || self.skip_confirmed),
    {
        same_text(&self.current_step_id, "tutorial_complete") || self.skip_confirmed
    }
}

/// Whether a tutorial step lets a command through.
pub fn tutorial_allows(step: &String, command: CommandKind) -> (ok: bool)
    ensures
        ok == allows(step@, command),
{
    if same_text(step, "tutorial_l01_welcome") {
        matches!(
            command,
            CommandKind::Camera | CommandKind::Select | CommandKind::Inspect | CommandKind::DismissPrompt
                | CommandKind::SkipTutorial
        )
    } else if same_text(step, "tutorial_l01_move_camera") {
        matches!(command, CommandKind::Camera)
    } else if same_text(step, "tutorial_l01_move_cursor") {
        matches!(command, CommandKind::Select | CommandKind::Camera)
    } else if same_text(step, "tutorial_l01_inspect_grade") {
        matches!(command, CommandKind::Inspect | CommandKind::DismissPrompt)
    } else if same_text(step, "tutorial_l01_pause_plan") {
        matches!(command, CommandKind::SetPaused)
    } else if same_text(step, "tutorial_l01_raise_first") || same_text(step, "tutorial_l01_raise_remaining") {
        matches!(command, CommandKind::SelectTerrain)
    } else if same_text(step, "tutorial_l01_select_deposit") {
        matches!(command, CommandKind::Select)
    } else if same_text(step, "tutorial_l01_recover_deposit") {
        matches!(command, CommandKind::RecoverDeposit)
    } else if same_text(step, "tutorial_l01_place_channel") {
        matches!(command, CommandKind::QueueDevice(DeviceId::Channel) | CommandKind::CommitPlan)
    } else if same_text(step, "tutorial_l01_run_and_observe") {
        matches!(command, CommandKind::SetTimeRunning | CommandKind::Select)
    } else if same_text(step, "tutorial_l01_beacon_warning") {
        matches!(command, CommandKind::Inspect)
    } else if same_text(step, "tutorial_l01_open_gate") {
        matches!(command, CommandKind::SetGate(10_000))
    } else if same_text(step, "tutorial_l01_stabilize") {
        matches!(command, CommandKind::SetTimeRunning | CommandKind::Select)
    } else {
        true
    }
}

/// Whether `command` completes `step` on its own.
fn completes_step(step: &String, command: CommandKind) -> (b: bool)
    ensures
        b == completes_on(step@, command),
{
    if same_text(step, "tutorial_l01_welcome") {
        matches!(command, CommandKind::DismissPrompt)
    } else if same_text(step, "tutorial_l01_move_camera") {
        matches!(command, CommandKind::Camera)
    } else if same_text(step, "tutorial_l01_move_cursor") {
        matches!(command, CommandKind::Select)
    } else if same_text(step, "tutorial_l01_select_deposit") {
        matches!(command, CommandKind::Select)
    } else if same_text(step, "tutorial_l01_recover_deposit") {
        matches!(command, CommandKind::RecoverDeposit)
    } else if same_text(step, "tutorial_l01_pause_plan") {
        matches!(command, CommandKind::SetPaused)
    } else if same_text(step, "tutorial_l01_raise_first") {
        matches!(command, CommandKind::SelectTerrain)
    } else if same_text(step, "tutorial_l01_raise_remaining") {
        matches!(command, CommandKind::SelectTerrain)
    } else if same_text(step, "tutorial_l01_place_channel") {
        matches!(command, CommandKind::CommitPlan)
    } else if same_text(step, "tutorial_l01_run_and_observe") {
        matches!(command, CommandKind::SetTimeRunning)
    } else if same_text(step, "tutorial_l01_beacon_warning") {
        matches!(command, CommandKind::Inspect)
    } else if same_text(step, "tutorial_l01_open_gate") {
        matches!(command, CommandKind::SetGate(10_000))
    } else if same_text(step, "tutorial_l01_stabilize") {
        matches!(command, CommandKind::SetTimeRunning)
    } else {
        false
    }
}

/// Move the tutorial on for an admitted command.
pub fn advance_tutorial(tutorial: &mut TutorialState, command: CommandKind)
    ensures
        final(tutorial)@ == advance_spec(old(tutorial)@, command),
{
    let inspecting = same_text(&tutorial.current_step_id, "tutorial_l01_inspect_grade");
    if inspecting && matches!(command, CommandKind::Inspect) {
        tutorial.dismissed_prompt = true;
        return;
    }
    let completes = completes_step(&tutorial.current_step_id, command) || (inspecting && tutorial.dismissed_prompt
        && matches!(command, CommandKind::DismissPrompt));
    if same_text(&tutorial.current_step_id, "tutorial_l01_raise_remaining") && matches!(command, CommandKind::SelectTerrain) {
        tutorial.actions_in_step = tutorial.actions_in_step.saturating_add(1);
        if tutorial.actions_in_step < 2 {
            return;
        }
    }
    if completes {
        tutorial.complete_current();
    }
}

} // verus!
