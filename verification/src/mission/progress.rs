//! Campaign progression: unlocks, completions, best times and the summary line.

use vstd::prelude::*;

use super::MissionId;
use crate::content::{first_mission, ContentRegistry};
use crate::text::{decimal, push_decimal};

verus! {

/// Which missions are unlocked and completed, and the best completion times.
#[derive(Debug, Clone)]
pub struct CampaignProgress {
    pub unlocked: [bool; 3],
    pub completed: [bool; 3],
    pub best_ticks: [Option<u64>; 3],
    pub content_version: String,
}

impl Default for CampaignProgress {
    /// A clean campaign: only the first mission unlocked, nothing completed.
    fn default() -> (progress: Self)
        ensures
            progress.unlocked@ == seq![true, false, false],
            progress.completed@ == seq![false, false, false],
            progress.best_ticks@ == seq![None::<u64>, None, None],
            progress.content_version@ == "1.2.0"@,
    {
        let progress = CampaignProgress {
            unlocked: [true, false, false],
            completed: [false, false, false],
            best_ticks: [None, None, None],
            content_version: "1.2.0".to_owned(),
        };
        proof {
            assert(progress.unlocked@ =~= seq![true, false, false]);
            assert(progress.completed@ =~= seq![false, false, false]);
            assert(progress.best_ticks@ =~= seq![None::<u64>, None, None]);
        }
        progress
    }
}

/// The better of a recorded best time and a new time.
pub open spec fn best_of(best: Option<u64>, ticks: u64) -> Option<u64> {
    match best {
        Some(b) => Some(if b <= ticks { b } else { ticks }),
        None => Some(ticks),
    }
}

/// `c1` is `c0` after recording a completion of mission `id` in `ticks` (see `CampaignProgress::record_success`).
pub open spec fn success_recorded(c0: CampaignProgress, c1: CampaignProgress, id: MissionId, ticks: u64) -> bool {
    &&& ({
        let k = id.sequence_spec() - 1;
        &&& c1.completed@ == c0.completed@.update(k, true)
        &&& c1.best_ticks@ == c0.best_ticks@.update(k, best_of(c0.best_ticks@[k], ticks))
        &&& c1.unlocked@ == if k + 1 < 3 {
            c0.unlocked@.update(k + 1, true)
        } else {
            c0.unlocked@
        }
    })
    &&& c1.content_version == c0.content_version
    &&& forall|i: int| 0 <= i < 3 ==> (c0.unlocked@[i] ==> #[trigger] c1.unlocked@[i])
    &&& forall|i: int| 0 <= i < 3 ==> (c0.completed@[i] ==> #[trigger] c1.completed@[i])
    &&& forall|i: int|
        0 <= i < 3 ==> (c0.best_ticks@[i] matches Some(b) ==> (#[trigger] c1.best_ticks@[i] matches Some(
            a,
        ) && a <= b))
    &&& c1.best_ticks@[id.sequence_spec() - 1] matches Some(a) && a <= ticks
}

impl CampaignProgress {
    /// Record a completed mission: it is completed, its best time is the lesser
    /// of the recorded one and `ticks`, and the next mission unlocks.
    pub fn record_success(&mut self, id: MissionId, ticks: u64)
        ensures
            success_recorded(*old(self), *final(self), id, ticks),
    {
        let index = id.sequence() - 1;
        let c = self.completed;
        self.completed = [c[0] || index == 0, c[1] || index == 1, c[2] || index == 2];
        let previous = self.best_ticks[index];
        let best = match previous {
            Some(b) => Some(if b <= ticks { b } else { ticks }),
            None => Some(ticks),
        };
        let b = self.best_ticks;
        self.best_ticks = [
            if index == 0 { best } else { b[0] },
            if index == 1 { best } else { b[1] },
            if index == 2 { best } else { b[2] },
        ];
        let u = self.unlocked;
        self.unlocked = [u[0], u[1] || index == 0, u[2] || index == 1];
        proof {
            let k = id.sequence_spec() - 1;
            assert(self.completed@ =~= old(self).completed@.update(k, true));
            assert(self.best_ticks@ =~= old(self).best_ticks@.update(k, best_of(old(self).best_ticks@[k], ticks)));
            if k + 1 < 3 {
                assert(self.unlocked@ =~= old(self).unlocked@.update(k + 1, true));
            } else {
                assert(self.unlocked@ =~= old(self).unlocked@);
            }
        }
    }
}

/// The title a mission shows: its record's title, or its content identifier when
/// it has no record.
pub open spec fn title_spec(content: ContentRegistry, id: MissionId) -> Seq<char> {
    if exists|i: int| first_mission(content.missions@, id.content_id_spec(), i) {
        content.missions@[choose|i: int| first_mission(content.missions@, id.content_id_spec(), i)].title@
    } else {
        id.content_id_spec()
    }
}

/// One mission's part of the campaign summary: "L0", its sequence, a space, its title.
pub open spec fn summary_part(content: ContentRegistry, id: MissionId) -> Seq<char> {
    "L0"@ + decimal(id.sequence_spec() as nat) + " "@ + title_spec(content, id)
}

/// Append one mission's part of the summary.
fn push_summary_part(text: &mut String, content: &ContentRegistry, id: MissionId)
    ensures
        final(text)@ == old(text)@ + summary_part(*content, id),
{
    text.append("L0");
    push_decimal(text, id.sequence() as u64);
    text.append(" ");
    match content.mission(id.content_id()) {
        Some(record) => {
            proof {
                let i = choose|i: int| first_mission(content.missions@, id.content_id_spec(), i) && *record == content.missions@[i];
                let k = choose|k: int| first_mission(content.missions@, id.content_id_spec(), k);
                if i < k {
                    assert(content.missions@[i].id@ == id.content_id_spec());
                } else if k < i {
                    assert(content.missions@[k].id@ == id.content_id_spec());
                }
            }
            text.append(record.title.as_str());
        },
        None => {
            text.append(id.content_id());
        },
    }
    proof {
        reveal_strlit("L0");
        reveal_strlit(" ");
        assert(final(text)@ =~= old(text)@ + summary_part(*content, id));
    }
}

/// The campaign line: each mission's sequence and title, in order, joined by " | ".
pub fn campaign_summary(content: &ContentRegistry) -> (summary: String)
    ensures
        summary@ == summary_part(*content, MissionId::L01FirstFlow) + " | "@ + summary_part(
            *content,
            MissionId::L02HoldingLine,
        ) + " | "@ + summary_part(*content, MissionId::L03Firebreak),
{
    let mut summary = String::new();
    push_summary_part(&mut summary, content, MissionId::L01FirstFlow);
    summary.append(" | ");
    push_summary_part(&mut summary, content, MissionId::L02HoldingLine);
    summary.append(" | ");
    push_summary_part(&mut summary, content, MissionId::L03Firebreak);
    proof {
        reveal_strlit(" | ");
        assert(summary@ =~= summary_part(*content, MissionId::L01FirstFlow) + " | "@ + summary_part(
            *content,
            MissionId::L02HoldingLine,
        ) + " | "@ + summary_part(*content, MissionId::L03Firebreak));
    }
    summary
}

} // verus!
