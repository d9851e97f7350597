//! Per-cell fluid entry lists: lookup, removal and merging, with their volume accounting.
//!
//! A well-formed list holds at most one entry per fluid, in fluid order, each with a
//! positive volume.

use vstd::prelude::*;

use super::{FluidEntry, FluidId};

verus! {

/// Largest magnitude of any authored or carried temperature, in deci-kelvin.
pub const TEMPERATURE_LIMIT_DK: i32 = 1_000_000_000;

/// No entry with the fluid comes before index `i`, which holds it.
pub open spec fn is_first_match(s: Seq<FluidEntry>, f: FluidId, i: int) -> bool {
    &&& 0 <= i < s.len()
    &&& s[i].fluid == f
    &&& forall|j: int| 0 <= j < i ==> s[j].fluid != f
}

/// Some entry holds the fluid.
pub open spec fn has_fluid(s: Seq<FluidEntry>, f: FluidId) -> bool {
    exists|i: int| 0 <= i < s.len() && s[i].fluid == f
}

/// The first entry that holds the fluid.
pub open spec fn entry_of(s: Seq<FluidEntry>, f: FluidId) -> Option<FluidEntry> {
    if has_fluid(s, f) {
        Some(s[choose|i: int| is_first_match(s, f, i)])
    } else {
        None
    }
}

/// Volume of the first entry that holds the fluid, or zero.
pub open spec fn fluid_volume(s: Seq<FluidEntry>, f: FluidId) -> nat {
    match entry_of(s, f) {
        Some(e) => e.volume_vu as nat,
        None => 0,
    }
}

/// Sum of all entry volumes.
pub open spec fn seq_volume(s: Seq<FluidEntry>) -> nat
    decreases s.len(),
{
    if s.len() == 0 {
        0
    } else {
        seq_volume(s.drop_last()) + s.last().volume_vu as nat
    }
}

/// Sum of the volumes of the four fluids.
pub open spec fn volume_by_fluid(s: Seq<FluidEntry>) -> nat {
    fluid_volume(s, FluidId::Lava) + fluid_volume(s, FluidId::Steam) + fluid_volume(
        s,
        FluidId::ToxicSlurry,
    ) + fluid_volume(s, FluidId::Water)
}

/// Positive volumes, strictly increasing fluid order, bounded temperatures.
pub open spec fn entries_wf(s: Seq<FluidEntry>) -> bool {
    &&& forall|i: int| 0 <= i < s.len() ==> #[trigger] s[i].volume_vu > 0
    &&& forall|i: int, j: int|
        0 <= i < j < s.len() ==> (#[trigger] s[i].fluid).rank_spec() < (#[trigger] s[j].fluid).rank_spec()
    &&& forall|i: int|
        0 <= i < s.len() ==> -TEMPERATURE_LIMIT_DK <= #[trigger] s[i].temperature_dk
            <= TEMPERATURE_LIMIT_DK
}

/// The entry left after removing up to `amount` of it.
pub open spec fn after_removal(e: Option<FluidEntry>, amount: u32) -> Option<FluidEntry> {
    match e {
        Some(x) => if x.volume_vu <= amount {
            None
        } else {
            Some(FluidEntry { volume_vu: (x.volume_vu - amount) as u32, ..x })
        },
        None => None,
    }
}

/// Integer division rounding toward zero, as machine division does.
pub open spec fn div_toward_zero(a: int, b: int) -> int {
    if a >= 0 {
        a / b
    } else {
        -((-a) / b)
    }
}

/// The entry that results from pouring `added` into `existing`: volumes add, and
/// temperature and contamination become volume-weighted averages.
pub open spec fn merged_entry(existing: Option<FluidEntry>, added: FluidEntry) -> FluidEntry {
    match existing {
        Some(x) => {
            let total = x.volume_vu + added.volume_vu;
            FluidEntry {
                fluid: added.fluid,
                volume_vu: total as u32,
                temperature_dk: div_toward_zero(
                    x.temperature_dk * x.volume_vu + added.temperature_dk * added.volume_vu,
                    total,
                ) as i32,
                contamination_bp: ((x.contamination_bp * x.volume_vu + added.contamination_bp
                    * added.volume_vu) / total) as u16,
            }
        },
        None => added,
    }
}

/// Two first matches are the same index.
pub proof fn lemma_first_match_unique(s: Seq<FluidEntry>, f: FluidId, i: int, j: int)
    requires
        is_first_match(s, f, i),
        is_first_match(s, f, j),
    ensures
        i == j,
{
}

/// Any entry holding the fluid gives a first match.
pub proof fn lemma_first_match_exists(s: Seq<FluidEntry>, f: FluidId, k: int)
    requires
        0 <= k < s.len(),
        s[k].fluid == f,
    ensures
        exists|i: int| is_first_match(s, f, i),
    decreases k,
{
    if forall|j: int| 0 <= j < k ==> s[j].fluid != f {
        assert(is_first_match(s, f, k));
    } else {
        let j = choose|j: int| 0 <= j < k && s[j].fluid != f == false;
        lemma_first_match_exists(s, f, j);
    }
}

/// The entry at a first-match index is the fluid's entry.
pub proof fn lemma_entry_at_first(s: Seq<FluidEntry>, f: FluidId, i: int)
    requires
        is_first_match(s, f, i),
    ensures
        entry_of(s, f) == Some(s[i]),
{
    lemma_first_match_exists(s, f, i);
    let k = choose|k: int| is_first_match(s, f, k);
    lemma_first_match_unique(s, f, i, k);
}

/// In a well-formed list, the entry at any index is that fluid's entry.
pub proof fn lemma_entry_at(s: Seq<FluidEntry>, i: int)
    requires
        entries_wf(s),
        0 <= i < s.len(),
    ensures
        entry_of(s, s[i].fluid) == Some(s[i]),
{
    let f = s[i].fluid;
    assert forall|j: int| 0 <= j < i implies s[j].fluid != f by {
        assert(s[j].fluid.rank_spec() < s[i].fluid.rank_spec());
    }
    lemma_entry_at_first(s, f, i);
}

/// In a well-formed list, total volume is the sum of the four fluid volumes.
pub proof fn lemma_volume_by_fluid(s: Seq<FluidEntry>)
    requires
        entries_wf(s),
    ensures
        seq_volume(s) == volume_by_fluid(s),
    decreases s.len(),
{
    if s.len() == 0 {
        assert(!has_fluid(s, FluidId::Lava));
        assert(!has_fluid(s, FluidId::Steam));
        assert(!has_fluid(s, FluidId::ToxicSlurry));
        assert(!has_fluid(s, FluidId::Water));
    } else {
        let t = s.drop_last();
        let last = s.last();
        assert(entries_wf(t));
        lemma_volume_by_fluid(t);
        lemma_entry_at(s, s.len() - 1);
        assert forall|g: FluidId| g != last.fluid implies entry_of(s, g) == entry_of(t, g) by {
            if has_fluid(s, g) {
                let k = choose|k: int| 0 <= k < s.len() && s[k].fluid == g;
                lemma_first_match_exists(s, g, k);
                let i = choose|i: int| is_first_match(s, g, i);
                assert(i < s.len() - 1);
                assert(is_first_match(t, g, i));
                lemma_entry_at_first(t, g, i);
                lemma_entry_at_first(s, g, i);
            } else {
                assert(!has_fluid(t, g)) by {
                    if has_fluid(t, g) {
                        let k = choose|k: int| 0 <= k < t.len() && t[k].fluid == g;
                        assert(s[k].fluid == g);
                    }
                }
            }
        }
        assert(!has_fluid(t, last.fluid)) by {
            if has_fluid(t, last.fluid) {
                let k = choose|k: int| 0 <= k < t.len() && t[k].fluid == last.fluid;
                assert(s[k].fluid.rank_spec() < s[s.len() - 1].fluid.rank_spec());
            }
        }
    }
}

/// Index of the first entry holding `fluid`.
pub fn find_fluid(entries: &Vec<FluidEntry>, fluid: FluidId) -> (result: Option<usize>)
    ensures
        match result {
            Some(i) => is_first_match(entries@, fluid, i as int),
            None => !has_fluid(entries@, fluid),
        },
{
    let mut i: usize = 0;
    while i < entries.len()
        invariant
            i <= entries@.len(),
            forall|j: int| 0 <= j < i ==> entries@[j].fluid != fluid,
        decreases entries@.len() - i,
    {
        if entries[i].fluid == fluid {
            return Some(i);
        }
        i = i + 1;
    }
    None
}

/// Volume of the first entry holding `fluid`, or zero.
pub fn volume(entries: &Vec<FluidEntry>, fluid: FluidId) -> (v: u32)
    ensures
        v == fluid_volume(entries@, fluid),
{
    match find_fluid(entries, fluid) {
        Some(i) => {
            proof {
                lemma_entry_at_first(entries@, fluid, i as int);
            }
            entries[i].volume_vu
        },
        None => 0,
    }
}

/// Sum of all entry volumes.
pub fn total_volume(entries: &Vec<FluidEntry>) -> (v: u32)
    requires
        seq_volume(entries@) <= u32::MAX,
    ensures
        v == seq_volume(entries@),
{
    let mut sum: u32 = 0;
    let mut i: usize = 0;
    while i < entries.len()
        invariant
            i <= entries@.len(),
            seq_volume(entries@) <= u32::MAX,
            sum == seq_volume(entries@.take(i as int)),
        decreases entries@.len() - i,
    {
        proof {
            let t = entries@.take(i as int + 1);
            assert(t.drop_last() =~= entries@.take(i as int));
            lemma_seq_volume_prefix(entries@, i as int + 1);
        }
        sum = sum + entries[i].volume_vu;
        i = i + 1;
    }
    proof {
        assert(entries@.take(i as int) =~= entries@);
    }
    sum
}

/// A prefix's volume never exceeds the whole.
pub proof fn lemma_seq_volume_prefix(s: Seq<FluidEntry>, n: int)
    requires
        0 <= n <= s.len(),
    ensures
        seq_volume(s.take(n)) <= seq_volume(s),
    decreases s.len(),
{
    if n < s.len() {
        assert(s.drop_last().take(n) =~= s.take(n));
        lemma_seq_volume_prefix(s.drop_last(), n);
    } else {
        assert(s.take(n) =~= s);
    }
}

/// Entries that hold no other fluid keep their lookups after a change at index `i`
/// to an entry of the same fluid.
pub proof fn lemma_update_same_fluid(s: Seq<FluidEntry>, i: int, e: FluidEntry)
    requires
        entries_wf(s),
        0 <= i < s.len(),
        e.fluid == s[i].fluid,
        e.volume_vu > 0,
        -TEMPERATURE_LIMIT_DK <= e.temperature_dk <= TEMPERATURE_LIMIT_DK,
    ensures
        entries_wf(s.update(i, e)),
        entry_of(s.update(i, e), e.fluid) == Some(e),
        forall|g: FluidId| g != e.fluid ==> entry_of(s.update(i, e), g) == entry_of(s, g),
{
    let t = s.update(i, e);
    assert(entries_wf(t));
    lemma_entry_at(t, i);
    assert forall|g: FluidId| g != e.fluid implies entry_of(t, g) == entry_of(s, g) by {
        if has_fluid(s, g) {
            let k = choose|k: int| 0 <= k < s.len() && s[k].fluid == g;
            lemma_entry_at(s, k);
            assert(t[k] == s[k]);
            lemma_entry_at(t, k);
        } else {
            assert(!has_fluid(t, g)) by {
                if has_fluid(t, g) {
                    let k = choose|k: int| 0 <= k < t.len() && t[k].fluid == g;
                    assert(s[k].fluid == g);
                }
            }
        }
    }
}

/// Removing the entry at index `i` drops exactly that fluid.
pub proof fn lemma_remove_index(s: Seq<FluidEntry>, i: int)
    requires
        entries_wf(s),
        0 <= i < s.len(),
    ensures
        entries_wf(s.remove(i)),
        entry_of(s.remove(i), s[i].fluid) == None::<FluidEntry>,
        forall|g: FluidId| g != s[i].fluid ==> entry_of(s.remove(i), g) == entry_of(s, g),
{
    let t = s.remove(i);
    assert forall|a: int, b: int| 0 <= a < b < t.len() implies (#[trigger] t[a].fluid).rank_spec()
        < (#[trigger] t[b].fluid).rank_spec() by {
        let sa = if a < i { a } else { a + 1 };
        let sb = if b < i { b } else { b + 1 };
        assert(t[a] == s[sa]);
        assert(t[b] == s[sb]);
    }
    assert forall|a: int| 0 <= a < t.len() implies #[trigger] t[a].volume_vu > 0 by {
        let sa = if a < i { a } else { a + 1 };
        assert(t[a] == s[sa]);
    }
    assert forall|a: int| 0 <= a < t.len() implies -TEMPERATURE_LIMIT_DK <= #[trigger] t[a].temperature_dk
        <= TEMPERATURE_LIMIT_DK by {
        let sa = if a < i { a } else { a + 1 };
        assert(t[a] == s[sa]);
    }
    assert(!has_fluid(t, s[i].fluid)) by {
        if has_fluid(t, s[i].fluid) {
            let k = choose|k: int| 0 <= k < t.len() && t[k].fluid == s[i].fluid;
            let sk = if k < i { k } else { k + 1 };
            assert(t[k] == s[sk]);
            assert(sk != i);
            if sk < i {
                assert(s[sk].fluid.rank_spec() < s[i].fluid.rank_spec());
            } else {
                assert(s[i].fluid.rank_spec() < s[sk].fluid.rank_spec());
            }
        }
    }
    assert forall|g: FluidId| g != s[i].fluid implies entry_of(t, g) == entry_of(s, g) by {
        if has_fluid(s, g) {
            let k = choose|k: int| 0 <= k < s.len() && s[k].fluid == g;
            lemma_entry_at(s, k);
            let tk = if k < i { k } else { k - 1 };
            assert(t[tk] == s[k]);
            lemma_entry_at(t, tk);
        } else {
            assert(!has_fluid(t, g)) by {
                if has_fluid(t, g) {
                    let k = choose|k: int| 0 <= k < t.len() && t[k].fluid == g;
                    let sk = if k < i { k } else { k + 1 };
                    assert(t[k] == s[sk]);
                }
            }
        }
    }
}

/// Inserting a new fluid at its ordered position adds exactly that fluid.
pub proof fn lemma_insert_ordered(s: Seq<FluidEntry>, pos: int, e: FluidEntry)
    requires
        entries_wf(s),
        0 <= pos <= s.len(),
        forall|j: int| 0 <= j < pos ==> (#[trigger] s[j].fluid).rank_spec() < e.fluid.rank_spec(),
        forall|j: int| pos <= j < s.len() ==> e.fluid.rank_spec() < (#[trigger] s[j].fluid).rank_spec(),
        e.volume_vu > 0,
        -TEMPERATURE_LIMIT_DK <= e.temperature_dk <= TEMPERATURE_LIMIT_DK,
    ensures
        entries_wf(s.insert(pos, e)),
        entry_of(s.insert(pos, e), e.fluid) == Some(e),
        forall|g: FluidId| g != e.fluid ==> entry_of(s.insert(pos, e), g) == entry_of(s, g),
{
    let t = s.insert(pos, e);
    assert forall|a: int, b: int| 0 <= a < b < t.len() implies (#[trigger] t[a].fluid).rank_spec()
        < (#[trigger] t[b].fluid).rank_spec() by {
        if a < pos {
            assert(t[a] == s[a]);
        } else if a > pos {
            assert(t[a] == s[a - 1]);
        }
        if b < pos {
            assert(t[b] == s[b]);
        } else if b > pos {
            assert(t[b] == s[b - 1]);
        }
    }
    assert forall|a: int| 0 <= a < t.len() implies #[trigger] t[a].volume_vu > 0 by {
        if a < pos {
            assert(t[a] == s[a]);
        } else if a > pos {
            assert(t[a] == s[a - 1]);
        }
    }
    assert forall|a: int| 0 <= a < t.len() implies -TEMPERATURE_LIMIT_DK <= #[trigger] t[a].temperature_dk
        <= TEMPERATURE_LIMIT_DK by {
        if a < pos {
            assert(t[a] == s[a]);
        } else if a > pos {
            assert(t[a] == s[a - 1]);
        }
    }
    assert(entries_wf(t));
    assert(t[pos] == e);
    lemma_entry_at(t, pos);
    assert forall|g: FluidId| g != e.fluid implies entry_of(t, g) == entry_of(s, g) by {
        if has_fluid(s, g) {
            let k = choose|k: int| 0 <= k < s.len() && s[k].fluid == g;
            lemma_entry_at(s, k);
            let tk = if k < pos { k } else { k + 1 };
            assert(t[tk] == s[k]);
            lemma_entry_at(t, tk);
        } else {
            assert(!has_fluid(t, g)) by {
                if has_fluid(t, g) {
                    let k = choose|k: int| 0 <= k < t.len() && t[k].fluid == g;
                    if k < pos {
                        assert(t[k] == s[k]);
                    } else if k > pos {
                        assert(t[k] == s[k - 1]);
                    }
                }
            }
        }
    }
}

/// Remove up to `amount` of `fluid`; an emptied entry leaves the list.
pub fn remove_fluid(entries: &mut Vec<FluidEntry>, fluid: FluidId, amount: u32)
    requires
        entries_wf(old(entries)@),
    ensures
        entries_wf(final(entries)@),
        entry_of(final(entries)@, fluid) == after_removal(entry_of(old(entries)@, fluid), amount),
        forall|g: FluidId| g != fluid ==> entry_of(final(entries)@, g) == entry_of(old(entries)@, g),
        fluid_volume(final(entries)@, fluid) == fluid_volume(old(entries)@, fluid) - (if amount
            <= fluid_volume(old(entries)@, fluid) {
            amount as int
        } else {
            fluid_volume(old(entries)@, fluid) as int
        }),
        seq_volume(final(entries)@) == seq_volume(old(entries)@) - (if amount <= fluid_volume(
            old(entries)@,
            fluid,
        ) {
            amount as int
        } else {
            fluid_volume(old(entries)@, fluid) as int
        }),
{
    proof {
        lemma_volume_by_fluid(entries@);
    }
    if let Some(i) = find_fluid(entries, fluid) {
        proof {
            lemma_entry_at(entries@, i as int);
        }
        let entry = entries[i];
        if entry.volume_vu <= amount {
            proof {
                lemma_remove_index(entries@, i as int);
            }
            entries.remove(i);
        } else {
            let updated = FluidEntry { volume_vu: entry.volume_vu - amount, ..entry };
            proof {
                lemma_update_same_fluid(entries@, i as int, updated);
            }
            entries.set(i, updated);
        }
    }
    proof {
        lemma_volume_by_fluid(entries@);
    }
}

/// Pour `entry` into the list: it merges with an entry of the same fluid, or takes
/// its place in fluid order.
#[verifier::rlimit(40)]
pub fn merge_entry(entries: &mut Vec<FluidEntry>, entry: FluidEntry)
    requires
        entries_wf(old(entries)@),
        entry.volume_vu > 0,
        -TEMPERATURE_LIMIT_DK <= entry.temperature_dk <= TEMPERATURE_LIMIT_DK,
        fluid_volume(old(entries)@, entry.fluid) + entry.volume_vu <= u32::MAX,
    ensures
        entries_wf(final(entries)@),
        entry_of(final(entries)@, entry.fluid) == Some(
            merged_entry(entry_of(old(entries)@, entry.fluid), entry),
        ),
        forall|g: FluidId| g != entry.fluid ==> entry_of(final(entries)@, g) == entry_of(old(entries)@, g),
        fluid_volume(final(entries)@, entry.fluid) == fluid_volume(old(entries)@, entry.fluid)
            + entry.volume_vu,
        seq_volume(final(entries)@) == seq_volume(old(entries)@) + entry.volume_vu,
{
    proof {
        lemma_volume_by_fluid(entries@);
    }
    if let Some(i) = find_fluid(entries, entry.fluid) {
        proof {
            lemma_entry_at(entries@, i as int);
        }
        let existing = entries[i];
        proof {
            lemma_weighted_average(
                existing.temperature_dk as int,
                existing.volume_vu as int,
                entry.temperature_dk as int,
                entry.volume_vu as int,
            );
            lemma_weighted_average_nat(
                existing.contamination_bp as int,
                existing.volume_vu as int,
                entry.contamination_bp as int,
                entry.volume_vu as int,
            );
        }
        let total: u32 = existing.volume_vu + entry.volume_vu;
        let weighted_temp: i64 = existing.temperature_dk as i64 * existing.volume_vu as i64
            + entry.temperature_dk as i64 * entry.volume_vu as i64;
        let temperature: i64 = weighted_temp / total as i64;
        let weighted_contamination: u64 = existing.contamination_bp as u64 * existing.volume_vu as u64
            + entry.contamination_bp as u64 * entry.volume_vu as u64;
        let contamination: u64 = weighted_contamination / total as u64;
        let merged = FluidEntry {
            fluid: entry.fluid,
            volume_vu: total,
            temperature_dk: temperature as i32,
            contamination_bp: contamination as u16,
        };
        proof {
            lemma_update_same_fluid(entries@, i as int, merged);
        }
        entries.set(i, merged);
    } else {
        let mut pos: usize = 0;
        while pos < entries.len() && entries[pos].fluid.rank() < entry.fluid.rank()
            invariant
                pos <= entries@.len(),
                entries_wf(entries@),
                forall|j: int| 0 <= j < pos ==> (#[trigger] entries@[j].fluid).rank_spec()
                    < entry.fluid.rank_spec(),
            decreases entries@.len() - pos,
        {
            pos = pos + 1;
        }
        proof {
            assert forall|j: int| pos <= j < entries@.len() implies entry.fluid.rank_spec() < (
            #[trigger] entries@[j].fluid).rank_spec() by {
                assert(entries@[j].fluid != entry.fluid);
                if j > pos {
                    assert(entries@[pos as int].fluid.rank_spec() < entries@[j].fluid.rank_spec());
                }
                assert(entries@[pos as int].fluid.rank_spec() >= entry.fluid.rank_spec());
                assert(entries@[pos as int].fluid != entry.fluid);
            }
            lemma_insert_ordered(entries@, pos as int, entry);
        }
        entries.insert(pos, entry);
    }
    proof {
        lemma_volume_by_fluid(entries@);
    }
}

/// A volume-weighted average of two temperatures lies between them, and machine
/// division of the weighted sum is the rounding-toward-zero quotient.
proof fn lemma_weighted_average(t1: int, v1: int, t2: int, v2: int)
    requires
        0 <= v1 <= u32::MAX,
        0 < v2 <= u32::MAX,
        v1 + v2 <= u32::MAX,
        -TEMPERATURE_LIMIT_DK <= t1 <= TEMPERATURE_LIMIT_DK,
        -TEMPERATURE_LIMIT_DK <= t2 <= TEMPERATURE_LIMIT_DK,
    ensures
        i64::MIN <= t1 * v1 <= i64::MAX,
        i64::MIN <= t2 * v2 <= i64::MAX,
        i64::MIN <= t1 * v1 + t2 * v2 <= i64::MAX,
        -TEMPERATURE_LIMIT_DK <= div_toward_zero(t1 * v1 + t2 * v2, v1 + v2) <= TEMPERATURE_LIMIT_DK,
{
    let lim: int = 1_000_000_000;
    let cap: int = 4294967295;
    assert(-(lim * v1) <= t1 * v1 <= lim * v1) by (nonlinear_arith)
        requires -lim <= t1 <= lim, 0 <= v1;
    assert(-(lim * v2) <= t2 * v2 <= lim * v2) by (nonlinear_arith)
        requires -lim <= t2 <= lim, 0 <= v2;
    let d = v1 + v2;
    assert(lim * d <= lim * cap) by (nonlinear_arith)
        requires d <= cap, lim >= 0;
    assert(lim * d == lim * v1 + lim * v2) by (nonlinear_arith)
        requires d == v1 + v2;
    assert(lim * v1 <= lim * cap) by (nonlinear_arith)
        requires v1 <= cap, lim >= 0;
    assert(lim * v2 <= lim * cap) by (nonlinear_arith)
        requires v2 <= cap, lim >= 0;
    assert(lim * cap <= 9223372036854775807int / 2);
    let w = t1 * v1 + t2 * v2;
    assert(-(lim * d) <= w <= lim * d);
    if w >= 0 {
        assert(w / d <= lim) by (nonlinear_arith)
            requires 0 <= w <= lim * d, d > 0;
        assert(w / d >= 0) by (nonlinear_arith)
            requires 0 <= w, d > 0;
    } else {
        assert((-w) / d <= lim) by (nonlinear_arith)
            requires 0 <= -w <= lim * d, d > 0;
        assert((-w) / d >= 0) by (nonlinear_arith)
            requires 0 <= -w, d > 0;
    }
}

/// A volume-weighted average of two contamination levels stays within `u16`.
proof fn lemma_weighted_average_nat(c1: int, v1: int, c2: int, v2: int)
    requires
        0 <= v1 <= u32::MAX,
        0 < v2 <= u32::MAX,
        v1 + v2 <= u32::MAX,
        0 <= c1 <= u16::MAX,
        0 <= c2 <= u16::MAX,
    ensures
        0 <= c1 * v1 + c2 * v2 <= u64::MAX,
        (c1 * v1 + c2 * v2) / (v1 + v2) <= u16::MAX,
{
    let m: int = 65535;
    let cap: int = 4294967295;
    assert(0 <= c1 * v1 <= m * v1) by (nonlinear_arith)
        requires 0 <= c1 <= m, 0 <= v1;
    assert(0 <= c2 * v2 <= m * v2) by (nonlinear_arith)
        requires 0 <= c2 <= m, 0 <= v2;
    let d = v1 + v2;
    assert(m * d == m * v1 + m * v2) by (nonlinear_arith)
        requires d == v1 + v2;
    let w = c1 * v1 + c2 * v2;
    assert(m * d <= m * cap) by (nonlinear_arith)
        requires d <= cap, m >= 0;
    assert(w / d <= m) by (nonlinear_arith)
        requires 0 <= w <= m * d, d > 0;
}

} // verus!
