//! Cross-reference validation of the content registry.

use vstd::prelude::*;

use super::{ContentRegistry, DeviceRecord, MapRecord, MissionRecord, TutorialRecord};
use crate::text::{chars_of, push_decimal, same_text};

verus! {

/// Unicode white space, as `char::is_whitespace` and `str::trim` use it.
pub open spec fn is_white(c: char) -> bool {
    ||| '\u{9}' <= c <= '\u{d}'
    ||| c == ' '
    ||| c == '\u{85}'
    ||| c == '\u{a0}'
    ||| c == '\u{1680}'
    ||| '\u{2000}' <= c <= '\u{200a}'
    ||| c == '\u{2028}'
    ||| c == '\u{2029}'
    ||| c == '\u{202f}'
    ||| c == '\u{205f}'
    ||| c == '\u{3000}'
}

/// A text that is empty once trimmed.
pub open spec fn blank(s: Seq<char>) -> bool {
    forall|i: int| 0 <= i < s.len() ==> is_white(#[trigger] s[i])
}

/// `s` begins with `prefix`.
pub open spec fn starts_with(s: Seq<char>, prefix: Seq<char>) -> bool {
    prefix.len() <= s.len() && s.take(prefix.len() as int) == prefix
}

/// An identifier without a trailing "_power".
pub open spec fn namespace(id: Seq<char>) -> Seq<char> {
    let suffix = "_power"@;
    if suffix.len() <= id.len() && id.skip(id.len() - suffix.len()) == suffix {
        id.take(id.len() - suffix.len())
    } else {
        id
    }
}

/// No identifier occurs twice.
pub open spec fn unique(ids: Seq<Seq<char>>) -> bool {
    forall|i: int, j: int| 0 <= i < j < ids.len() ==> ids[i] != ids[j]
}

/// Some map carries `id`.
pub open spec fn has_map(maps: Seq<MapRecord>, id: Seq<char>) -> bool {
    exists|i: int| 0 <= i < maps.len() && (#[trigger] maps[i]).id@ == id
}

/// The four supported fluids.
pub open spec fn supported_fluid(id: Seq<char>) -> bool {
    id == "water"@ || id == "lava"@ || id == "steam"@ || id == "toxic_slurry"@
}

/// The enabled fluids are exactly the four supported ones.
pub open spec fn fluids_ok(r: ContentRegistry) -> bool {
    forall|id: Seq<char>| #[trigger] enabled_fluid(r, id) <==> supported_fluid(id)
}

/// The power classes a powered device may name.
pub open spec fn power_class_ok(c: Option<String>) -> bool {
    match c {
        Some(s) => s@ == "safety"@ || s@ == "transport"@ || s@ == "process"@ || s@ == "interface"@,
        None => false,
    }
}

/// A device record references a map, costs something, names a class when
/// powered and names an asset.
pub open spec fn device_ok(d: DeviceRecord, maps: Seq<MapRecord>) -> bool {
    &&& has_map(maps, d.showcase_map_id@)
    &&& d.fabrication_cost_fu > 0
    &&& d.power_demand_eu_per_tick > 0 ==> power_class_ok(d.power_class)
    &&& !blank(d.asset_id@)
}

/// The size of the first map carrying `id`, if any.
pub open spec fn map_size(maps: Seq<MapRecord>, id: Seq<char>) -> Option<(u16, u16)> {
    if exists|i: int| #[trigger] super::first_map(maps, id, i) {
        let i = choose|i: int| #[trigger] super::first_map(maps, id, i);
        Some((maps[i].width, maps[i].height))
    } else {
        None
    }
}

/// A point lies on a map of the given size (any point, when the map is unknown).
pub open spec fn inside(size: Option<(u16, u16)>, p: [u16; 2]) -> bool {
    match size {
        Some((w, h)) => p[0] < w && p[1] < h,
        None => true,
    }
}

/// A surge sets both its ticks and starts before it ends, or sets neither.
pub open spec fn surge_schedule_ok(m: MissionRecord) -> bool {
    match (m.surge_start_tick, m.surge_end_tick) {
        (Some(start), Some(end)) => start < end,
        (None, None) => true,
        _ => false,
    }
}

/// A mission record references a map, stays within the stock bound, has
/// positive deposits and power sources with assets placed on its map, has its
/// texts and a well-formed surge schedule.
pub open spec fn mission_ok(m: MissionRecord, maps: Seq<MapRecord>) -> bool {
    &&& has_map(maps, m.map_id@)
    &&& m.fabrication_start_fu <= 10_000
    &&& forall|k: int| 0 <= k < m.deposits@.len() ==> {
        &&& (#[trigger] m.deposits@[k]).yield_fu > 0
        &&& !blank(m.deposits@[k].asset_id@)
        &&& inside(map_size(maps, m.map_id@), m.deposits@[k].position)
    }
    &&& forall|k: int| 0 <= k < m.power_sources@.len() ==> {
        &&& (#[trigger] m.power_sources@[k]).output_eu_per_tick > 0
        &&& inside(map_size(maps, m.map_id@), m.power_sources@[k].position)
    }
    &&& !blank(m.briefing@) && !blank(m.objective@)
    &&& surge_schedule_ok(m)
}

/// Some mission carries sequence number `s`.
pub open spec fn has_sequence(missions: Seq<MissionRecord>, s: u8) -> bool {
    exists|i: int| 0 <= i < missions.len() && (#[trigger] missions[i]).sequence == s
}

/// The missions' sequence numbers are exactly 1, 2 and 3.
pub open spec fn sequences_ok(missions: Seq<MissionRecord>) -> bool {
    forall|s: u8| #[trigger] has_sequence(missions, s) <==> (s == 1 || s == 2 || s == 3)
}

/// A tutorial has its expected number of steps (14 for the first mission's, 5
/// otherwise), each in the tutorial's namespace.
pub open spec fn tutorial_ok(t: TutorialRecord) -> bool {
    &&& t.steps@.len() == if t.id@ == "tutorial_l01"@ { 14int } else { 5int }
    &&& forall|k: int| 0 <= k < t.steps@.len() ==> starts_with((#[trigger] t.steps@[k])@, namespace(t.id@))
}

/// A map has a size and a known kind.
pub open spec fn map_ok(m: MapRecord) -> bool {
    &&& m.width > 0 && m.height > 0
    &&& m.kind@ == "campaign"@ || m.kind@ == "fluid_lab"@ || m.kind@ == "device_showcase"@
}

/// Some entry of an error list reads `message`.
pub open spec fn reports(errors: Seq<String>, message: Seq<char>) -> bool {
    exists|j: int| 0 <= j < errors.len() && (#[trigger] errors[j])@ == message
}

/// The message for an identifier that an earlier one of its list repeats.
pub open spec fn duplicate_message(kind: Seq<char>, id: Seq<char>) -> Seq<char> {
    kind + " "@ + id + ": duplicate id"@
}

/// Every identifier of a list that an earlier one repeats is reported.
pub open spec fn duplicates_reported(errors: Seq<String>, kind: Seq<char>, ids: Seq<Seq<char>>) -> bool {
    forall|a: int, b: int|
        #![trigger ids[a], ids[b]]
        0 <= a < b < ids.len() && ids[a] == ids[b] ==> reports(errors, duplicate_message(kind, ids[b]))
}

/// Each failed check of a device record is reported by its message.
pub open spec fn device_reported(errors: Seq<String>, d: DeviceRecord, maps: Seq<MapRecord>) -> bool {
    &&& !has_map(maps, d.showcase_map_id@) ==> reports(
        errors,
        "device "@ + d.id@ + ": missing showcase map "@ + d.showcase_map_id@,
    )
    &&& d.fabrication_cost_fu == 0 ==> reports(errors, "device "@ + d.id@ + ": fabrication cost must be positive"@)
    &&& (d.power_demand_eu_per_tick > 0 && !power_class_ok(d.power_class)) ==> reports(
        errors,
        "device "@ + d.id@ + ": powered device needs a valid power class"@,
    )
    &&& blank(d.asset_id@) ==> reports(errors, "device "@ + d.id@ + ": asset_id must not be empty"@)
}

/// Each failed check of a map record is reported by its message.
pub open spec fn map_reported(errors: Seq<String>, m: MapRecord) -> bool {
    &&& (m.width == 0 || m.height == 0) ==> reports(errors, "map "@ + m.id@ + ": dimensions must be positive"@)
    &&& !(m.kind@ == "campaign"@ || m.kind@ == "fluid_lab"@ || m.kind@ == "device_showcase"@) ==> reports(
        errors,
        "map "@ + m.id@ + ": unknown kind "@ + m.kind@,
    )
}

/// Each failed check of a mission record's own fields is reported by its message.
pub open spec fn mission_reported(errors: Seq<String>, m: MissionRecord, maps: Seq<MapRecord>) -> bool {
    &&& !has_map(maps, m.map_id@) ==> reports(errors, "mission "@ + m.id@ + ": missing map "@ + m.map_id@)
    &&& m.fabrication_start_fu > 10_000 ==> reports(
        errors,
        "mission "@ + m.id@ + ": starting fabrication exceeds slice bound"@,
    )
    &&& (blank(m.briefing@) || blank(m.objective@)) ==> reports(
        errors,
        "mission "@ + m.id@ + ": briefing and objective are required"@,
    )
    &&& !surge_schedule_ok(m) ==> reports(
        errors,
        "mission "@ + m.id@ + ": surge schedule must set both ticks and start before it ends"@,
    )
}

/// The problems that a failed validation names, each by its message: the
/// content version, repeated top-level identifiers, the fluid set, each device,
/// the mission sequence, each mission's own fields and each map.
pub open spec fn problems_reported(r: ContentRegistry, errors: Seq<String>) -> bool {
    &&& blank(r.content_version@) ==> reports(errors, "content_version: must not be empty"@)
    &&& duplicates_reported(errors, "fluid"@, r.fluids@.map_values(|f: super::FluidRecord| f.id@))
    &&& duplicates_reported(errors, "device"@, r.devices@.map_values(|d: DeviceRecord| d.id@))
    &&& duplicates_reported(errors, "mission"@, r.missions@.map_values(|m: MissionRecord| m.id@))
    &&& duplicates_reported(errors, "tutorial"@, r.tutorials@.map_values(|t: TutorialRecord| t.id@))
    &&& duplicates_reported(errors, "map"@, r.maps@.map_values(|m: MapRecord| m.id@))
    &&& !fluids_ok(r) ==> reports(errors, "fluids: enabled slice set does not match the four supported materials"@)
    &&& forall|k: int| 0 <= k < r.devices@.len() ==> device_reported(errors, #[trigger] r.devices@[k], r.maps@)
    &&& !sequences_ok(r.missions@) ==> reports(
        errors,
        "missions.sequence: expected 1, 2, 3, got "@ + ("{"@ + comma_joined(present_below(r.missions@, 256)) + "}"@),
    )
    &&& forall|k: int| 0 <= k < r.missions@.len() ==> mission_reported(errors, #[trigger] r.missions@[k], r.maps@)
    &&& forall|k: int| 0 <= k < r.maps@.len() ==> map_reported(errors, #[trigger] r.maps@[k])
}

/// The whole registry is consistent.
pub open spec fn registry_valid(r: ContentRegistry) -> bool {
    &&& r.schema_version == 2
    &&& !blank(r.content_version@)
    &&& unique(r.fluids@.map_values(|f: super::FluidRecord| f.id@))
    &&& unique(r.devices@.map_values(|d: DeviceRecord| d.id@))
    &&& unique(r.missions@.map_values(|m: MissionRecord| m.id@))
    &&& unique(r.tutorials@.map_values(|t: TutorialRecord| t.id@))
    &&& unique(r.maps@.map_values(|m: MapRecord| m.id@))
    &&& forall|k: int| 0 <= k < r.missions@.len() ==> {
        &&& unique((#[trigger] r.missions@[k]).deposits@.map_values(|d: super::DepositRecord| d.id@))
        &&& unique(r.missions@[k].power_sources@.map_values(|p: super::PowerSourceRecord| p.id@))
    }
    &&& fluids_ok(r)
    &&& forall|k: int| 0 <= k < r.devices@.len() ==> device_ok(#[trigger] r.devices@[k], r.maps@)
    &&& sequences_ok(r.missions@)
    &&& forall|k: int| 0 <= k < r.missions@.len() ==> mission_ok(#[trigger] r.missions@[k], r.maps@)
    &&& forall|k: int| 0 <= k < r.tutorials@.len() ==> tutorial_ok(#[trigger] r.tutorials@[k])
    &&& forall|k: int| 0 <= k < r.maps@.len() ==> map_ok(#[trigger] r.maps@[k])
}

/// Whether a text is empty once trimmed.
pub fn is_blank(s: &String) -> (b: bool)
    ensures
        b == blank(s@),
{
    let chars = chars_of(s.as_str());
    let mut i: usize = 0;
    while i < chars.len()
        invariant
            i <= chars@.len(),
            chars@ == s@,
            forall|k: int| 0 <= k < i ==> is_white(#[trigger] chars@[k]),
        decreases chars@.len() - i,
    {
        let c = chars[i];
        let white = ('\u{9}' <= c && c <= '\u{d}') || c == ' ' || c == '\u{85}' || c == '\u{a0}' || c == '\u{1680}'
            || ('\u{2000}' <= c && c <= '\u{200a}') || c == '\u{2028}' || c == '\u{2029}' || c == '\u{202f}'
            || c == '\u{205f}' || c == '\u{3000}';
        if !white {
            return false;
        }
        i = i + 1;
    }
    true
}

/// Text made of two parts.
fn joined(a: &str, b: &str) -> (s: String)
    ensures
        s@ == a@ + b@,
{
    let mut s = a.to_owned();
    s.append(b);
    s
}

/// Append a message to an error list; what was reported stays reported.
fn report(errors: &mut Vec<String>, message: String)
    ensures
        final(errors)@ == old(errors)@.push(message),
        reports(final(errors)@, message@),
        forall|m: Seq<char>| reports(old(errors)@, m) ==> #[trigger] reports(final(errors)@, m),
{
    let ghost text = message;
    errors.push(message);
    proof {
        assert(errors@[errors@.len() - 1] == text);
        assert forall|m: Seq<char>| reports(old(errors)@, m) implies #[trigger] reports(errors@, m) by {
            let j = choose|j: int| 0 <= j < old(errors)@.len() && (#[trigger] old(errors)@[j])@ == m;
            assert(errors@[j] == old(errors)@[j]);
        }
    }
}

/// Text made of four parts.
fn joined4(a: &str, b: &str, c: &str, d: &str) -> (s: String)
    ensures
        s@ == a@ + b@ + c@ + d@,
{
    let mut s = a.to_owned();
    s.append(b);
    s.append(c);
    s.append(d);
    s
}

/// Report, for each identifier that an earlier one repeats, "{kind} {id}: duplicate id".
fn report_duplicates(kind: &str, ids: &Vec<String>, errors: &mut Vec<String>)
    ensures
        final(errors)@.len() >= old(errors)@.len(),
        forall|m: Seq<char>| reports(old(errors)@, m) ==> #[trigger] reports(final(errors)@, m),
        final(errors)@.len() == old(errors)@.len() <==> unique(ids@.map_values(|s: String| s@)),
        duplicates_reported(final(errors)@, kind@, ids@.map_values(|s: String| s@)),
{
    let ghost views = ids@.map_values(|s: String| s@);
    let mut i: usize = 0;
    while i < ids.len()
        invariant
            i <= ids@.len(),
            views == ids@.map_values(|s: String| s@),
            errors@.len() >= old(errors)@.len(),
            forall|m: Seq<char>| reports(old(errors)@, m) ==> #[trigger] reports(errors@, m),
            errors@.len() == old(errors)@.len() <==> forall|a: int, b: int| 0 <= a < b < i ==> views[a] != views[b],
            forall|a: int, b: int|
                #![trigger views[a], views[b]]
                0 <= a < b < i && views[a] == views[b] ==> reports(errors@, duplicate_message(kind@, views[b])),
        decreases ids@.len() - i,
    {
        let mut seen = false;
        let mut j: usize = 0;
        while j < i
            invariant
                j <= i < ids@.len(),
                views == ids@.map_values(|s: String| s@),
                seen == exists|a: int| 0 <= a < j && views[a] == views[i as int],
            decreases i - j,
        {
            proof {
                assert(views[j as int] == ids@[j as int]@);
                assert(views[i as int] == ids@[i as int]@);
            }
            if ids[j] == ids[i] {
                seen = true;
            }
            j = j + 1;
        }
        if seen {
            report(errors, joined4(kind, " ", ids[i].as_str(), ": duplicate id"));
            proof {
                assert(views[i as int] == ids@[i as int]@);
            }
        }
        i = i + 1;
    }
}

/// Whether some map carries `id`.
fn map_exists(maps: &Vec<MapRecord>, id: &String) -> (found: bool)
    ensures
        found == has_map(maps@, id@),
{
    let mut i: usize = 0;
    while i < maps.len()
        invariant
            i <= maps@.len(),
            forall|k: int| 0 <= k < i ==> (#[trigger] maps@[k]).id@ != id@,
        decreases maps@.len() - i,
    {
        if maps[i].id == *id {
            return true;
        }
        i = i + 1;
    }
    false
}

/// The identifiers of a list of fluid records.
fn fluid_ids(records: &Vec<super::FluidRecord>) -> (ids: Vec<String>)
    ensures
        ids@.map_values(|s: String| s@) == records@.map_values(|f: super::FluidRecord| f.id@),
{
    let mut ids: Vec<String> = Vec::new();
    let mut i: usize = 0;
    while i < records.len()
        invariant
            i <= records@.len(),
            ids@.len() == i,
            forall|k: int| 0 <= k < i ==> (#[trigger] ids@[k])@ == records@[k].id@,
        decreases records@.len() - i,
    {
        ids.push(records[i].id.clone());
        i = i + 1;
    }
    proof {
        assert(ids@.map_values(|s: String| s@) =~= records@.map_values(|f: super::FluidRecord| f.id@));
    }
    ids
}

/// The identifiers of a list of device records.
fn device_ids(records: &Vec<DeviceRecord>) -> (ids: Vec<String>)
    ensures
        ids@.map_values(|s: String| s@) == records@.map_values(|d: DeviceRecord| d.id@),
{
    let mut ids: Vec<String> = Vec::new();
    let mut i: usize = 0;
    while i < records.len()
        invariant
            i <= records@.len(),
            ids@.len() == i,
            forall|k: int| 0 <= k < i ==> (#[trigger] ids@[k])@ == records@[k].id@,
        decreases records@.len() - i,
    {
        ids.push(records[i].id.clone());
        i = i + 1;
    }
    proof {
        assert(ids@.map_values(|s: String| s@) =~= records@.map_values(|d: DeviceRecord| d.id@));
    }
    ids
}

/// The identifiers of a list of mission records.
fn mission_ids(records: &Vec<MissionRecord>) -> (ids: Vec<String>)
    ensures
        ids@.map_values(|s: String| s@) == records@.map_values(|m: MissionRecord| m.id@),
{
    let mut ids: Vec<String> = Vec::new();
    let mut i: usize = 0;
    while i < records.len()
        invariant
            i <= records@.len(),
            ids@.len() == i,
            forall|k: int| 0 <= k < i ==> (#[trigger] ids@[k])@ == records@[k].id@,
        decreases records@.len() - i,
    {
        ids.push(records[i].id.clone());
        i = i + 1;
    }
    proof {
        assert(ids@.map_values(|s: String| s@) =~= records@.map_values(|m: MissionRecord| m.id@));
    }
    ids
}

/// The identifiers of a list of tutorial records.
fn tutorial_ids(records: &Vec<TutorialRecord>) -> (ids: Vec<String>)
    ensures
        ids@.map_values(|s: String| s@) == records@.map_values(|t: TutorialRecord| t.id@),
{
    let mut ids: Vec<String> = Vec::new();
    let mut i: usize = 0;
    while i < records.len()
        invariant
            i <= records@.len(),
            ids@.len() == i,
            forall|k: int| 0 <= k < i ==> (#[trigger] ids@[k])@ == records@[k].id@,
        decreases records@.len() - i,
    {
        ids.push(records[i].id.clone());
        i = i + 1;
    }
    proof {
        assert(ids@.map_values(|s: String| s@) =~= records@.map_values(|t: TutorialRecord| t.id@));
    }
    ids
}

/// The identifiers of a list of map records.
fn map_ids(records: &Vec<MapRecord>) -> (ids: Vec<String>)
    ensures
        ids@.map_values(|s: String| s@) == records@.map_values(|m: MapRecord| m.id@),
{
    let mut ids: Vec<String> = Vec::new();
    let mut i: usize = 0;
    while i < records.len()
        invariant
            i <= records@.len(),
            ids@.len() == i,
            forall|k: int| 0 <= k < i ==> (#[trigger] ids@[k])@ == records@[k].id@,
        decreases records@.len() - i,
    {
        ids.push(records[i].id.clone());
        i = i + 1;
    }
    proof {
        assert(ids@.map_values(|s: String| s@) =~= records@.map_values(|m: MapRecord| m.id@));
    }
    ids
}

/// The identifiers of a list of deposit records.
fn deposit_ids(records: &Vec<super::DepositRecord>) -> (ids: Vec<String>)
    ensures
        ids@.map_values(|s: String| s@) == records@.map_values(|d: super::DepositRecord| d.id@),
{
    let mut ids: Vec<String> = Vec::new();
    let mut i: usize = 0;
    while i < records.len()
        invariant
            i <= records@.len(),
            ids@.len() == i,
            forall|k: int| 0 <= k < i ==> (#[trigger] ids@[k])@ == records@[k].id@,
        decreases records@.len() - i,
    {
        ids.push(records[i].id.clone());
        i = i + 1;
    }
    proof {
        assert(ids@.map_values(|s: String| s@) =~= records@.map_values(|d: super::DepositRecord| d.id@));
    }
    ids
}

/// The identifiers of a list of power source records.
fn power_source_ids(records: &Vec<super::PowerSourceRecord>) -> (ids: Vec<String>)
    ensures
        ids@.map_values(|s: String| s@) == records@.map_values(|p: super::PowerSourceRecord| p.id@),
{
    let mut ids: Vec<String> = Vec::new();
    let mut i: usize = 0;
    while i < records.len()
        invariant
            i <= records@.len(),
            ids@.len() == i,
            forall|k: int| 0 <= k < i ==> (#[trigger] ids@[k])@ == records@[k].id@,
        decreases records@.len() - i,
    {
        ids.push(records[i].id.clone());
        i = i + 1;
    }
    proof {
        assert(ids@.map_values(|s: String| s@) =~= records@.map_values(|p: super::PowerSourceRecord| p.id@));
    }
    ids
}

/// The registry's schema version and content version.
fn validate_schema(r: &ContentRegistry, errors: &mut Vec<String>)
    ensures
        final(errors)@.len() >= old(errors)@.len(),
        forall|m: Seq<char>| reports(old(errors)@, m) ==> #[trigger] reports(final(errors)@, m),
        final(errors)@.len() == old(errors)@.len() <==> (r.schema_version == 2 && !blank(r.content_version@)),
        blank(r.content_version@) ==> reports(final(errors)@, "content_version: must not be empty"@),
{
    if r.schema_version != 2 {
        let mut message = "schema_version: expected 2, got ".to_owned();
        push_decimal(&mut message, r.schema_version as u64);
        report(errors, message);
    }
    if is_blank(&r.content_version) {
        report(errors, "content_version: must not be empty".to_owned());
    }
}

/// Every identifier list of the registry, and of each mission's deposits and
/// power sources, is free of repeats.
fn validate_ids(r: &ContentRegistry, errors: &mut Vec<String>)
    ensures
        final(errors)@.len() >= old(errors)@.len(),
        forall|m: Seq<char>| reports(old(errors)@, m) ==> #[trigger] reports(final(errors)@, m),
        final(errors)@.len() == old(errors)@.len() <==> {
            &&& unique(r.fluids@.map_values(|f: super::FluidRecord| f.id@))
            &&& unique(r.devices@.map_values(|d: DeviceRecord| d.id@))
            &&& unique(r.missions@.map_values(|m: MissionRecord| m.id@))
            &&& unique(r.tutorials@.map_values(|t: TutorialRecord| t.id@))
            &&& unique(r.maps@.map_values(|m: MapRecord| m.id@))
            &&& forall|k: int| 0 <= k < r.missions@.len() ==> {
                &&& unique((#[trigger] r.missions@[k]).deposits@.map_values(|d: super::DepositRecord| d.id@))
                &&& unique(r.missions@[k].power_sources@.map_values(|p: super::PowerSourceRecord| p.id@))
            }
        },
        duplicates_reported(final(errors)@, "fluid"@, r.fluids@.map_values(|f: super::FluidRecord| f.id@)),
        duplicates_reported(final(errors)@, "device"@, r.devices@.map_values(|d: DeviceRecord| d.id@)),
        duplicates_reported(final(errors)@, "mission"@, r.missions@.map_values(|m: MissionRecord| m.id@)),
        duplicates_reported(final(errors)@, "tutorial"@, r.tutorials@.map_values(|t: TutorialRecord| t.id@)),
        duplicates_reported(final(errors)@, "map"@, r.maps@.map_values(|m: MapRecord| m.id@)),
{
    report_duplicates("fluid", &fluid_ids(&r.fluids), errors);
    report_duplicates("device", &device_ids(&r.devices), errors);
    report_duplicates("mission", &mission_ids(&r.missions), errors);
    report_duplicates("tutorial", &tutorial_ids(&r.tutorials), errors);
    report_duplicates("map", &map_ids(&r.maps), errors);
    let n5 = errors.len();
    let ghost entry = errors@;
    let mut k: usize = 0;
    while k < r.missions.len()
        invariant
            k <= r.missions@.len(),
            errors@.len() >= n5,
            forall|m: Seq<char>| reports(old(errors)@, m) ==> #[trigger] reports(errors@, m),
            forall|m: Seq<char>| reports(entry, m) ==> #[trigger] reports(errors@, m),
            errors@.len() == n5 <==> forall|j: int| 0 <= j < k ==> {
                &&& unique((#[trigger] r.missions@[j]).deposits@.map_values(|d: super::DepositRecord| d.id@))
                &&& unique(r.missions@[j].power_sources@.map_values(|p: super::PowerSourceRecord| p.id@))
            },
        decreases r.missions@.len() - k,
    {
        let mission = &r.missions[k];
        let deposit_kind = joined4("mission ", mission.id.as_str(), " deposit", "");
        report_duplicates(deposit_kind.as_str(), &deposit_ids(&mission.deposits), errors);
        let power_kind = joined4("mission ", mission.id.as_str(), " power source", "");
        report_duplicates(power_kind.as_str(), &power_source_ids(&mission.power_sources), errors);
        k = k + 1;
    }
}

/// Whether some enabled fluid carries `id`.
pub open spec fn enabled_fluid(r: ContentRegistry, id: Seq<char>) -> bool {
    exists|i: int| 0 <= i < r.fluids@.len() && (#[trigger] r.fluids@[i]).enabled && r.fluids@[i].id@ == id
}

/// Whether some enabled fluid reads `name`.
fn fluid_enabled(r: &ContentRegistry, name: &str) -> (found: bool)
    ensures
        found == enabled_fluid(*r, name@),
{
    let mut i: usize = 0;
    while i < r.fluids.len()
        invariant
            i <= r.fluids@.len(),
            forall|k: int| 0 <= k < i ==> !((#[trigger] r.fluids@[k]).enabled && r.fluids@[k].id@ == name@),
        decreases r.fluids@.len() - i,
    {
        if r.fluids[i].enabled && same_text(&r.fluids[i].id, name) {
            return true;
        }
        i = i + 1;
    }
    false
}

/// Whether a text names one of the four supported fluids.
fn is_supported_fluid(id: &String) -> (b: bool)
    ensures
        b == supported_fluid(id@),
{
    same_text(id, "water") || same_text(id, "lava") || same_text(id, "steam") || same_text(id, "toxic_slurry")
}

/// The enabled fluids are exactly the four supported ones.
fn validate_fluids(r: &ContentRegistry, errors: &mut Vec<String>)
    ensures
        final(errors)@.len() >= old(errors)@.len(),
        forall|m: Seq<char>| reports(old(errors)@, m) ==> #[trigger] reports(final(errors)@, m),
        final(errors)@.len() == old(errors)@.len() <==> (forall|id: Seq<char>| #[trigger] enabled_fluid(*r, id) <==> supported_fluid(id)),
        !fluids_ok(*r) ==> reports(final(errors)@, "fluids: enabled slice set does not match the four supported materials"@),
{
    let mut ok = fluid_enabled(r, "water") && fluid_enabled(r, "lava") && fluid_enabled(r, "steam") && fluid_enabled(
        r,
        "toxic_slurry",
    );
    let mut i: usize = 0;
    while i < r.fluids.len()
        invariant
            i <= r.fluids@.len(),
            ok == (enabled_fluid(*r, "water"@) && enabled_fluid(*r, "lava"@) && enabled_fluid(*r, "steam"@)
                && enabled_fluid(*r, "toxic_slurry"@) && forall|k: int|
                0 <= k < i && (#[trigger] r.fluids@[k]).enabled ==> supported_fluid(r.fluids@[k].id@)),
        decreases r.fluids@.len() - i,
    {
        if r.fluids[i].enabled && !is_supported_fluid(&r.fluids[i].id) {
            ok = false;
        }
        i = i + 1;
    }
    proof {
        if ok {
            assert forall|id: Seq<char>| #[trigger] enabled_fluid(*r, id) <==> supported_fluid(id) by {
                if enabled_fluid(*r, id) {
                    let k = choose|k: int| 0 <= k < r.fluids@.len() && (#[trigger] r.fluids@[k]).enabled && r.fluids@[k].id@ == id;
                    assert(supported_fluid(r.fluids@[k].id@));
                }
            }
        } else {
            if !(enabled_fluid(*r, "water"@) && enabled_fluid(*r, "lava"@) && enabled_fluid(*r, "steam"@)
                && enabled_fluid(*r, "toxic_slurry"@)) {
                assert(supported_fluid("water"@) && supported_fluid("lava"@) && supported_fluid("steam"@) && supported_fluid(
                    "toxic_slurry"@,
                ));
            } else {
                let k = choose|k: int| 0 <= k < r.fluids@.len() && (#[trigger] r.fluids@[k]).enabled && !supported_fluid(r.fluids@[k].id@);
                assert(enabled_fluid(*r, r.fluids@[k].id@));
            }
        }
    }
    if !ok {
        report(errors, "fluids: enabled slice set does not match the four supported materials".to_owned());
    }
}

/// Whether a powered device names a valid power class.
fn class_ok(c: &Option<String>) -> (b: bool)
    ensures
        b == power_class_ok(*c),
{
    match c {
        Some(s) => same_text(s, "safety") || same_text(s, "transport") || same_text(s, "process") || same_text(
            s,
            "interface",
        ),
        None => false,
    }
}

/// Each device references a showcase map, costs something, names a class when
/// powered and names an asset.
fn validate_devices(r: &ContentRegistry, errors: &mut Vec<String>)
    ensures
        final(errors)@.len() >= old(errors)@.len(),
        forall|m: Seq<char>| reports(old(errors)@, m) ==> #[trigger] reports(final(errors)@, m),
        final(errors)@.len() == old(errors)@.len() <==> forall|k: int| 0 <= k < r.devices@.len() ==> device_ok(#[trigger] r.devices@[k], r.maps@),
        forall|k: int| 0 <= k < r.devices@.len() ==> device_reported(final(errors)@, #[trigger] r.devices@[k], r.maps@),
{
    proof {
        reveal_strlit("");
    }
    let mut k: usize = 0;
    while k < r.devices.len()
        invariant
            k <= r.devices@.len(),
            errors@.len() >= old(errors)@.len(),
            forall|m: Seq<char>| reports(old(errors)@, m) ==> #[trigger] reports(errors@, m),
            errors@.len() == old(errors)@.len() <==> forall|j: int| 0 <= j < k ==> device_ok(#[trigger] r.devices@[j], r.maps@),
            forall|j: int| 0 <= j < k ==> device_reported(errors@, #[trigger] r.devices@[j], r.maps@),
            ""@ == Seq::<char>::empty(),
        decreases r.devices@.len() - k,
    {
        let device = &r.devices[k];
        if !map_exists(&r.maps, &device.showcase_map_id) {
            report(errors, joined4("device ", device.id.as_str(), ": missing showcase map ", device.showcase_map_id.as_str()));
        }
        if device.fabrication_cost_fu == 0 {
            report(errors, joined4("device ", device.id.as_str(), ": fabrication cost must be positive", ""));
        }
        if device.power_demand_eu_per_tick > 0 && !class_ok(&device.power_class) {
            report(errors, joined4("device ", device.id.as_str(), ": powered device needs a valid power class", ""));
        }
        if is_blank(&device.asset_id) {
            report(errors, joined4("device ", device.id.as_str(), ": asset_id must not be empty", ""));
        }
        k = k + 1;
    }
}

/// Whether some mission carries sequence number `s`.
fn sequence_present(missions: &Vec<MissionRecord>, s: u8) -> (found: bool)
    ensures
        found == has_sequence(missions@, s),
{
    let mut i: usize = 0;
    while i < missions.len()
        invariant
            i <= missions@.len(),
            forall|k: int| 0 <= k < i ==> (#[trigger] missions@[k]).sequence != s,
        decreases missions@.len() - i,
    {
        if missions[i].sequence == s {
            return true;
        }
        i = i + 1;
    }
    false
}

/// The size of the first map carrying `id`.
fn find_map_size(maps: &Vec<MapRecord>, id: &String) -> (size: Option<(u16, u16)>)
    ensures
        size == map_size(maps@, id@),
{
    let mut i: usize = 0;
    while i < maps.len()
        invariant
            i <= maps@.len(),
            forall|k: int| 0 <= k < i ==> (#[trigger] maps@[k]).id@ != id@,
        decreases maps@.len() - i,
    {
        if maps[i].id == *id {
            proof {
                assert(super::first_map(maps@, id@, i as int));
                let c = choose|c: int| #[trigger] super::first_map(maps@, id@, c);
                if c < i {
                    assert(maps@[c].id@ == id@);
                } else if c > i {
                    assert(maps@[i as int].id@ == id@);
                }
            }
            return Some((maps[i].width, maps[i].height));
        }
        i = i + 1;
    }
    proof {
        assert forall|c: int| !#[trigger] super::first_map(maps@, id@, c) by {
            if 0 <= c < maps@.len() {
                assert(maps@[c].id@ != id@);
            }
        }
    }
    None
}

/// Whether a point lies on a map of the given size.
fn point_inside(size: Option<(u16, u16)>, p: [u16; 2]) -> (b: bool)
    ensures
        b == inside(size, p),
{
    match size {
        Some((w, h)) => p[0] < w && p[1] < h,
        None => true,
    }
}

/// One mission's own checks.
fn mission_checks(m: &MissionRecord, maps: &Vec<MapRecord>, errors: &mut Vec<String>)
    ensures
        final(errors)@.len() >= old(errors)@.len(),
        forall|m: Seq<char>| reports(old(errors)@, m) ==> #[trigger] reports(final(errors)@, m),
        final(errors)@.len() == old(errors)@.len() <==> mission_ok(*m, maps@),
        mission_reported(final(errors)@, *m, maps@),
{
    proof {
        reveal_strlit("");
    }
    if !map_exists(maps, &m.map_id) {
        report(errors, joined4("mission ", m.id.as_str(), ": missing map ", m.map_id.as_str()));
    }
    if m.fabrication_start_fu > 10_000 {
        report(errors, joined4("mission ", m.id.as_str(), ": starting fabrication exceeds slice bound", ""));
    }
    let size = find_map_size(maps, &m.map_id);
    let before = errors.len();
    let ghost entry = errors@;
    let mut k: usize = 0;
    while k < m.deposits.len()
        invariant
            k <= m.deposits@.len(),
            forall|m: Seq<char>| reports(old(errors)@, m) ==> #[trigger] reports(errors@, m),
            forall|t: Seq<char>| reports(entry, t) ==> #[trigger] reports(errors@, t),
            size == map_size(maps@, m.map_id@),
            errors@.len() >= before,
            errors@.len() == before <==> forall|j: int| 0 <= j < k ==> {
                &&& (#[trigger] m.deposits@[j]).yield_fu > 0
                &&& !blank(m.deposits@[j].asset_id@)
                &&& inside(size, m.deposits@[j].position)
            },
        decreases m.deposits@.len() - k,
    {
        let deposit = &m.deposits[k];
        let head = joined4("mission ", m.id.as_str(), " deposit ", deposit.id.as_str());
        if deposit.yield_fu == 0 {
            report(errors, joined(head.as_str(), ": yield must be positive"));
        }
        if is_blank(&deposit.asset_id) {
            report(errors, joined(head.as_str(), ": asset_id must not be empty"));
        }
        if !point_inside(size, deposit.position) {
            report(errors, joined4(head.as_str(), ": position outside map ", m.map_id.as_str(), ""));
        }
        k = k + 1;
    }
    let middle = errors.len();
    let ghost entry = errors@;
    let mut k: usize = 0;
    while k < m.power_sources.len()
        invariant
            k <= m.power_sources@.len(),
            forall|m: Seq<char>| reports(old(errors)@, m) ==> #[trigger] reports(errors@, m),
            forall|t: Seq<char>| reports(entry, t) ==> #[trigger] reports(errors@, t),
            size == map_size(maps@, m.map_id@),
            errors@.len() >= middle,
            errors@.len() == middle <==> forall|j: int| 0 <= j < k ==> {
                &&& (#[trigger] m.power_sources@[j]).output_eu_per_tick > 0
                &&& inside(size, m.power_sources@[j].position)
            },
        decreases m.power_sources@.len() - k,
    {
        let source = &m.power_sources[k];
        let head = joined4("mission ", m.id.as_str(), " power source ", source.id.as_str());
        if source.output_eu_per_tick == 0 {
            report(errors, joined(head.as_str(), ": output must be positive"));
        }
        if !point_inside(size, source.position) {
            report(errors, joined4(head.as_str(), ": position outside map ", m.map_id.as_str(), ""));
        }
        k = k + 1;
    }
    if is_blank(&m.briefing) || is_blank(&m.objective) {
        report(errors, joined4("mission ", m.id.as_str(), ": briefing and objective are required", ""));
    }
    let schedule_ok = match (m.surge_start_tick, m.surge_end_tick) {
        (Some(start), Some(end)) => start < end,
        (None, None) => true,
        _ => false,
    };
    if !schedule_ok {
        report(errors, joined4("mission ", m.id.as_str(), ": surge schedule must set both ticks and start before it ends", ""));
    }
}

/// The decimal digits of each sequence number below `n` that some mission
/// carries, ascending.
pub open spec fn present_below(missions: Seq<MissionRecord>, n: int) -> Seq<Seq<char>>
    decreases n,
{
    if n <= 0 {
        seq![]
    } else if has_sequence(missions, (n - 1) as u8) {
        present_below(missions, n - 1).push(crate::text::decimal((n - 1) as nat))
    } else {
        present_below(missions, n - 1)
    }
}

/// Texts joined by ", ".
pub open spec fn comma_joined(items: Seq<Seq<char>>) -> Seq<char>
    decreases items.len(),
{
    if items.len() == 0 {
        seq![]
    } else if items.len() == 1 {
        items[0]
    } else {
        comma_joined(items.drop_last()) + ", "@ + items.last()
    }
}

/// The sequence numbers present, ascending, as "{1, 2, 3}".
fn sequence_list(missions: &Vec<MissionRecord>) -> (text: String)
    ensures
        text@ == "{"@ + comma_joined(present_below(missions@, 256)) + "}"@,
{
    let mut text = "{".to_owned();
    let mut first = true;
    let mut s: u16 = 0;
    while s < 256
        invariant
            s <= 256,
            text@ == "{"@ + comma_joined(present_below(missions@, s as int)),
            first == (present_below(missions@, s as int).len() == 0),
        decreases 256 - s,
    {
        let ghost items = present_below(missions@, s as int);
        if sequence_present(missions, s as u8) {
            if !first {
                text.append(", ");
            }
            push_decimal(&mut text, s as u64);
            first = false;
            proof {
                let next = items.push(crate::text::decimal(s as nat));
                assert(present_below(missions@, s as int + 1) == next);
                assert(next.drop_last() =~= items);
                if items.len() == 0 {
                    assert(comma_joined(next) == crate::text::decimal(s as nat));
                    assert(comma_joined(items) =~= seq![]);
                }
                assert(text@ =~= "{"@ + comma_joined(next));
            }
        }
        s = s + 1;
    }
    text.append("}");
    text
}

/// The missions' sequences are 1, 2 and 3, and each mission passes its checks.
fn validate_missions(r: &ContentRegistry, errors: &mut Vec<String>)
    ensures
        final(errors)@.len() >= old(errors)@.len(),
        forall|m: Seq<char>| reports(old(errors)@, m) ==> #[trigger] reports(final(errors)@, m),
        final(errors)@.len() == old(errors)@.len() <==> {
            &&& sequences_ok(r.missions@)
            &&& forall|k: int| 0 <= k < r.missions@.len() ==> mission_ok(#[trigger] r.missions@[k], r.maps@)
        },
        !sequences_ok(r.missions@) ==> reports(
            final(errors)@,
            "missions.sequence: expected 1, 2, 3, got "@ + ("{"@ + comma_joined(present_below(r.missions@, 256)) + "}"@),
        ),
        forall|k: int| 0 <= k < r.missions@.len() ==> mission_reported(final(errors)@, #[trigger] r.missions@[k], r.maps@),
{
    let mut only_expected = true;
    let mut s: u16 = 0;
    while s < 256
        invariant
            s <= 256,
            only_expected == forall|t: u8| t < s && #[trigger] has_sequence(r.missions@, t) ==> (t == 1 || t == 2 || t == 3),
        decreases 256 - s,
    {
        if s != 1 && s != 2 && s != 3 && sequence_present(&r.missions, s as u8) {
            only_expected = false;
        }
        s = s + 1;
    }
    let sequences_match = only_expected && sequence_present(&r.missions, 1) && sequence_present(&r.missions, 2)
        && sequence_present(&r.missions, 3);
    proof {
        if sequences_match {
            assert forall|t: u8| #[trigger] has_sequence(r.missions@, t) <==> (t == 1 || t == 2 || t == 3) by {
                assert(t < 256);
            }
        } else if !only_expected {
            let t = choose|t: u8| !(t < 256 && #[trigger] has_sequence(r.missions@, t) ==> (t == 1 || t == 2 || t == 3));
            assert(!(has_sequence(r.missions@, t) <==> (t == 1 || t == 2 || t == 3)));
        } else {
            assert(!has_sequence(r.missions@, 1) || !has_sequence(r.missions@, 2) || !has_sequence(r.missions@, 3));
        }
    }
    if !sequences_match {
        let list = sequence_list(&r.missions);
        report(errors, joined("missions.sequence: expected 1, 2, 3, got ", list.as_str()));
    }
    let before = errors.len();
    let ghost entry = errors@;
    let mut k: usize = 0;
    while k < r.missions.len()
        invariant
            k <= r.missions@.len(),
            errors@.len() >= before,
            forall|m: Seq<char>| reports(old(errors)@, m) ==> #[trigger] reports(errors@, m),
            forall|t: Seq<char>| reports(entry, t) ==> #[trigger] reports(errors@, t),
            forall|j: int| 0 <= j < k ==> mission_reported(errors@, #[trigger] r.missions@[j], r.maps@),
            errors@.len() == before <==> forall|j: int| 0 <= j < k ==> mission_ok(#[trigger] r.missions@[j], r.maps@),
        decreases r.missions@.len() - k,
    {
        mission_checks(&r.missions[k], &r.maps, errors);
        k = k + 1;
    }
}

/// Whether `s` begins with `prefix`.
fn has_prefix(s: &String, prefix: &Vec<char>) -> (b: bool)
    ensures
        b == starts_with(s@, prefix@),
{
    let chars = chars_of(s.as_str());
    if prefix.len() > chars.len() {
        return false;
    }
    let mut i: usize = 0;
    while i < prefix.len()
        invariant
            i <= prefix@.len() <= chars@.len(),
            chars@ == s@,
            forall|k: int| 0 <= k < i ==> chars@[k] == prefix@[k],
        decreases prefix@.len() - i,
    {
        if chars[i] != prefix[i] {
            return false;
        }
        i = i + 1;
    }
    proof {
        assert(s@.take(prefix@.len() as int) =~= prefix@);
    }
    true
}

/// An identifier without a trailing "_power".
fn namespace_of(id: &String) -> (ns: Vec<char>)
    ensures
        ns@ == namespace(id@),
{
    let chars = chars_of(id.as_str());
    let suffix = chars_of("_power");
    proof {
        reveal_strlit("_power");
    }
    if suffix.len() <= chars.len() {
        let start = chars.len() - suffix.len();
        let mut ends = true;
        let mut i: usize = 0;
        while i < suffix.len()
            invariant
                i <= suffix@.len(),
                start + suffix@.len() == chars@.len(),
                chars@.len() == chars.len(),
                chars@ == id@,
                suffix@ == "_power"@,
                ends == forall|k: int| 0 <= k < i ==> chars@[start + k] == suffix@[k],
            decreases suffix@.len() - i,
        {
            if chars[start + i] != suffix[i] {
                ends = false;
            }
            i = i + 1;
        }
        proof {
            if ends {
                assert(id@.skip(start as int) =~= "_power"@);
            } else {
                let k = choose|k: int| !(0 <= k < suffix@.len() ==> chars@[start + k] == suffix@[k]);
                assert(id@.skip(start as int)[k] != "_power"@[k]);
            }
        }
        if ends {
            let mut ns: Vec<char> = Vec::new();
            let mut j: usize = 0;
            while j < start
                invariant
                    j <= start <= chars@.len(),
                    ns@ == chars@.take(j as int),
                decreases start - j,
            {
                ns.push(chars[j]);
                proof {
                    assert(chars@.take(j as int + 1) =~= chars@.take(j as int).push(chars@[j as int]));
                }
                j = j + 1;
            }
            return ns;
        }
    }
    chars
}

/// Each tutorial has its expected number of namespaced steps.
fn validate_tutorials(r: &ContentRegistry, errors: &mut Vec<String>)
    ensures
        final(errors)@.len() >= old(errors)@.len(),
        forall|m: Seq<char>| reports(old(errors)@, m) ==> #[trigger] reports(final(errors)@, m),
        final(errors)@.len() == old(errors)@.len() <==> forall|k: int| 0 <= k < r.tutorials@.len() ==> tutorial_ok(#[trigger] r.tutorials@[k]),
{
    let mut k: usize = 0;
    while k < r.tutorials.len()
        invariant
            k <= r.tutorials@.len(),
            errors@.len() >= old(errors)@.len(),
            forall|m: Seq<char>| reports(old(errors)@, m) ==> #[trigger] reports(errors@, m),
            errors@.len() == old(errors)@.len() <==> forall|j: int| 0 <= j < k ==> tutorial_ok(#[trigger] r.tutorials@[j]),
        decreases r.tutorials@.len() - k,
    {
        let tutorial = &r.tutorials[k];
        let expected: usize = if same_text(&tutorial.id, "tutorial_l01") { 14 } else { 5 };
        let ns = namespace_of(&tutorial.id);
        let mut namespaced = true;
        let mut i: usize = 0;
        while i < tutorial.steps.len()
            invariant
                i <= tutorial.steps@.len(),
                ns@ == namespace(tutorial.id@),
                namespaced == forall|j: int| 0 <= j < i ==> starts_with((#[trigger] tutorial.steps@[j])@, ns@),
            decreases tutorial.steps@.len() - i,
        {
            if !has_prefix(&tutorial.steps[i], &ns) {
                namespaced = false;
            }
            i = i + 1;
        }
        if tutorial.steps.len() != expected || !namespaced {
            let mut message = joined("tutorial ", tutorial.id.as_str());
            message.append(": expected ");
            push_decimal(&mut message, expected as u64);
            message.append(" namespaced steps");
            report(errors, message);
        }
        k = k + 1;
    }
}

/// Each map has a size and a known kind.
fn validate_maps(r: &ContentRegistry, errors: &mut Vec<String>)
    ensures
        final(errors)@.len() >= old(errors)@.len(),
        forall|m: Seq<char>| reports(old(errors)@, m) ==> #[trigger] reports(final(errors)@, m),
        final(errors)@.len() == old(errors)@.len() <==> forall|k: int| 0 <= k < r.maps@.len() ==> map_ok(#[trigger] r.maps@[k]),
        forall|k: int| 0 <= k < r.maps@.len() ==> map_reported(final(errors)@, #[trigger] r.maps@[k]),
{
    proof {
        reveal_strlit("");
    }
    let mut k: usize = 0;
    while k < r.maps.len()
        invariant
            k <= r.maps@.len(),
            errors@.len() >= old(errors)@.len(),
            forall|m: Seq<char>| reports(old(errors)@, m) ==> #[trigger] reports(errors@, m),
            errors@.len() == old(errors)@.len() <==> forall|j: int| 0 <= j < k ==> map_ok(#[trigger] r.maps@[j]),
            forall|j: int| 0 <= j < k ==> map_reported(errors@, #[trigger] r.maps@[j]),
            ""@ == Seq::<char>::empty(),
        decreases r.maps@.len() - k,
    {
        let map = &r.maps[k];
        if map.width == 0 || map.height == 0 {
            report(errors, joined4("map ", map.id.as_str(), ": dimensions must be positive", ""));
        }
        if !(same_text(&map.kind, "campaign") || same_text(&map.kind, "fluid_lab") || same_text(&map.kind, "device_showcase")) {
            report(errors, joined4("map ", map.id.as_str(), ": unknown kind ", map.kind.as_str()));
        }
        k = k + 1;
    }
}

impl ContentRegistry {
    /// Check the registry's schema, unique identifiers, fluids, devices, missions,
    /// tutorials and maps. Every problem found is reported, in that order; none
    /// means the registry is valid.
    pub fn validate(&self) -> (result: Result<(), Vec<String>>)
        ensures
            result is Ok <==> registry_valid(*self),
            result matches Err(errors) ==> errors@.len() > 0,
            result matches Err(errors) ==> problems_reported(*self, errors@),
    {
        let mut errors: Vec<String> = Vec::new();
        validate_schema(self, &mut errors);
        validate_ids(self, &mut errors);
        validate_fluids(self, &mut errors);
        validate_devices(self, &mut errors);
        validate_missions(self, &mut errors);
        validate_tutorials(self, &mut errors);
        validate_maps(self, &mut errors);
        if errors.len() == 0 {
            Ok(())
        } else {
            Err(errors)
        }
    }
}

} // verus!
