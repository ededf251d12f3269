//! The rules behind the desktop app's commands: building rules from the
//! kinds the user interface names, importing many domains at once, turning
//! the schedule grid into a schedule, and checking setting values.

use vstd::prelude::*;
use crate::external::{lowercase, string_from_chars, to_lowercase};
use crate::hosts::{trim, trim_chars};
use crate::text::{chars_of, seq_eq};
use crate::types::{
    new_id, AppMatchType, AppRule, BlockList, ExceptionRule, ExceptionType, Schedule, TimeSlot,
    WebsiteMatchType, WebsiteRule, Weekday,
};

verus! {

/// The website rule kind named `kind` with the value `value`, or `None`
/// for a name the interface does not use.
pub open spec fn website_type_named(kind: Seq<char>, value: Seq<char>, mt: WebsiteMatchType) -> bool {
    if kind == "domain"@ {
        mt matches WebsiteMatchType::Domain(v) && v@ == value
    } else if kind == "keyword"@ {
        mt matches WebsiteMatchType::Keyword(v) && v@ == value
    } else if kind == "wildcard"@ {
        mt matches WebsiteMatchType::Wildcard(v) && v@ == value
    } else if kind == "url_path"@ {
        mt matches WebsiteMatchType::UrlPath(v) && v@ == value
    } else {
        kind == "entire_internet"@ && mt is EntireInternet
    }
}

/// The interface names this website rule kind.
pub open spec fn known_website_kind(kind: Seq<char>) -> bool {
    kind == "domain"@ || kind == "keyword"@ || kind == "wildcard"@ || kind == "url_path"@ || kind
        == "entire_internet"@
}

/// The error for a rule kind the interface does not use.
pub open spec fn unknown_rule_type(kind: Seq<char>) -> Seq<char> {
    "Unknown rule type: "@ + kind
}

fn unknown_rule_error(kind: &str) -> (r: String)
    ensures
        r@ == unknown_rule_type(kind@),
{
    let mut e = String::from_str("Unknown rule type: ");
    e.append(kind);
    e
}

/// An enabled website rule of the kind named `rule_type` ("domain",
/// "keyword", "wildcard", "url_path" or "entire_internet") for `value`.
pub fn website_rule_for(rule_type: &str, value: &str) -> (r: Result<WebsiteRule, String>)
    ensures
        match r {
            Ok(rule) => known_website_kind(rule_type@) && rule.enabled && website_type_named(
                rule_type@,
                value@,
                rule.match_type,
            ),
            Err(e) => !known_website_kind(rule_type@) && e@ == unknown_rule_type(rule_type@),
        },
{
    let k = chars_of(rule_type);
    if seq_eq(&k, &chars_of("domain")) {
        Ok(WebsiteRule::domain(value))
    } else if seq_eq(&k, &chars_of("keyword")) {
        Ok(WebsiteRule::keyword(value))
    } else if seq_eq(&k, &chars_of("wildcard")) {
        Ok(WebsiteRule::wildcard(value))
    } else if seq_eq(&k, &chars_of("url_path")) {
        Ok(WebsiteRule::url_path(value))
    } else if seq_eq(&k, &chars_of("entire_internet")) {
        Ok(WebsiteRule::entire_internet())
    } else {
        Err(unknown_rule_error(rule_type))
    }
}

/// The application rule kind named `kind` with the value `value`.
pub open spec fn app_type_named(kind: Seq<char>, value: Seq<char>, mt: AppMatchType) -> bool {
    if kind == "exe_name"@ {
        mt matches AppMatchType::ExecutableName(v) && v@ == value
    } else if kind == "exe_path"@ {
        mt matches AppMatchType::ExecutablePath(v) && v@ == value
    } else {
        kind == "window_title"@ && (mt matches AppMatchType::WindowTitle(v) && v@ == value)
    }
}

/// The interface names this application rule kind.
pub open spec fn known_app_kind(kind: Seq<char>) -> bool {
    kind == "exe_name"@ || kind == "exe_path"@ || kind == "window_title"@
}

/// An enabled application rule of the kind named `rule_type` ("exe_name",
/// "exe_path" or "window_title") for `value`.
pub fn app_rule_for(rule_type: &str, value: &str) -> (r: Result<AppRule, String>)
    ensures
        match r {
            Ok(rule) => known_app_kind(rule_type@) && rule.enabled && app_type_named(
                rule_type@,
                value@,
                rule.match_type,
            ),
            Err(e) => !known_app_kind(rule_type@) && e@ == unknown_rule_type(rule_type@),
        },
{
    let k = chars_of(rule_type);
    if seq_eq(&k, &chars_of("exe_name")) {
        Ok(AppRule::executable(value))
    } else if seq_eq(&k, &chars_of("exe_path")) {
        Ok(AppRule::path(value))
    } else if seq_eq(&k, &chars_of("window_title")) {
        Ok(AppRule::window_title(value))
    } else {
        Err(unknown_rule_error(rule_type))
    }
}

/// An enabled exception for `domain`: a glob pattern when `exception_type`
/// is "wildcard", a domain (with its subdomains) otherwise.
pub fn exception_for(exception_type: &str, domain: &str) -> (r: ExceptionRule)
    ensures
        r.enabled,
        exception_type@ == "wildcard"@ ==> (r.exception_type matches ExceptionType::Wildcard(p)
            && p@ == domain@),
        exception_type@ != "wildcard"@ ==> (r.exception_type matches ExceptionType::Domain(d) && d@
            == domain@),
{
    if seq_eq(&chars_of(exception_type), &chars_of("wildcard")) {
        ExceptionRule::wildcard(domain)
    } else {
        ExceptionRule::domain(domain)
    }
}

/// The value a website rule carries, if its kind has one.
pub open spec fn rule_value(mt: WebsiteMatchType) -> Option<Seq<char>> {
    match mt {
        WebsiteMatchType::Domain(v) => Some(v@),
        WebsiteMatchType::Keyword(v) => Some(v@),
        WebsiteMatchType::Wildcard(v) => Some(v@),
        WebsiteMatchType::UrlPath(v) => Some(v@),
        WebsiteMatchType::EntireInternet => None,
    }
}

/// Some rule of `ws` carries a value whose lowercase form is `t`.
pub open spec fn has_value(ws: Seq<WebsiteRule>, t: Seq<char>) -> bool {
    exists|i: int|
        0 <= i < ws.len() && #[trigger] rule_value(ws[i].match_type) is Some && lowercase(
            rule_value(ws[i].match_type)->0,
        ) == t
}

/// An imported line in normal form: trimmed, then lowercased.
pub open spec fn normalized(d: Seq<char>) -> Seq<char> {
    lowercase(trim(d))
}

/// The values a bulk import adds, in order, for the lines `es` on a list
/// whose rules are `ws0`: each normalized line that is not empty, not a
/// comment (`#`), and not already carried (in lowercase) by a rule, either
/// from before or added earlier in the same import.
pub open spec fn imported_values(ws0: Seq<WebsiteRule>, es: Seq<Seq<char>>) -> Seq<Seq<char>>
    decreases es.len(),
{
    if es.len() == 0 {
        seq![]
    } else {
        let a = imported_values(ws0, es.drop_last());
        let t = normalized(es.last());
        if t.len() > 0 && t[0] != '#' && !has_value(ws0, t) && !(exists|j: int|
            0 <= j < a.len() && lowercase(#[trigger] a[j]) == t) {
            a.push(t)
        } else {
            a
        }
    }
}

/// The rule kind a bulk import of kind `kind` creates for the value `t`:
/// keyword, wildcard or URL path when named so, a domain otherwise.
pub open spec fn bulk_type(kind: Seq<char>, t: Seq<char>, mt: WebsiteMatchType) -> bool {
    if kind == "keyword"@ {
        mt matches WebsiteMatchType::Keyword(v) && v@ == t
    } else if kind == "wildcard"@ {
        mt matches WebsiteMatchType::Wildcard(v) && v@ == t
    } else if kind == "url_path"@ {
        mt matches WebsiteMatchType::UrlPath(v) && v@ == t
    } else {
        mt matches WebsiteMatchType::Domain(v) && v@ == t
    }
}

fn bulk_rule(kind: &str, t: &str) -> (r: WebsiteRule)
    ensures
        r.enabled,
        bulk_type(kind@, t@, r.match_type),
{
    let k = chars_of(kind);
    if seq_eq(&k, &chars_of("keyword")) {
        WebsiteRule::keyword(t)
    } else if seq_eq(&k, &chars_of("wildcard")) {
        WebsiteRule::wildcard(t)
    } else if seq_eq(&k, &chars_of("url_path")) {
        WebsiteRule::url_path(t)
    } else {
        WebsiteRule::domain(t)
    }
}

fn rule_value_of(rule: &WebsiteRule) -> (r: Option<&String>)
    ensures
        match r {
            Some(v) => rule_value(rule.match_type) == Some(v@),
            None => rule_value(rule.match_type) is None,
        },
{
    match &rule.match_type {
        WebsiteMatchType::Domain(v) => Some(v),
        WebsiteMatchType::Keyword(v) => Some(v),
        WebsiteMatchType::Wildcard(v) => Some(v),
        WebsiteMatchType::UrlPath(v) => Some(v),
        WebsiteMatchType::EntireInternet => None,
    }
}

fn carries_value(ws: &Vec<WebsiteRule>, t: &Vec<char>) -> (r: bool)
    ensures
        r == has_value(ws@, t@),
{
    let mut i: usize = 0;
    while i < ws.len()
        invariant
            i <= ws@.len(),
            forall|j: int|
                0 <= j < i ==> !(#[trigger] rule_value(ws@[j].match_type) is Some && lowercase(
                    rule_value(ws@[j].match_type)->0,
                ) == t@),
        decreases ws@.len() - i,
    {
        match rule_value_of(&ws[i]) {
            Some(v) => {
                if seq_eq(&chars_of(to_lowercase(v.as_str()).as_str()), t) {
                    return true;
                }
            },
            None => {},
        }
        i = i + 1;
    }
    false
}

/// Imports the lines of `domains` into the list as rules of the kind named
/// `rule_type`, skipping empty lines, comments and values the list already
/// carries; returns how many rules were added.
pub fn bulk_import(list: &mut BlockList, domains: &Vec<String>, rule_type: &str) -> (added: u32)
    requires
        domains@.len() <= u32::MAX,
    ensures
        ({
            let vals = imported_values(
                old(list).websites@,
                domains@.map_values(|d: String| d@),
            );
            &&& added == vals.len()
            &&& final(list).websites@.len() == old(list).websites@.len() + vals.len()
            &&& final(list).websites@.take(old(list).websites@.len() as int) == old(
                list,
            ).websites@
            &&& forall|k: int|
                0 <= k < vals.len() ==> #[trigger] final(list).websites@[old(
                    list,
                ).websites@.len() + k].enabled && bulk_type(
                    rule_type@,
                    vals[k],
                    final(list).websites@[old(list).websites@.len() + k].match_type,
                )
        }),
        final(list).id == old(list).id,
        final(list).name == old(list).name,
        final(list).enabled == old(list).enabled,
        final(list).applications == old(list).applications,
        final(list).exceptions == old(list).exceptions,
        final(list).schedule == old(list).schedule,
{
    let ghost ws0 = list.websites@;
    let ghost es = domains@.map_values(|d: String| d@);
    let n0 = list.websites.len();
    let mut added: u32 = 0;
    let mut i: usize = 0;
    while i < domains.len()
        invariant
            i <= domains@.len(),
            domains@.len() <= u32::MAX,
            es == domains@.map_values(|d: String| d@),
            n0 == ws0.len(),
            ({
                let vals = imported_values(ws0, es.take(i as int));
                &&& added == vals.len()
                &&& added <= i
                &&& list.websites@.len() == ws0.len() + vals.len()
                &&& list.websites@.take(ws0.len() as int) == ws0
                &&& forall|k: int|
                    0 <= k < vals.len() ==> #[trigger] list.websites@[ws0.len() + k].enabled
                        && bulk_type(rule_type@, vals[k], list.websites@[ws0.len() + k].match_type)
            }),
            list.id == old(list).id,
            list.name == old(list).name,
            list.enabled == old(list).enabled,
            list.applications == old(list).applications,
            list.exceptions == old(list).exceptions,
            list.schedule == old(list).schedule,
        decreases domains@.len() - i,
    {
        let ghost vals = imported_values(ws0, es.take(i as int));
        let trimmed = trim_chars(&chars_of(domains[i].as_str()));
        let t = to_lowercase(string_from_chars(&trimmed).as_str());
        let tc = chars_of(t.as_str());
        proof {
            assert(es.take(i + 1).drop_last() =~= es.take(i as int));
            assert(es.take(i + 1).last() == domains@[i as int]@);
            assert(tc@ == normalized(es.take(i + 1).last()));
            // What the current rules carry is what the old rules and the
            // imported values carry.
            assert forall|x: Seq<char>| has_value(list.websites@, x) <==> (has_value(ws0, x)
                || exists|j: int| 0 <= j < vals.len() && lowercase(#[trigger] vals[j]) == x) by {
                let ws = list.websites@;
                if has_value(ws, x) {
                    let m = choose|m: int|
                        0 <= m < ws.len() && #[trigger] rule_value(ws[m].match_type) is Some
                            && lowercase(rule_value(ws[m].match_type)->0) == x;
                    if m < ws0.len() {
                        assert(ws0[m] == ws.take(ws0.len() as int)[m]);
                    } else {
                        let j = m - ws0.len();
                        assert(ws[ws0.len() + j].enabled);
                        assert(lowercase(vals[j]) == x);
                    }
                }
                if has_value(ws0, x) {
                    let m = choose|m: int|
                        0 <= m < ws0.len() && #[trigger] rule_value(ws0[m].match_type) is Some
                            && lowercase(rule_value(ws0[m].match_type)->0) == x;
                    assert(ws[m] == ws.take(ws0.len() as int)[m]);
                    assert(rule_value(ws[m].match_type) is Some);
                }
                if exists|j: int| 0 <= j < vals.len() && lowercase(#[trigger] vals[j]) == x {
                    let j = choose|j: int| 0 <= j < vals.len() && lowercase(#[trigger] vals[j]) == x;
                    assert(ws[ws0.len() + j].enabled);
                    assert(rule_value(ws[ws0.len() + j].match_type) is Some);
                }
            }
        }
        let take = if tc.len() == 0 || tc[0] == '#' {
            false
        } else {
            !carries_value(&list.websites, &tc)
        };
        if take {
            let rule = bulk_rule(rule_type, t.as_str());
            let ghost rg = rule;
            let ghost before = list.websites@;
            assert(forall|k: int|
                0 <= k < vals.len() ==> #[trigger] before[ws0.len() + k].enabled && bulk_type(
                    rule_type@,
                    vals[k],
                    before[ws0.len() + k].match_type,
                ));
            list.websites.push(rule);
            added = added + 1;
            proof {
                let nvals = vals.push(tc@);
                assert(!has_value(before, tc@));
                assert(!has_value(ws0, tc@));
                assert(!(exists|j: int| 0 <= j < vals.len() && lowercase(#[trigger] vals[j]) == tc@));
                assert(tc@.len() > 0 && tc@[0] != '#');
                assert(imported_values(ws0, es.take(i + 1)) == nvals);
                assert(list.websites@.take(ws0.len() as int) =~= before.take(ws0.len() as int));
                assert forall|k: int| 0 <= k < nvals.len() implies #[trigger] list.websites@[ws0.len()
                    + k].enabled && bulk_type(
                    rule_type@,
                    nvals[k],
                    list.websites@[ws0.len() + k].match_type,
                ) by {
                    assert(nvals[k] == if k < vals.len() {
                        vals[k]
                    } else {
                        tc@
                    });
                    if k < vals.len() {
                        assert(list.websites@[ws0.len() + k] == before[ws0.len() + k]);
                        assert(before[ws0.len() + k].enabled);
                    } else {
                        assert(list.websites@[ws0.len() + k] == rg);
                    }
                }
            }
        } else {
            assert(imported_values(ws0, es.take(i + 1)) == vals);
        }
        proof {
            let nv = imported_values(ws0, es.take(i + 1));
            assert(added == nv.len());
            assert(list.websites@.len() == ws0.len() + nv.len());
            assert(list.websites@.take(ws0.len() as int) == ws0);
            assert(forall|k: int|
                0 <= k < nv.len() ==> #[trigger] list.websites@[ws0.len() + k].enabled && bulk_type(
                    rule_type@,
                    nv[k],
                    list.websites@[ws0.len() + k].match_type,
                ));
        }
        i = i + 1;
    }
    assert(es.take(domains@.len() as int) =~= es);
    added
}

/// Input for one hour-long cell of the weekly schedule grid: the day as
/// the interface names it ("Mon" .. "Sun") and the hour of the day.
pub struct SlotInput {
    pub day: String,
    pub hour: u64,
}

/// The day named by the grid ("Mon" .. "Sun"), if any.
pub open spec fn day_named(day: Seq<char>) -> Option<Weekday> {
    if day == "Mon"@ {
        Some(Weekday::Mon)
    } else if day == "Tue"@ {
        Some(Weekday::Tue)
    } else if day == "Wed"@ {
        Some(Weekday::Wed)
    } else if day == "Thu"@ {
        Some(Weekday::Thu)
    } else if day == "Fri"@ {
        Some(Weekday::Fri)
    } else if day == "Sat"@ {
        Some(Weekday::Sat)
    } else if day == "Sun"@ {
        Some(Weekday::Sun)
    } else {
        None
    }
}

/// The time slot for one grid cell on day `d`: from the start of the hour
/// (taken modulo 2^32; midnight when that is not an hour of the day) to the
/// start of the next hour (wrapping to midnight after 23:00).
pub open spec fn slot_for(d: Weekday, hour: u64) -> TimeSlot {
    let h = hour as u32;
    TimeSlot {
        day: d,
        start: if h < 24 {
            (h * 3600) as u32
        } else {
            0
        },
        end: (((h + 1) % 24) * 3600) as u32,
    }
}

/// The slots for the grid cells, skipping cells whose day is not named.
pub open spec fn slots_for(cells: Seq<SlotInput>) -> Seq<TimeSlot>
    decreases cells.len(),
{
    if cells.len() == 0 {
        seq![]
    } else {
        let prev = slots_for(cells.drop_last());
        match day_named(cells.last().day@) {
            Some(d) => prev.push(slot_for(d, cells.last().hour)),
            None => prev,
        }
    }
}

/// Every cell with a named day has an hour whose successor fits in a `u32`.
pub open spec fn cells_in_range(cells: Seq<SlotInput>) -> bool {
    forall|i: int|
        0 <= i < cells.len() ==> day_named(#[trigger] cells[i].day@) is Some ==> (cells[i].hour as u32)
            < u32::MAX
}

fn day_from_name(day: &str) -> (r: Option<Weekday>)
    ensures
        r == day_named(day@),
{
    let d = chars_of(day);
    if seq_eq(&d, &chars_of("Mon")) {
        Some(Weekday::Mon)
    } else if seq_eq(&d, &chars_of("Tue")) {
        Some(Weekday::Tue)
    } else if seq_eq(&d, &chars_of("Wed")) {
        Some(Weekday::Wed)
    } else if seq_eq(&d, &chars_of("Thu")) {
        Some(Weekday::Thu)
    } else if seq_eq(&d, &chars_of("Fri")) {
        Some(Weekday::Fri)
    } else if seq_eq(&d, &chars_of("Sat")) {
        Some(Weekday::Sat)
    } else if seq_eq(&d, &chars_of("Sun")) {
        Some(Weekday::Sun)
    } else {
        None
    }
}

/// The schedule a list gets from the grid: none when the list is to be
/// always active; otherwise an enabled schedule named after the list with
/// one slot per grid cell whose day is named.
pub fn schedule_from_grid(
    list_name: &str,
    cells: &Vec<SlotInput>,
    always_active: Option<bool>,
) -> (r: Option<Schedule>)
    requires
        cells_in_range(cells@),
    ensures
        always_active == Some(true) ==> r is None,
        always_active != Some(true) ==> (r matches Some(s) && s.enabled && s.name@ == list_name@
            + " schedule"@ && s.time_slots@ == slots_for(cells@)),
{
    if always_active == Some(true) {
        return None;
    }
    let mut slots: Vec<TimeSlot> = Vec::new();
    let mut i: usize = 0;
    while i < cells.len()
        invariant
            i <= cells@.len(),
            cells_in_range(cells@),
            slots@ == slots_for(cells@.take(i as int)),
        decreases cells@.len() - i,
    {
        proof {
            assert(cells@.take(i + 1).drop_last() =~= cells@.take(i as int));
            assert(cells@.take(i + 1).last() == cells@[i as int]);
        }
        match day_from_name(cells[i].day.as_str()) {
            Some(day) => {
                let h: u32 = cells[i].hour as u32;
                assert(h < u32::MAX);
                let start: u32 = if h < 24 {
                    h * 3600
                } else {
                    0
                };
                let end: u32 = ((h + 1) % 24) * 3600;
                slots.push(TimeSlot { day, start, end });
            },
            None => {},
        }
        i = i + 1;
    }
    assert(cells@.take(cells@.len() as int) =~= cells@);
    let mut name = String::from_str(list_name);
    name.append(" schedule");
    Some(Schedule { id: new_id(), name, time_slots: slots, enabled: true })
}

/// The error for a retention period of zero days.
pub open spec fn retention_too_small() -> Seq<char> {
    "Retention period must be at least 1 day"@
}

/// The error for a retention period over a hundred years.
pub open spec fn retention_too_large() -> Seq<char> {
    "Retention period too large (max 36500 days)"@
}

/// Checks a statistics retention period: between 1 and 36500 days.
pub fn check_retention_days(days: u32) -> (r: Result<(), String>)
    ensures
        days == 0 ==> (r matches Err(e) && e@ == retention_too_small()),
        days > 36500 ==> (r matches Err(e) && e@ == retention_too_large()),
        1 <= days <= 36500 ==> r is Ok,
{
    if days == 0 {
        return Err(String::from_str("Retention period must be at least 1 day"));
    }
    if days > 36500 {
        return Err(String::from_str("Retention period too large (max 36500 days)"));
    }
    Ok(())
}

} // verus!
