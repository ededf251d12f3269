//! Properties of the blocking rules and of browser enforcement that hold
//! across inputs, calls and states, stated over the specifications that the
//! functions' contracts use.

use vstd::prelude::*;
use crate::blocker::{
    allowance_exempt, ascii_lower_all, hosts_candidate, strip_www, confirmed_kills, kill_confirmed, spec_hosts_file_after, spec_hosts_step, HostsAction,
};
use crate::block::{
    app_rule_blocks, exception_applies, exception_type_matches, website_rule_blocks,
    website_type_matches_domain,
};
use crate::browser::{browser_of, spec_browser_at, spec_browser_index, BrowserType, BROWSER_COUNT};
use crate::enforcement::{
    elapsed, grace_nanos, kill_list, kind_expires, kind_running, process_killed,
    spec_grace_remaining, step_grace, EnforcementView, RunningProcess,
};
use crate::commands::{day_named, has_value, imported_values, normalized, slot_for, slots_for, SlotInput};
use crate::external::lowercase;
use crate::schedule::slot_covers;
use crate::hosts::spec_replace_section;
use crate::text::{ascii_lower, is_domain_or_subdomain};
use crate::types::{
    BlockList, ExceptionType, LocalMoment, TimeSlot, WebsiteMatchType, WebsiteRule, Weekday,
};

verus! {

/// A schedule that is switched on and whose slots are all empty (each
/// starts where it ends) is in force at no moment, and neither is its
/// list: such a list blocks no domain and no application, whatever the time.
pub proof fn law_empty_slots_never_active(list: BlockList)
    requires
        list.schedule matches Some(s) && s.enabled && s.time_slots@.len() > 0 && forall|i: int|
            0 <= i < s.time_slots@.len() ==> #[trigger] s.time_slots@[i].start
                == s.time_slots@[i].end,
    ensures
        list.schedule->0.never_active(),
        list.never_active(),
{
    let s = list.schedule->0;
    assert forall|m: LocalMoment| m.wf() implies !#[trigger] s.spec_active_at(m) by {
        if s.some_slot_covers(m) {
            let i = choose|i: int|
                0 <= i < s.time_slots@.len() && #[trigger] s.time_slots@[i].day == m.day
                    && slot_covers(s.time_slots@[i], m.seconds);
            assert(s.time_slots@[i].start == s.time_slots@[i].end);
        }
    }
    assert forall|m: LocalMoment| m.wf() implies !#[trigger] list.spec_active_at(m) by {
        assert(!s.spec_active_at(m));
    }
}

/// A list that is switched off blocks no domain and no application, whatever
/// its rules and schedule.
pub proof fn law_disabled_list_blocks_nothing(
    list: BlockList,
    domain: Seq<char>,
    name: Seq<char>,
    exe_path: Option<Seq<char>>,
    window_title: Option<Seq<char>>,
    now: LocalMoment,
)
    requires
        !list.enabled,
    ensures
        !(list.spec_active_at(now) && list.spec_blocks_domain(domain)),
        !(list.spec_active_at(now) && list.spec_blocks_app(name, exe_path, window_title)),
{
}

/// A list without a schedule, with a switched-off schedule, or with a
/// schedule that has no time slots is in force exactly when it is switched on.
pub proof fn law_unscheduled_list_follows_switch(list: BlockList, now: LocalMoment)
    requires
        list.unscheduled(),
    ensures
        list.spec_active_at(now) == list.enabled,
{
}

/// Domain blocking does not depend on letter case: two domains with the
/// same lowercase form are blocked alike.
pub proof fn law_domain_case_insensitive(
    list: BlockList,
    d1: Seq<char>,
    d2: Seq<char>,
    now: LocalMoment,
)
    requires
        lowercase(d1) == lowercase(d2),
    ensures
        (list.spec_active_at(now) && list.spec_blocks_domain(d1)) == (list.spec_active_at(now)
            && list.spec_blocks_domain(d2)),
{
}

/// An enabled exception that lets a domain through wins over every rule.
pub proof fn law_exception_overrides_rules(list: BlockList, i: int, domain: Seq<char>)
    requires
        0 <= i < list.exceptions@.len(),
        exception_applies(list.exceptions@[i], lowercase(domain)),
    ensures
        !list.spec_blocks_domain(domain),
{
}

/// An enabled domain rule blocks its domain and every subdomain of it
/// (compared in lowercase), unless an exception lets the domain through.
pub proof fn law_domain_rule_blocks_subdomains(
    list: BlockList,
    i: int,
    d: String,
    domain: Seq<char>,
)
    requires
        0 <= i < list.websites@.len(),
        list.websites@[i].enabled,
        list.websites@[i].match_type == WebsiteMatchType::Domain(d),
        is_domain_or_subdomain(lowercase(domain), lowercase(d@)),
        !list.spec_excepted(lowercase(domain)),
    ensures
        list.spec_blocks_domain(domain),
{
    assert(website_rule_blocks(list.websites@[i], lowercase(domain)));
}

/// An enabled entire-internet rule blocks every domain that no exception
/// lets through.
pub proof fn law_entire_internet_blocks_everything_else(list: BlockList, i: int, domain: Seq<char>)
    requires
        0 <= i < list.websites@.len(),
        list.websites@[i].enabled,
        list.websites@[i].match_type is EntireInternet,
        !list.spec_excepted(lowercase(domain)),
    ensures
        list.spec_blocks_domain(domain),
{
    assert(website_type_matches_domain(list.websites@[i].match_type, lowercase(domain)));
    assert(website_rule_blocks(list.websites@[i], lowercase(domain)));
}

/// Some process of `part` with id `pid` is closed by the evaluation.
pub open spec fn killed_from(
    v: EnforcementView,
    procs: Seq<RunningProcess>,
    connected: Seq<BrowserType>,
    active: bool,
    now: u128,
    part: Seq<RunningProcess>,
    pid: u32,
) -> bool {
    exists|j: int|
        0 <= j < part.len() && part[j].pid == pid && process_killed(
            v,
            procs,
            connected,
            active,
            now,
            #[trigger] part[j],
        )
}

/// Every process id on a kill list belongs to a process of the list whose
/// evaluation closes it.
pub proof fn lemma_kill_list_members(
    v: EnforcementView,
    procs: Seq<RunningProcess>,
    connected: Seq<BrowserType>,
    active: bool,
    now: u128,
    part: Seq<RunningProcess>,
)
    ensures
        forall|k: int|
            0 <= k < kill_list(v, procs, connected, active, now, part).len() ==> killed_from(
                v,
                procs,
                connected,
                active,
                now,
                part,
                #[trigger] kill_list(v, procs, connected, active, now, part)[k],
            ),
    decreases part.len(),
{
    if part.len() > 0 {
        let prev = part.drop_last();
        lemma_kill_list_members(v, procs, connected, active, now, prev);
        let kl = kill_list(v, procs, connected, active, now, part);
        let kp = kill_list(v, procs, connected, active, now, prev);
        assert forall|k: int| 0 <= k < kl.len() implies killed_from(
            v,
            procs,
            connected,
            active,
            now,
            part,
            #[trigger] kl[k],
        ) by {
            if k < kp.len() {
                assert(kl[k] == kp[k]);
                assert(killed_from(v, procs, connected, active, now, prev, kp[k]));
                let j = choose|j: int|
                    0 <= j < prev.len() && prev[j].pid == kp[k] && process_killed(
                        v,
                        procs,
                        connected,
                        active,
                        now,
                        #[trigger] prev[j],
                    );
                assert(part[j] == prev[j]);
            } else {
                let j = part.len() - 1;
                assert(part[j] == part.last());
            }
        }
    }
}

/// A process that an evaluation closes is on the kill list.
pub proof fn lemma_kill_list_has(
    v: EnforcementView,
    procs: Seq<RunningProcess>,
    connected: Seq<BrowserType>,
    active: bool,
    now: u128,
    part: Seq<RunningProcess>,
    j: int,
)
    requires
        0 <= j < part.len(),
        process_killed(v, procs, connected, active, now, part[j]),
    ensures
        kill_list(v, procs, connected, active, now, part).contains(part[j].pid),
    decreases part.len(),
{
    let kl = kill_list(v, procs, connected, active, now, part);
    if j == part.len() - 1 {
        assert(kl[kl.len() - 1] == part[j].pid);
    } else {
        let prev = part.drop_last();
        assert(prev[j] == part[j]);
        lemma_kill_list_has(v, procs, connected, active, now, prev, j);
        let kp = kill_list(v, procs, connected, active, now, prev);
        let k = choose|k: int| 0 <= k < kp.len() && kp[k] == part[j].pid;
        assert(kl[k] == kp[k]);
    }
}

/// A browser whose extension is connected is never closed: every process an
/// evaluation closes belongs to a running browser family whose extension is
/// not connected and whose grace period, started earlier, has run its course.
pub proof fn law_only_expired_unconnected_browsers_closed(
    v: EnforcementView,
    procs: Seq<RunningProcess>,
    connected: Seq<BrowserType>,
    active: bool,
    now: u128,
    k: int,
)
    requires
        0 <= k < kill_list(v, procs, connected, active, now, procs).len(),
    ensures
        exists|j: int|
            0 <= j < procs.len() && procs[j].pid == kill_list(v, procs, connected, active, now, procs)[k]
                && browser_of(procs[j].name@) is Some && !connected.contains(
                browser_of(procs[j].name@)->0,
            ) && v.enabled && active && v.grace[spec_browser_index(browser_of(procs[j].name@)->0)] is Some
                && elapsed(v.grace[spec_browser_index(browser_of(procs[j].name@)->0)]->0, now)
                >= grace_nanos(v.grace_secs),
{
    lemma_kill_list_members(v, procs, connected, active, now, procs);
    let kl = kill_list(v, procs, connected, active, now, procs);
    assert(killed_from(v, procs, connected, active, now, procs, kl[k]));
    let j = choose|j: int|
        0 <= j < procs.len() && procs[j].pid == kl[k] && process_killed(
            v,
            procs,
            connected,
            active,
            now,
            #[trigger] procs[j],
        );
    assert(procs[j].pid == kl[k]);
}

/// The grace period at work: a running browser family without a connected
/// extension and without a grace period gets one starting at the first
/// evaluation; an evaluation at least the grace period later closes every
/// process of that family (while enforcement is on and blocks are active).
pub proof fn law_grace_starts_then_kills(
    v: EnforcementView,
    procs: Seq<RunningProcess>,
    connected: Seq<BrowserType>,
    t1: u128,
    t2: u128,
    bt: BrowserType,
    j: int,
)
    requires
        v.enabled,
        v.grace.len() == BROWSER_COUNT,
        kind_running(procs, bt),
        !connected.contains(bt),
        v.grace[spec_browser_index(bt)] is None,
        t1 <= t2,
        t2 - t1 >= grace_nanos(v.grace_secs),
        0 <= j < procs.len(),
        browser_of(procs[j].name@) == Some(bt),
    ensures
        step_grace(v, procs, connected, true, t1)[spec_browser_index(bt)] == Some(t1),
        kind_expires(
            EnforcementView { grace: step_grace(v, procs, connected, true, t1), ..v },
            procs,
            connected,
            true,
            t2,
            bt,
        ),
        kill_list(
            EnforcementView { grace: step_grace(v, procs, connected, true, t1), ..v },
            procs,
            connected,
            true,
            t2,
            procs,
        ).contains(procs[j].pid),
{
    assert(spec_browser_at(spec_browser_index(bt)) == bt);
    let v1 = EnforcementView { grace: step_grace(v, procs, connected, true, t1), ..v };
    assert(process_killed(v1, procs, connected, true, t2, procs[j]));
    lemma_kill_list_has(v1, procs, connected, true, t2, procs, j);
}

/// No browser family is closed by two evaluations in a row: an evaluation
/// that closes a family leaves it no grace period, so the next evaluation
/// (whatever its processes, connections and time) can only start a new one.
/// In particular an evaluation that finds no grace period running for a
/// family closes none of its processes, even with a grace period of zero.
pub proof fn law_no_family_closed_twice_in_a_row(
    v: EnforcementView,
    procs1: Seq<RunningProcess>,
    connected1: Seq<BrowserType>,
    active1: bool,
    now1: u128,
    procs2: Seq<RunningProcess>,
    connected2: Seq<BrowserType>,
    active2: bool,
    now2: u128,
    bt: BrowserType,
)
    requires
        v.wf(),
    ensures
        v.grace[spec_browser_index(bt)] is None ==> !kind_expires(
            v,
            procs1,
            connected1,
            active1,
            now1,
            bt,
        ),
        kind_expires(v, procs1, connected1, active1, now1, bt) ==> !kind_expires(
            EnforcementView {
                grace: step_grace(v, procs1, connected1, active1, now1),
                clock: now1,
                ..v
            },
            procs2,
            connected2,
            active2,
            now2,
            bt,
        ),
        kind_expires(v, procs1, connected1, active1, now1, bt) ==> forall|j: int|
            0 <= j < procs2.len() && browser_of(#[trigger] procs2[j].name@) == Some(bt)
                ==> !process_killed(
                EnforcementView {
                    grace: step_grace(v, procs1, connected1, active1, now1),
                    clock: now1,
                    ..v
                },
                procs2,
                connected2,
                active2,
                now2,
                procs2[j],
            ),
{
    assert(spec_browser_at(spec_browser_index(bt)) == bt);
}

/// No two processes of the snapshot share a process id.
pub open spec fn pids_unique(procs: Seq<RunningProcess>) -> bool {
    forall|i: int, j: int| 0 <= i < j < procs.len() ==> procs[i].pid != procs[j].pid
}

/// Over snapshots in which process ids are unique, two evaluations in a
/// row never both return the process id of a process of one browser
/// family.
pub proof fn law_no_family_pid_closed_twice_in_a_row(
    v: EnforcementView,
    procs1: Seq<RunningProcess>,
    connected1: Seq<BrowserType>,
    active1: bool,
    now1: u128,
    procs2: Seq<RunningProcess>,
    connected2: Seq<BrowserType>,
    active2: bool,
    now2: u128,
    bt: BrowserType,
    j1: int,
    j2: int,
)
    requires
        v.wf(),
        pids_unique(procs1),
        pids_unique(procs2),
        0 <= j1 < procs1.len(),
        0 <= j2 < procs2.len(),
        browser_of(procs1[j1].name@) == Some(bt),
        browser_of(procs2[j2].name@) == Some(bt),
    ensures
        !(kill_list(v, procs1, connected1, active1, now1, procs1).contains(procs1[j1].pid)
            && kill_list(
            EnforcementView {
                grace: step_grace(v, procs1, connected1, active1, now1),
                clock: now1,
                ..v
            },
            procs2,
            connected2,
            active2,
            now2,
            procs2,
        ).contains(procs2[j2].pid)),
{
    let v1 = EnforcementView {
        grace: step_grace(v, procs1, connected1, active1, now1),
        clock: now1,
        ..v
    };
    let kl1 = kill_list(v, procs1, connected1, active1, now1, procs1);
    let kl2 = kill_list(v1, procs2, connected2, active2, now2, procs2);
    if kl1.contains(procs1[j1].pid) && kl2.contains(procs2[j2].pid) {
        lemma_kill_list_members(v, procs1, connected1, active1, now1, procs1);
        lemma_kill_list_members(v1, procs2, connected2, active2, now2, procs2);
        let k1 = choose|k: int| 0 <= k < kl1.len() && kl1[k] == procs1[j1].pid;
        let k2 = choose|k: int| 0 <= k < kl2.len() && kl2[k] == procs2[j2].pid;
        assert(killed_from(v, procs1, connected1, active1, now1, procs1, kl1[k1]));
        assert(killed_from(v1, procs2, connected2, active2, now2, procs2, kl2[k2]));
        let i1 = choose|j: int|
            0 <= j < procs1.len() && procs1[j].pid == kl1[k1] && process_killed(
                v,
                procs1,
                connected1,
                active1,
                now1,
                #[trigger] procs1[j],
            );
        let i2 = choose|j: int|
            0 <= j < procs2.len() && procs2[j].pid == kl2[k2] && process_killed(
                v1,
                procs2,
                connected2,
                active2,
                now2,
                #[trigger] procs2[j],
            );
        assert(i1 == j1) by {
            if i1 < j1 {
                assert(procs1[i1].pid != procs1[j1].pid);
            } else if i1 > j1 {
                assert(procs1[j1].pid != procs1[i1].pid);
            }
        }
        assert(i2 == j2) by {
            if i2 < j2 {
                assert(procs2[i2].pid != procs2[j2].pid);
            } else if i2 > j2 {
                assert(procs2[j2].pid != procs2[i2].pid);
            }
        }
        law_no_family_closed_twice_in_a_row(
            v,
            procs1,
            connected1,
            active1,
            now1,
            procs2,
            connected2,
            active2,
            now2,
            bt,
        );
    }
}

/// Closing follows the grace period in time: a state reached by
/// evaluations holds only grace periods started by an evaluation already
/// made, and an evaluation (which never goes back in time) closes a browser
/// only where that family's grace period started at an earlier evaluation,
/// at least the whole grace period before.
pub proof fn law_closing_follows_grace_in_time(
    v: EnforcementView,
    procs: Seq<RunningProcess>,
    connected: Seq<BrowserType>,
    active: bool,
    now: u128,
    p: RunningProcess,
)
    requires
        v.wf(),
        now >= v.clock,
        process_killed(v, procs, connected, active, now, p),
    ensures
        browser_of(p.name@) is Some,
        v.grace[spec_browser_index(browser_of(p.name@)->0)] matches Some(start) && start
            <= v.clock && now - start >= grace_nanos(v.grace_secs),
{
    let bt = browser_of(p.name@)->0;
    let k = spec_browser_index(bt);
    assert(0 <= k < BROWSER_COUNT);
}

/// After an evaluation, grace periods run only for browser families that
/// are running without a connected extension.
pub proof fn law_grace_only_for_unconnected_running(
    v: EnforcementView,
    procs: Seq<RunningProcess>,
    connected: Seq<BrowserType>,
    active: bool,
    now: u128,
    bt: BrowserType,
)
    requires
        step_grace(v, procs, connected, active, now)[spec_browser_index(bt)] is Some,
    ensures
        kind_running(procs, bt),
        !connected.contains(bt),
        v.enabled && active,
{
    assert(spec_browser_at(spec_browser_index(bt)) == bt);
}

/// The remaining grace period never exceeds the configured grace period,
/// and there is none while enforcement is off.
pub proof fn law_grace_remaining_bounded(v: EnforcementView, bt: BrowserType, now: u128)
    ensures
        spec_grace_remaining(v, bt, now) matches Some(r) ==> r <= v.grace_secs,
        !v.enabled ==> spec_grace_remaining(v, bt, now) is None,
{
    if v.enabled {
        match v.grace[spec_browser_index(bt)] {
            Some(s) => {
                let g = grace_nanos(v.grace_secs);
                let e = elapsed(s, now);
                if e < g {
                    assert((g - e) / 1_000_000_000 <= v.grace_secs) by (nonlinear_arith)
                        requires
                            g == v.grace_secs * 1_000_000_000,
                            0 <= e < g,
                    ;
                }
            },
            None => {},
        }
    }
}

/// While an extension stays connected the hosts file is cleared once, on the
/// first heavy tick after the switch from hosts-file blocking, and kept
/// empty afterwards; without a connected extension the blocked domains are
/// written and the hosts file counts as in use.
pub proof fn law_extension_takes_over_hosts_file(was_using_hosts: bool)
    ensures
        spec_hosts_step(was_using_hosts, true).0 == (if was_using_hosts {
            HostsAction::RemoveAll
        } else {
            HostsAction::SyncEmpty
        }),
        spec_hosts_step(spec_hosts_step(was_using_hosts, true).1, true) == (
            HostsAction::SyncEmpty,
            false,
        ),
        spec_hosts_step(was_using_hosts, false) == (HostsAction::SyncDomains, true),
{
}

/// A bulk import adds no value twice as the import compares values: every
/// value it adds is a normalized line, none is carried (in lowercase) by a
/// rule the list had before, and none is the lowercase form of a value
/// added earlier in the same import.
pub proof fn law_bulk_import_adds_no_value_twice(ws0: Seq<WebsiteRule>, es: Seq<Seq<char>>)
    ensures
        forall|k: int|
            0 <= k < imported_values(ws0, es).len() ==> !has_value(
                ws0,
                #[trigger] imported_values(ws0, es)[k],
            ) && exists|i: int|
                0 <= i < es.len() && imported_values(ws0, es)[k] == normalized(es[i]),
        forall|j: int, k: int|
            0 <= j < k < imported_values(ws0, es).len() ==> lowercase(
                #[trigger] imported_values(ws0, es)[j],
            ) != #[trigger] imported_values(ws0, es)[k],
    decreases es.len(),
{
    if es.len() > 0 {
        let prev = es.drop_last();
        law_bulk_import_adds_no_value_twice(ws0, prev);
        let a = imported_values(ws0, prev);
        let v = imported_values(ws0, es);
        assert forall|k: int| 0 <= k < v.len() implies !has_value(ws0, #[trigger] v[k]) && exists|
            i: int,
        | 0 <= i < es.len() && v[k] == normalized(es[i]) by {
            if k < a.len() {
                assert(v[k] == a[k]);
                let i = choose|i: int| 0 <= i < prev.len() && a[k] == normalized(prev[i]);
                assert(es[i] == prev[i]);
            } else {
                assert(v[k] == normalized(es[es.len() - 1]));
            }
        }
        assert forall|j: int, k: int| 0 <= j < k < v.len() implies lowercase(#[trigger] v[j])
            != #[trigger] v[k] by {
            if k < a.len() {
                assert(v[j] == a[j] && v[k] == a[k]);
            } else {
                assert(v[j] == a[j]);
            }
        }
    }
}

/// Each element of a filtered sequence comes from the sequence.
proof fn lemma_filter_within<A>(s: Seq<A>, pred: spec_fn(A) -> bool, k: int)
    requires
        0 <= k < s.filter(pred).len(),
    ensures
        s.contains(s.filter(pred)[k]),
    decreases s.len(),
{
    reveal(Seq::filter);
    if s.len() > 0 {
        let p = s.drop_last();
        let fp = p.filter(pred);
        if k < fp.len() {
            lemma_filter_within(p, pred, k);
            let i = choose|i: int| 0 <= i < p.len() && p[i] == fp[k];
            assert(s[i] == p[i]);
            assert(s.filter(pred)[k] == fp[k]);
        } else {
            assert(s.filter(pred)[k] == s.last());
            assert(s[s.len() - 1] == s.last());
        }
    }
}

/// Closing a browser takes both checks: every process id that survives the
/// re-check after an evaluation belongs to a running browser process whose
/// family's extension was connected neither at the evaluation nor at the
/// re-check, and whose grace period had run its course.
pub proof fn law_closed_only_if_unconnected_at_both_checks(
    v: EnforcementView,
    procs: Seq<RunningProcess>,
    connected: Seq<BrowserType>,
    active: bool,
    now: u128,
    fresh_connected: Seq<BrowserType>,
    k: int,
)
    requires
        0 <= k < confirmed_kills(
            kill_list(v, procs, connected, active, now, procs),
            procs,
            fresh_connected,
        ).len(),
    ensures
        exists|j: int|
            0 <= j < procs.len() && procs[j].pid == confirmed_kills(
                kill_list(v, procs, connected, active, now, procs),
                procs,
                fresh_connected,
            )[k] && browser_of(procs[j].name@) is Some && !connected.contains(
                browser_of(procs[j].name@)->0,
            ) && !fresh_connected.contains(browser_of(procs[j].name@)->0) && kind_expires(
                v,
                procs,
                connected,
                active,
                now,
                browser_of(procs[j].name@)->0,
            ),
{
    let kl = kill_list(v, procs, connected, active, now, procs);
    let pred = |pid: u32| kill_confirmed(pid, procs, fresh_connected);
    let f = confirmed_kills(kl, procs, fresh_connected);
    assert(f == kl.filter(pred));
    kl.lemma_filter_pred(pred, k);
    lemma_filter_within(kl, pred, k);
    let pid = f[k];
    assert(kill_confirmed(pid, procs, fresh_connected));
    let m = choose|m: int| 0 <= m < kl.len() && kl[m] == pid;
    lemma_kill_list_members(v, procs, connected, active, now, procs);
    assert(killed_from(v, procs, connected, active, now, procs, kl[m]));
    let j = choose|j: int|
        0 <= j < procs.len() && procs[j].pid == kl[m] && process_killed(
            v,
            procs,
            connected,
            active,
            now,
            #[trigger] procs[j],
        );
    assert(procs[j].pid == pid);
}

/// The hosts file over one heavy tick: with no extension connected it is in
/// use and its Focuser section is written for the blocked domains; with an
/// extension connected it is no longer in use and the section is removed,
/// whether the extension has just connected or was connected before.
pub proof fn law_hosts_file_follows_extension(
    was_using_hosts: bool,
    any_extension_connected: bool,
    content: Seq<char>,
    domains: Seq<Seq<char>>,
)
    ensures
        !any_extension_connected ==> spec_hosts_step(was_using_hosts, any_extension_connected).1
            && spec_hosts_file_after(
            spec_hosts_step(was_using_hosts, any_extension_connected).0,
            content,
            domains,
        )
            == spec_replace_section(content, domains),
        any_extension_connected ==> !spec_hosts_step(was_using_hosts, any_extension_connected).1
            && spec_hosts_file_after(
            spec_hosts_step(was_using_hosts, any_extension_connected).0,
            content,
            domains,
        )
            == spec_replace_section(content, Seq::<Seq<char>>::empty()),
{
}

/// `x` is `d` itself, or `d` preceded by a dot at the end of a longer `x`
/// (a subdomain of `d`).
pub open spec fn names_domain_or_subdomain(x: Seq<char>, d: Seq<char>) -> bool {
    x == d || (x.len() > d.len() && x[x.len() - d.len() - 1] == '.' && x.subrange(
        x.len() - d.len(),
        x.len() as int,
    ) == d)
}

/// The subdomain test written with a suffix is the one written by hand.
proof fn lemma_domain_or_subdomain_by_hand(x: Seq<char>, d: Seq<char>)
    ensures
        is_domain_or_subdomain(x, d) <==> names_domain_or_subdomain(x, d),
{
    let dd = seq!['.'] + d;
    if x != d && x.len() > d.len() {
        let tail = x.subrange(x.len() - dd.len(), x.len() as int);
        if tail == dd {
            assert(tail[0] == x[x.len() - d.len() - 1]);
            assert(x.subrange(x.len() - d.len(), x.len() as int) =~= tail.subrange(1, tail.len() as int));
            assert(tail.subrange(1, tail.len() as int) =~= d);
        }
        if x[x.len() - d.len() - 1] == '.' && x.subrange(x.len() - d.len(), x.len() as int) == d {
            assert forall|j: int| 0 <= j < dd.len() implies tail[j] == dd[j] by {
                if j > 0 {
                    assert(tail[j] == x.subrange(x.len() - d.len(), x.len() as int)[j - 1]);
                }
            }
            assert(tail =~= dd);
        }
    }
}

/// A domain rule matches exactly its own domain and that domain's
/// subdomains, compared in lowercase: `x` matches the rule for `d` if and
/// only if `x` is `d` (lowercased) or ends with a dot followed by it. A
/// domain that merely ends in the same characters (`netflix.com` for
/// `x.com`) does not match. The same holds for a domain exception.
pub proof fn law_domain_rule_matches_domain_and_subdomains(d: String, x: Seq<char>)
    ensures
        website_type_matches_domain(WebsiteMatchType::Domain(d), x) <==> names_domain_or_subdomain(
            x,
            lowercase(d@),
        ),
        exception_type_matches(ExceptionType::Domain(d), x) <==> names_domain_or_subdomain(
            x,
            lowercase(d@),
        ),
{
    lemma_domain_or_subdomain_by_hand(x, lowercase(d@));
}

/// A list whose website rules are all domain rules blocks a domain (when in
/// force) only if some enabled rule names that domain, in lowercase, or a
/// domain of which it is a subdomain.
pub proof fn law_domain_rules_block_only_their_domains(list: BlockList, domain: Seq<char>)
    requires
        forall|i: int|
            0 <= i < list.websites@.len() ==> #[trigger] list.websites@[i].match_type is Domain,
        list.spec_blocks_domain(domain),
    ensures
        exists|i: int|
            0 <= i < list.websites@.len() && #[trigger] list.websites@[i].enabled
                && names_domain_or_subdomain(
                lowercase(domain),
                lowercase(list.websites@[i].match_type->Domain_0@),
            ),
{
    let dl = lowercase(domain);
    let i = choose|i: int|
        0 <= i < list.websites@.len() && website_rule_blocks(#[trigger] list.websites@[i], dl);
    let d = list.websites@[i].match_type->Domain_0;
    assert(list.websites@[i].match_type == WebsiteMatchType::Domain(d));
    law_domain_rule_matches_domain_and_subdomains(d, dl);
}

/// Rules that are switched off block nothing: a list none of whose
/// application rules is enabled blocks no process, one none of whose
/// website rules is enabled blocks no domain, and exceptions that are all
/// switched off let no domain through.
pub proof fn law_disabled_rules_block_nothing(
    list: BlockList,
    name: Seq<char>,
    exe_path: Option<Seq<char>>,
    window_title: Option<Seq<char>>,
    domain: Seq<char>,
)
    ensures
        (forall|i: int| 0 <= i < list.applications@.len() ==> !#[trigger] list.applications@[i].enabled)
            ==> !list.spec_blocks_app(name, exe_path, window_title),
        (forall|i: int| 0 <= i < list.websites@.len() ==> !#[trigger] list.websites@[i].enabled)
            ==> !list.spec_blocks_domain(domain),
        (forall|i: int| 0 <= i < list.exceptions@.len() ==> !#[trigger] list.exceptions@[i].enabled)
            ==> !list.spec_excepted(domain),
{
    if list.spec_blocks_app(name, exe_path, window_title) {
        let i = choose|i: int|
            0 <= i < list.applications@.len() && app_rule_blocks(
                #[trigger] list.applications@[i],
                name,
                exe_path,
                window_title,
            );
        assert(list.applications@[i].enabled);
    }
    if list.spec_blocks_domain(domain) {
        let dl = lowercase(domain);
        let i = choose|i: int|
            0 <= i < list.websites@.len() && website_rule_blocks(#[trigger] list.websites@[i], dl);
        assert(list.websites@[i].enabled);
    }
    if list.spec_excepted(domain) {
        let i = choose|i: int|
            0 <= i < list.exceptions@.len() && exception_applies(
                #[trigger] list.exceptions@[i],
                domain,
            );
        assert(list.exceptions@[i].enabled);
    }
}

/// A still-available allowance for `e` covers exactly `e` and its
/// subdomains: a domain is exempt from the hosts file if and only if, in
/// ASCII lowercase and without a leading `www.`, it is some allowance
/// domain or ends with a dot followed by one. A parent of an allowance
/// domain (`google.com` for `mail.google.com`) is not exempt.
pub proof fn law_allowance_covers_domain_and_subdomains(
    domain: Seq<char>,
    exemptions: Seq<Seq<char>>,
)
    ensures
        allowance_exempt(domain, exemptions) <==> exists|i: int|
            0 <= i < exemptions.len() && names_domain_or_subdomain(
                strip_www(ascii_lower(domain)),
                #[trigger] exemptions[i],
            ),
{
    let s = strip_www(ascii_lower(domain));
    assert forall|i: int| 0 <= i < exemptions.len() implies (is_domain_or_subdomain(
        s,
        #[trigger] exemptions[i],
    ) <==> names_domain_or_subdomain(s, exemptions[i])) by {
        lemma_domain_or_subdomain_by_hand(s, exemptions[i]);
    }
}

/// The hosts file blocks a domain exactly when the lists or an exhausted
/// allowance block it and no still-available allowance domain (in ASCII
/// lowercase) is that domain, or a domain it is a subdomain of, once the
/// domain is in ASCII lowercase without a leading `www.`.
pub proof fn law_hosts_keep_domains_not_covered(
    y: Seq<char>,
    blocked: Seq<Seq<char>>,
    allowance_blocked: Seq<Seq<char>>,
    active_allowances: Seq<Seq<char>>,
)
    ensures
        hosts_candidate(y, blocked, allowance_blocked, active_allowances) <==> ((blocked.contains(y)
            || allowance_blocked.contains(y)) && !exists|i: int|
            0 <= i < active_allowances.len() && names_domain_or_subdomain(
                strip_www(ascii_lower(y)),
                ascii_lower(#[trigger] active_allowances[i]),
            )),
{
    let exs = ascii_lower_all(active_allowances);
    law_allowance_covers_domain_and_subdomains(y, exs);
    let s = strip_www(ascii_lower(y));
    assert((exists|i: int|
        0 <= i < exs.len() && names_domain_or_subdomain(s, #[trigger] exs[i])) <==> (exists|i: int|
        0 <= i < active_allowances.len() && names_domain_or_subdomain(
            s,
            ascii_lower(#[trigger] active_allowances[i]),
        ))) by {
        if exists|i: int| 0 <= i < exs.len() && names_domain_or_subdomain(s, #[trigger] exs[i]) {
            let i = choose|i: int| 0 <= i < exs.len() && names_domain_or_subdomain(s, #[trigger] exs[i]);
            assert(exs[i] == ascii_lower(active_allowances[i]));
        }
        if exists|i: int|
            0 <= i < active_allowances.len() && names_domain_or_subdomain(
                s,
                ascii_lower(#[trigger] active_allowances[i]),
            ) {
            let i = choose|i: int|
                0 <= i < active_allowances.len() && names_domain_or_subdomain(
                    s,
                    ascii_lower(#[trigger] active_allowances[i]),
                );
            assert(exs[i] == ascii_lower(active_allowances[i]));
        }
    }
}

/// The name the schedule grid gives a day of the week.
pub open spec fn weekday_name(d: Weekday) -> Seq<char> {
    match d {
        Weekday::Mon => "Mon"@,
        Weekday::Tue => "Tue"@,
        Weekday::Wed => "Wed"@,
        Weekday::Thu => "Thu"@,
        Weekday::Fri => "Fri"@,
        Weekday::Sat => "Sat"@,
        Weekday::Sun => "Sun"@,
    }
}

/// A grid cell's text names the day `d` exactly when it is `d`'s name:
/// "Mon" is Monday, ..., "Sat" is Saturday and "Sun" is Sunday, and no
/// other text names a day.
pub proof fn law_grid_names_each_day(text: Seq<char>, d: Weekday)
    ensures
        day_named(text) == Some(d) <==> text == weekday_name(d),
        day_named(text) is None <==> forall|e: Weekday| text != #[trigger] weekday_name(e),
{
    reveal_strlit("Mon");
    reveal_strlit("Tue");
    reveal_strlit("Wed");
    reveal_strlit("Thu");
    reveal_strlit("Fri");
    reveal_strlit("Sat");
    reveal_strlit("Sun");
    assert("Mon"@ != "Tue"@ && "Mon"@ != "Wed"@ && "Mon"@ != "Thu"@ && "Mon"@ != "Fri"@
        && "Mon"@ != "Sat"@ && "Mon"@ != "Sun"@) by {
        assert("Mon"@[0] != "Tue"@[0] && "Mon"@[0] != "Wed"@[0] && "Mon"@[0] != "Thu"@[0]
            && "Mon"@[0] != "Fri"@[0] && "Mon"@[0] != "Sat"@[0] && "Mon"@[0] != "Sun"@[0]);
    }
    assert("Tue"@ != "Wed"@ && "Tue"@ != "Thu"@ && "Tue"@ != "Fri"@ && "Tue"@ != "Sat"@
        && "Tue"@ != "Sun"@) by {
        assert("Tue"@[1] != "Thu"@[1]);
        assert("Tue"@[0] != "Wed"@[0] && "Tue"@[0] != "Fri"@[0] && "Tue"@[0] != "Sat"@[0]
            && "Tue"@[0] != "Sun"@[0]);
    }
    assert("Wed"@ != "Thu"@ && "Wed"@ != "Fri"@ && "Wed"@ != "Sat"@ && "Wed"@ != "Sun"@) by {
        assert("Wed"@[0] != "Thu"@[0] && "Wed"@[0] != "Fri"@[0] && "Wed"@[0] != "Sat"@[0]
            && "Wed"@[0] != "Sun"@[0]);
    }
    assert("Thu"@ != "Fri"@ && "Thu"@ != "Sat"@ && "Thu"@ != "Sun"@) by {
        assert("Thu"@[0] != "Fri"@[0] && "Thu"@[0] != "Sat"@[0] && "Thu"@[0] != "Sun"@[0]);
    }
    assert("Fri"@ != "Sat"@ && "Fri"@ != "Sun"@) by {
        assert("Fri"@[0] != "Sat"@[0] && "Fri"@[0] != "Sun"@[0]);
    }
    assert("Sat"@ != "Sun"@) by {
        assert("Sat"@[1] != "Sun"@[1]);
    }
    if day_named(text) is None {
        assert forall|e: Weekday| text != #[trigger] weekday_name(e) by {}
    } else {
        let e = day_named(text)->0;
        assert(text == weekday_name(e));
    }
}

/// Each slot the schedule grid yields lies on the day its cell names, at
/// that cell's hour: for every slot there is a grid cell whose text is the
/// name of the slot's day and whose hour gives the slot's times.
pub proof fn law_grid_slots_on_named_days(cells: Seq<SlotInput>)
    ensures
        forall|k: int|
            0 <= k < slots_for(cells).len() ==> exists|i: int|
                0 <= i < cells.len() && cells[i].day@ == weekday_name(
                    #[trigger] slots_for(cells)[k].day,
                ) && slots_for(cells)[k] == slot_for(slots_for(cells)[k].day, cells[i].hour),
    decreases cells.len(),
{
    if cells.len() > 0 {
        let prev = cells.drop_last();
        law_grid_slots_on_named_days(prev);
        let sp = slots_for(prev);
        let sl = slots_for(cells);
        let c = cells.last();
        assert forall|k: int| 0 <= k < sl.len() implies exists|i: int|
            0 <= i < cells.len() && cells[i].day@ == weekday_name(#[trigger] sl[k].day) && sl[k]
                == slot_for(sl[k].day, cells[i].hour) by {
            if k < sp.len() {
                assert(sl[k] == sp[k]);
                let i = choose|i: int|
                    0 <= i < prev.len() && prev[i].day@ == weekday_name(#[trigger] sp[k].day)
                        && sp[k] == slot_for(sp[k].day, prev[i].hour);
                assert(cells[i] == prev[i]);
            } else {
                let d = day_named(c.day@)->0;
                assert(sl[k] == slot_for(d, c.hour));
                law_grid_names_each_day(c.day@, d);
                assert(cells[cells.len() - 1] == c);
            }
        }
    }
}

/// A running grace period keeps its start: while a browser family stays
/// running without a connected extension and its grace period, started at
/// `start`, has not yet run its course at `now`, an evaluation at `now`
/// leaves the start where it was and closes nothing of that family.
pub proof fn law_grace_start_kept(
    v: EnforcementView,
    procs: Seq<RunningProcess>,
    connected: Seq<BrowserType>,
    now: u128,
    bt: BrowserType,
    start: u128,
)
    requires
        v.enabled,
        v.grace.len() == BROWSER_COUNT,
        v.grace[spec_browser_index(bt)] == Some(start),
        kind_running(procs, bt),
        !connected.contains(bt),
        start <= now < start + v.grace_secs * 1_000_000_000,
    ensures
        step_grace(v, procs, connected, true, now)[spec_browser_index(bt)] == Some(start),
        !kind_expires(v, procs, connected, true, now, bt),
{
    assert(spec_browser_at(spec_browser_index(bt)) == bt);
}

/// The state after evaluations at the given times, one after the other,
/// over the same processes and connected extensions, with blocks active.
pub open spec fn evaluations(
    v: EnforcementView,
    procs: Seq<RunningProcess>,
    connected: Seq<BrowserType>,
    times: Seq<u128>,
) -> EnforcementView
    decreases times.len(),
{
    if times.len() == 0 {
        v
    } else {
        let w = evaluations(v, procs, connected, times.drop_last());
        EnforcementView {
            grace: step_grace(w, procs, connected, true, times.last()),
            clock: times.last(),
            ..w
        }
    }
}

/// A browser family first seen running without its extension at `t1` is
/// closed by an evaluation at any time `t2` at least the grace period
/// later, whatever evaluations came in between (all before `t2`'s closing
/// point, in time order): the grace period keeps the start `t1` throughout.
pub proof fn law_grace_runs_from_first_sighting(
    v: EnforcementView,
    procs: Seq<RunningProcess>,
    connected: Seq<BrowserType>,
    times: Seq<u128>,
    t2: u128,
    bt: BrowserType,
)
    requires
        v.enabled,
        v.grace.len() == BROWSER_COUNT,
        v.grace[spec_browser_index(bt)] is None,
        kind_running(procs, bt),
        !connected.contains(bt),
        times.len() >= 1,
        forall|i: int, j: int| 0 <= i <= j < times.len() ==> times[i] <= times[j],
        forall|i: int| 1 <= i < times.len() ==> #[trigger] times[i] < times[0] + v.grace_secs
            * 1_000_000_000,
        t2 >= times[0] + v.grace_secs * 1_000_000_000,
    ensures
        evaluations(v, procs, connected, times).grace[spec_browser_index(bt)] == Some(times[0]),
        kind_expires(evaluations(v, procs, connected, times), procs, connected, true, t2, bt),
    decreases times.len(),
{
    let k = spec_browser_index(bt);
    assert(spec_browser_at(k) == bt);
    let w = evaluations(v, procs, connected, times);
    if times.len() == 1 {
        let w0 = evaluations(v, procs, connected, times.drop_last());
        assert(times.drop_last().len() == 0);
        assert(w0 == v);
        assert(times.last() == times[0]);
    } else {
        let prev = times.drop_last();
        assert forall|i: int, j: int| 0 <= i <= j < prev.len() implies prev[i] <= prev[j] by {
            assert(prev[i] == times[i] && prev[j] == times[j]);
        }
        assert forall|i: int| 1 <= i < prev.len() implies #[trigger] prev[i] < prev[0]
            + v.grace_secs * 1_000_000_000 by {
            assert(prev[i] == times[i]);
        }
        law_grace_runs_from_first_sighting(v, procs, connected, prev, t2, bt);
        let w0 = evaluations(v, procs, connected, prev);
        assert(w0.grace.len() == BROWSER_COUNT && w0.enabled && w0.grace_secs == v.grace_secs) by {
            lemma_evaluations_keep_settings(v, procs, connected, prev);
        }
        let now = times.last();
        assert(now == times[times.len() - 1]);
        assert(times[0] <= now);
        law_grace_start_kept(w0, procs, connected, now, bt, times[0]);
    }
    lemma_evaluations_keep_settings(v, procs, connected, times);
}

/// Evaluations change only the grace periods and the clock.
proof fn lemma_evaluations_keep_settings(
    v: EnforcementView,
    procs: Seq<RunningProcess>,
    connected: Seq<BrowserType>,
    times: Seq<u128>,
)
    requires
        v.grace.len() == BROWSER_COUNT,
    ensures
        evaluations(v, procs, connected, times).grace.len() == BROWSER_COUNT,
        evaluations(v, procs, connected, times).enabled == v.enabled,
        evaluations(v, procs, connected, times).grace_secs == v.grace_secs,
    decreases times.len(),
{
    if times.len() > 0 {
        lemma_evaluations_keep_settings(v, procs, connected, times.drop_last());
    }
}

/// The times of day a slot covers: a daytime slot (start before end)
/// covers from its start up to, not including, its end; an overnight slot
/// (start after end) covers every time except those from its end up to its
/// start; a slot that starts where it ends covers nothing.
pub proof fn law_slot_covers_its_window(slot: TimeSlot, t: u32)
    ensures
        slot.start < slot.end ==> (slot_covers(slot, t) <==> slot.start <= t && t < slot.end),
        slot.start > slot.end ==> (slot_covers(slot, t) <==> !(slot.end <= t && t < slot.start)),
        slot.start == slot.end ==> !slot_covers(slot, t),
{
}

} // verus!
