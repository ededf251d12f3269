//! The decisions of the background blocking loop: when the heavy work runs,
//! whether blocking goes through the hosts file or the browser extension,
//! which domains the hosts file blocks, and which browser processes are
//! finally closed.

use vstd::prelude::*;
use crate::browser::{
    browser_of, identify_browser, spec_browser_at, spec_display_name, BrowserType, BROWSER_COUNT,
};
use crate::enforcement::RunningProcess;
use crate::hosts::{replace_section, spec_replace_section, string_views};
use crate::order::{insert_sorted, strictly_sorted, views_of};
use crate::text::{
    ascii_lower, chars_of, domain_or_subdomain, has_prefix, is_domain_or_subdomain, starts_with,
    to_ascii_lower,
};

verus! {

/// What the loop does with the hosts file on one heavy tick.
#[derive(Clone, Copy, Debug, PartialEq, Eq, Structural)]
pub enum HostsAction {
    /// An extension has just connected: remove the section and flush DNS.
    RemoveAll,
    /// An extension stays connected: keep the section empty.
    SyncEmpty,
    /// No extension is connected: write the blocked domains.
    SyncDomains,
}

/// The loop's own state between ticks.
pub struct BlockerState {
    pub was_using_hosts: bool,
    pub heavy_tick_counter: u8,
}

/// Every third tick of the one-second loop (by the wrapping counter) is heavy.
pub open spec fn heavy_tick(counter: u8) -> bool {
    ((counter as int + 1) % 256) % 3 == 0
}

/// The hosts-file action and whether the hosts file is in use afterwards.
pub open spec fn spec_hosts_step(was_using_hosts: bool, any_extension_connected: bool) -> (
    HostsAction,
    bool,
) {
    if any_extension_connected {
        if was_using_hosts {
            (HostsAction::RemoveAll, false)
        } else {
            (HostsAction::SyncEmpty, false)
        }
    } else {
        (HostsAction::SyncDomains, true)
    }
}

impl BlockerState {
    /// The state at start-up: the hosts file is taken to be in use.
    pub fn new() -> (r: BlockerState)
        ensures
            r.was_using_hosts,
            r.heavy_tick_counter == 0,
    {
        BlockerState { was_using_hosts: true, heavy_tick_counter: 0 }
    }

    /// Advances the tick counter (wrapping) and says whether this tick is heavy.
    pub fn tick(&mut self) -> (r: bool)
        ensures
            final(self).heavy_tick_counter as int == (old(self).heavy_tick_counter as int + 1) % 256,
            final(self).was_using_hosts == old(self).was_using_hosts,
            r == heavy_tick(old(self).heavy_tick_counter),
    {
        self.heavy_tick_counter = self.heavy_tick_counter.wrapping_add(1);
        self.heavy_tick_counter % 3 == 0
    }

    /// Decides what to do with the hosts file, given whether any browser
    /// extension is connected, and records whether the hosts file is in use.
    pub fn hosts_action(&mut self, any_extension_connected: bool) -> (r: HostsAction)
        ensures
            (r, final(self).was_using_hosts) == spec_hosts_step(
                old(self).was_using_hosts,
                any_extension_connected,
            ),
            final(self).heavy_tick_counter == old(self).heavy_tick_counter,
    {
        if any_extension_connected {
            if self.was_using_hosts {
                self.was_using_hosts = false;
                HostsAction::RemoveAll
            } else {
                HostsAction::SyncEmpty
            }
        } else {
            self.was_using_hosts = true;
            HostsAction::SyncDomains
        }
    }
}

/// `s` without a leading `www.`.
pub open spec fn strip_www(s: Seq<char>) -> Seq<char> {
    if has_prefix(s, "www."@) {
        s.skip(4)
    } else {
        s
    }
}

/// An allowance for one of `exemptions` covers the domain: the domain, in
/// ASCII lowercase and without a leading `www.`, is an exemption or a
/// subdomain of one.
pub open spec fn allowance_exempt(domain: Seq<char>, exemptions: Seq<Seq<char>>) -> bool {
    exists|i: int|
        0 <= i < exemptions.len() && is_domain_or_subdomain(
            strip_www(ascii_lower(domain)),
            #[trigger] exemptions[i],
        )
}

/// Each sequence in ASCII lowercase.
pub open spec fn ascii_lower_all(s: Seq<Seq<char>>) -> Seq<Seq<char>> {
    s.map_values(|x: Seq<char>| ascii_lower(x))
}

/// The characters of each string.
fn char_lists(v: &Vec<String>, lower: bool) -> (r: Vec<Vec<char>>)
    ensures
        r@.len() == v@.len(),
        forall|i: int|
            0 <= i < v@.len() ==> #[trigger] r@[i]@ == if lower {
                ascii_lower(v@[i]@)
            } else {
                v@[i]@
            },
{
    let mut r: Vec<Vec<char>> = Vec::new();
    let mut i: usize = 0;
    while i < v.len()
        invariant
            i <= v@.len(),
            r@.len() == i,
            forall|j: int|
                0 <= j < i ==> #[trigger] r@[j]@ == if lower {
                    ascii_lower(v@[j]@)
                } else {
                    v@[j]@
                },
        decreases v@.len() - i,
    {
        let c = chars_of(v[i].as_str());
        if lower {
            r.push(to_ascii_lower(&c));
        } else {
            r.push(c);
        }
        i = i + 1;
    }
    r
}

/// Whether an allowance for one of `exemptions` covers `domain`.
fn exempt(domain: &str, exemptions: &Vec<Vec<char>>) -> (r: bool)
    ensures
        r == allowance_exempt(domain@, exemptions@.map_values(|x: Vec<char>| x@)),
{
    let ghost ex = exemptions@.map_values(|x: Vec<char>| x@);
    let lc = to_ascii_lower(&chars_of(domain));
    let www = chars_of("www.");
    proof {
        reveal_strlit("www.");
    }
    let stripped = if starts_with(&lc, &www) {
        let mut t: Vec<char> = Vec::new();
        let mut k: usize = 4;
        while k < lc.len()
            invariant
                4 <= k <= lc@.len(),
                t@ == lc@.subrange(4, k as int),
            decreases lc@.len() - k,
        {
            t.push(lc[k]);
            k = k + 1;
            assert(t@ =~= lc@.subrange(4, k as int));
        }
        assert(t@ =~= lc@.skip(4));
        t
    } else {
        lc
    };
    let mut i: usize = 0;
    while i < exemptions.len()
        invariant
            i <= exemptions@.len(),
            ex == exemptions@.map_values(|x: Vec<char>| x@),
            stripped@ == strip_www(ascii_lower(domain@)),
            forall|j: int| 0 <= j < i ==> !is_domain_or_subdomain(stripped@, #[trigger] ex[j]),
        decreases exemptions@.len() - i,
    {
        if domain_or_subdomain(&stripped, &exemptions[i]) {
            assert(is_domain_or_subdomain(strip_www(ascii_lower(domain@)), ex[i as int]));
            return true;
        }
        i = i + 1;
    }
    false
}

/// Whether an allowance that is still available covers `domain`, comparing
/// against `exemptions` as given.
pub fn allowance_exempts(domain: &str, exemptions: &Vec<String>) -> (r: bool)
    ensures
        r == allowance_exempt(domain@, views_of(exemptions@)),
{
    let ex = char_lists(exemptions, false);
    assert(ex@.map_values(|x: Vec<char>| x@) =~= views_of(exemptions@));
    exempt(domain, &ex)
}

/// Whether `domain` counts as blocked, given whether the rule engine blocks
/// it: a domain covered by a still-available allowance is allowed.
pub fn domain_blocked_with_allowances(
    domain: &str,
    exemptions: &Vec<String>,
    engine_blocks: bool,
) -> (r: bool)
    ensures
        r == (!allowance_exempt(domain@, views_of(exemptions@)) && engine_blocks),
{
    if allowance_exempts(domain, exemptions) {
        false
    } else {
        engine_blocks
    }
}

/// A domain goes into the hosts file: it is blocked by a list or by an
/// exhausted allowance, and no still-available allowance (compared in ASCII
/// lowercase) covers it.
pub open spec fn hosts_candidate(
    y: Seq<char>,
    blocked: Seq<Seq<char>>,
    allowance_blocked: Seq<Seq<char>>,
    active_allowances: Seq<Seq<char>>,
) -> bool {
    (blocked.contains(y) || allowance_blocked.contains(y)) && !allowance_exempt(
        y,
        ascii_lower_all(active_allowances),
    )
}

/// `got` holds exactly the sequences of `pool` that no still-available
/// allowance covers.
pub open spec fn holds_unexempt(
    got: Seq<Seq<char>>,
    pool: Seq<Seq<char>>,
    exs: Seq<Seq<char>>,
) -> bool {
    forall|y: Seq<char>| #[trigger] got.contains(y) <==> (pool.contains(y) && !allowance_exempt(y, exs))
}

/// Adds to the sorted vector `r` each string of `src` that no exemption
/// covers.
fn add_unexempt(
    r: &mut Vec<String>,
    src: &Vec<String>,
    ex: &Vec<Vec<char>>,
    Ghost(base): Ghost<Seq<Seq<char>>>,
)
    requires
        strictly_sorted(views_of(old(r)@)),
        holds_unexempt(views_of(old(r)@), base, ex@.map_values(|x: Vec<char>| x@)),
    ensures
        strictly_sorted(views_of(final(r)@)),
        holds_unexempt(
            views_of(final(r)@),
            base + views_of(src@),
            ex@.map_values(|x: Vec<char>| x@),
        ),
{
    let ghost exs = ex@.map_values(|x: Vec<char>| x@);
    let mut i: usize = 0;
    assert(base + views_of(src@).take(0) =~= base);
    while i < src.len()
        invariant
            i <= src@.len(),
            exs == ex@.map_values(|x: Vec<char>| x@),
            strictly_sorted(views_of(r@)),
            holds_unexempt(views_of(r@), base + views_of(src@).take(i as int), exs),
        decreases src@.len() - i,
    {
        let d = src[i].clone();
        let ghost old_r = views_of(r@);
        let ghost pool0 = base + views_of(src@).take(i as int);
        let ghost pool1 = base + views_of(src@).take(i + 1);
        proof {
            assert(pool1 =~= pool0.push(d@));
        }
        let ex_d = exempt(d.as_str(), ex);
        let ghost dv = d@;
        if !ex_d {
            insert_sorted(r, d);
        }
        proof {
            assert forall|y: Seq<char>| #[trigger] views_of(r@).contains(y) <==> (pool1.contains(y)
                && !allowance_exempt(y, exs)) by {
                assert(old_r.contains(y) <==> (pool0.contains(y) && !allowance_exempt(y, exs)));
                if pool1.contains(y) && y != dv {
                    let k = choose|k: int| 0 <= k < pool1.len() && pool1[k] == y;
                    assert(k < pool0.len());
                    assert(pool0[k] == y);
                }
                if pool0.contains(y) {
                    let k = choose|k: int| 0 <= k < pool0.len() && pool0[k] == y;
                    assert(pool1[k] == y);
                }
                if y == dv {
                    assert(pool1[pool0.len() as int] == y);
                }
            }
        }
        i = i + 1;
    }
    assert(views_of(src@).take(src@.len() as int) =~= views_of(src@));
}

/// The domains the hosts file blocks, sorted without repeats: those blocked
/// by the lists and by exhausted allowances, less those covered by a
/// still-available allowance.
pub fn hosts_domains(
    blocked: &Vec<String>,
    allowance_blocked: &Vec<String>,
    active_allowances: &Vec<String>,
) -> (r: Vec<String>)
    ensures
        strictly_sorted(views_of(r@)),
        forall|y: Seq<char>|
            views_of(r@).contains(y) <==> hosts_candidate(
                y,
                views_of(blocked@),
                views_of(allowance_blocked@),
                views_of(active_allowances@),
            ),
{
    let ex = char_lists(active_allowances, true);
    let ghost exs = ascii_lower_all(views_of(active_allowances@));
    assert(ex@.map_values(|x: Vec<char>| x@) =~= exs);
    let mut r: Vec<String> = Vec::new();
    assert(views_of(r@) =~= Seq::<Seq<char>>::empty());
    add_unexempt(&mut r, blocked, &ex, Ghost(Seq::<Seq<char>>::empty()));
    let ghost b = Seq::<Seq<char>>::empty() + views_of(blocked@);
    add_unexempt(&mut r, allowance_blocked, &ex, Ghost(b));
    proof {
        let pool = b + views_of(allowance_blocked@);
        assert(b =~= views_of(blocked@));
        assert forall|y: Seq<char>| views_of(r@).contains(y) <==> hosts_candidate(
            y,
            views_of(blocked@),
            views_of(allowance_blocked@),
            views_of(active_allowances@),
        ) by {
            assert(views_of(r@).contains(y) <==> (pool.contains(y) && !allowance_exempt(y, exs)));
            if pool.contains(y) {
                let k = choose|k: int| 0 <= k < pool.len() && pool[k] == y;
                if k < b.len() {
                    assert(views_of(blocked@)[k] == y);
                } else {
                    assert(views_of(allowance_blocked@)[k - b.len()] == y);
                }
            }
            if views_of(blocked@).contains(y) {
                let k = choose|k: int| 0 <= k < views_of(blocked@).len() && views_of(blocked@)[k] == y;
                assert(pool[k] == y);
            }
            if views_of(allowance_blocked@).contains(y) {
                let k = choose|k: int|
                    0 <= k < views_of(allowance_blocked@).len() && views_of(allowance_blocked@)[k]
                        == y;
                assert(pool[k + b.len()] == y);
            }
        }
    }
    r
}

/// The hosts file content a heavy tick's hosts action leaves behind: the
/// Focuser section for `domains` when the domains are synced, and no
/// section when an extension is connected.
pub open spec fn spec_hosts_file_after(
    action: HostsAction,
    content: Seq<char>,
    domains: Seq<Seq<char>>,
) -> Seq<char> {
    match action {
        HostsAction::SyncDomains => spec_replace_section(content, domains),
        _ => spec_replace_section(content, Seq::<Seq<char>>::empty()),
    }
}

/// The hosts file `content` after a heavy tick's hosts action: when the
/// domains are synced, its Focuser section lists exactly the domains the
/// hosts file blocks, sorted and without repeats (what `hosts_domains`
/// gives); otherwise the section is removed.
pub fn hosts_file_after(
    action: HostsAction,
    content: &str,
    blocked: &Vec<String>,
    allowance_blocked: &Vec<String>,
    active_allowances: &Vec<String>,
) -> (r: String)
    ensures
        action == HostsAction::SyncDomains ==> exists|ds: Seq<Seq<char>>|
            {
                &&& strictly_sorted(ds)
                &&& forall|y: Seq<char>|
                    ds.contains(y) <==> hosts_candidate(
                        y,
                        views_of(blocked@),
                        views_of(allowance_blocked@),
                        views_of(active_allowances@),
                    )
                &&& r@ == spec_hosts_file_after(action, content@, ds)
            },
        action != HostsAction::SyncDomains ==> r@ == spec_hosts_file_after(
            action,
            content@,
            Seq::<Seq<char>>::empty(),
        ),
{
    match action {
        HostsAction::SyncDomains => {
            let ds = hosts_domains(blocked, allowance_blocked, active_allowances);
            let r = replace_section(content, ds.as_slice());
            proof {
                assert(string_views(ds@) =~= views_of(ds@));
                let w = views_of(ds@);
                assert(strictly_sorted(w));
                assert(r@ == spec_hosts_file_after(action, content@, w));
            }
            r
        },
        _ => {
            let none: Vec<String> = Vec::new();
            let r = replace_section(content, none.as_slice());
            proof {
                assert(string_views(none@) =~= Seq::<Seq<char>>::empty());
            }
            r
        },
    }
}

/// A process stays on the kill list: no process with its id belongs to a
/// browser whose extension has connected meanwhile.
pub open spec fn kill_confirmed(
    pid: u32,
    procs: Seq<RunningProcess>,
    fresh_connected: Seq<BrowserType>,
) -> bool {
    !exists|i: int|
        0 <= i < procs.len() && #[trigger] procs[i].pid == pid && match browser_of(procs[i].name@) {
            Some(bt) => fresh_connected.contains(bt),
            None => false,
        }
}

/// The ids of `pids` that stay on the kill list, in the same order.
pub open spec fn confirmed_kills(
    pids: Seq<u32>,
    procs: Seq<RunningProcess>,
    fresh_connected: Seq<BrowserType>,
) -> Seq<u32> {
    pids.filter(|pid: u32| kill_confirmed(pid, procs, fresh_connected))
}

/// The kill list without the processes of browsers whose extension has
/// connected since the list was drawn up, in the same order.
pub fn confirm_kills(
    procs: &[RunningProcess],
    pids: &Vec<u32>,
    fresh_connected: &Vec<BrowserType>,
) -> (r: Vec<u32>)
    ensures
        r@ == confirmed_kills(pids@, procs@, fresh_connected@),
{
    let ghost pred = |pid: u32| kill_confirmed(pid, procs@, fresh_connected@);
    let mut r: Vec<u32> = Vec::new();
    let mut i: usize = 0;
    while i < pids.len()
        invariant
            i <= pids@.len(),
            pred == (|pid: u32| kill_confirmed(pid, procs@, fresh_connected@)),
            r@ == pids@.take(i as int).filter(pred),
        decreases pids@.len() - i,
    {
        let pid = pids[i];
        let mut keep = true;
        let mut k: usize = 0;
        while k < procs.len()
            invariant
                k <= procs@.len(),
                keep == !exists|j: int|
                    0 <= j < k && #[trigger] procs@[j].pid == pid && match browser_of(
                        procs@[j].name@,
                    ) {
                        Some(bt) => fresh_connected@.contains(bt),
                        None => false,
                    },
            decreases procs@.len() - k,
        {
            if procs[k].pid == pid {
                match identify_browser(procs[k].name.as_str()) {
                    Some(info) => {
                        if crate::enforcement::contains_browser(fresh_connected, info.browser_type) {
                            keep = false;
                        }
                    },
                    None => {},
                }
            }
            k = k + 1;
        }
        proof {
            assert(pids@.take(i + 1).drop_last() =~= pids@.take(i as int));
            reveal_with_fuel(Seq::<u32>::filter, 1);
        }
        if keep {
            r.push(pid);
        }
        i = i + 1;
    }
    assert(pids@.take(pids@.len() as int) =~= pids@);
    r
}

/// Some name of `names`, in ASCII lowercase, is the process name in ASCII lowercase.
pub open spec fn app_listed(name: Seq<char>, names: Seq<Seq<char>>) -> bool {
    exists|i: int| 0 <= i < names.len() && ascii_lower(#[trigger] names[i]) == ascii_lower(name)
}

fn listed(name: &str, names: &Vec<String>) -> (r: bool)
    ensures
        r == app_listed(name@, views_of(names@)),
{
    let n = to_ascii_lower(&chars_of(name));
    let mut i: usize = 0;
    while i < names.len()
        invariant
            i <= names@.len(),
            n@ == ascii_lower(name@),
            forall|j: int| 0 <= j < i ==> ascii_lower(#[trigger] views_of(names@)[j]) != n@,
        decreases names@.len() - i,
    {
        if crate::text::seq_eq(&to_ascii_lower(&chars_of(names[i].as_str())), &n) {
            assert(ascii_lower(views_of(names@)[i as int]) == n@);
            return true;
        }
        i = i + 1;
    }
    false
}

/// Whether a process runs an application whose allowance is used up today
/// (names compared in ASCII lowercase).
pub fn allowance_blocks_app(process_name: &str, exhausted_apps: &Vec<String>) -> (r: bool)
    ensures
        r == app_listed(process_name@, views_of(exhausted_apps@)),
{
    listed(process_name, exhausted_apps)
}

/// Whether a process is to be closed because a block list blocks it: the
/// lists block it and no still-available allowance covers its name (names
/// compared in ASCII lowercase).
pub fn list_blocks_process(
    process_name: &str,
    allowance_apps: &Vec<String>,
    lists_block: bool,
) -> (r: bool)
    ensures
        r == (lists_block && !app_listed(process_name@, views_of(allowance_apps@))),
{
    lists_block && !listed(process_name, allowance_apps)
}

/// Whether a process may be terminated: not one of the system's first
/// process ids (0 to 4) and not Focuser itself.
pub fn may_terminate(pid: u32, own_pid: u32) -> (r: bool)
    ensures
        r == (pid > 4 && pid != own_pid),
{
    pid > 4 && pid != own_pid
}

/// What the dashboard shows for one browser family.
pub struct BrowserStatus {
    pub browser_type: BrowserType,
    pub display_name: &'static str,
    pub running: bool,
    pub extension_connected: bool,
}

/// The status of every known browser family, in the fixed order: whether
/// it is among the running ones and whether its extension is connected.
pub fn browser_statuses(running: &Vec<BrowserType>, connected: &Vec<BrowserType>) -> (r: Vec<
    BrowserStatus,
>)
    ensures
        r@.len() == BROWSER_COUNT,
        forall|i: int|
            0 <= i < BROWSER_COUNT ==> {
                &&& (#[trigger] r@[i]).browser_type == spec_browser_at(i)
                &&& r@[i].display_name@ == spec_display_name(spec_browser_at(i))
                &&& r@[i].running == running@.contains(spec_browser_at(i))
                &&& r@[i].extension_connected == connected@.contains(spec_browser_at(i))
            },
{
    let mut r: Vec<BrowserStatus> = Vec::new();
    let mut i: usize = 0;
    while i < BROWSER_COUNT
        invariant
            i <= BROWSER_COUNT,
            r@.len() == i,
            forall|j: int|
                0 <= j < i ==> {
                    &&& (#[trigger] r@[j]).browser_type == spec_browser_at(j)
                    &&& r@[j].display_name@ == spec_display_name(spec_browser_at(j))
                    &&& r@[j].running == running@.contains(spec_browser_at(j))
                    &&& r@[j].extension_connected == connected@.contains(spec_browser_at(j))
                },
        decreases BROWSER_COUNT - i,
    {
        let bt = BrowserType::from_index(i);
        r.push(
            BrowserStatus {
                browser_type: bt,
                display_name: bt.display_name(),
                running: crate::enforcement::contains_browser(running, bt),
                extension_connected: crate::enforcement::contains_browser(connected, bt),
            },
        );
        i = i + 1;
    }
    r
}

} // verus!
