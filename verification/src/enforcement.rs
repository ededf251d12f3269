//! Browser extension enforcement: browsers that run without the Focuser
//! extension connected get a grace period, after which they are closed.
//!
//! Time is counted in nanoseconds since the enforcement object was created.

use vstd::prelude::*;
use crate::browser::{
    browser_of, identify_browser, spec_browser_at, spec_browser_index, BrowserType, BROWSER_COUNT,
};
use crate::external::{duration_nanos, instant_elapsed, instant_now};

verus! {

/// A running process as the process list reports it.
pub struct RunningProcess {
    pub pid: u32,
    pub name: String,
    pub exe_path: Option<String>,
    pub window_title: Option<String>,
}

/// Nanoseconds in one second.
pub const NANOS_PER_SEC: u128 = 1_000_000_000;

/// The grace period in nanoseconds.
pub open spec fn grace_nanos(secs: u64) -> int {
    secs * 1_000_000_000
}

/// The time from `start` to `now`, or zero when `now` is earlier.
pub open spec fn elapsed(start: u128, now: u128) -> int {
    if now >= start {
        now - start
    } else {
        0
    }
}

/// Some process in the list belongs to the browser family.
pub open spec fn kind_running(procs: Seq<RunningProcess>, bt: BrowserType) -> bool {
    exists|i: int| 0 <= i < procs.len() && browser_of(#[trigger] procs[i].name@) == Some(bt)
}

/// The grace-period start of one browser family after an evaluation at `now`:
/// none while the family is not running or its extension is connected; it
/// starts at `now` if there was none; it ends when it has run its course.
pub open spec fn next_slot(
    old: Option<u128>,
    running: bool,
    connected: bool,
    now: u128,
    grace: int,
) -> Option<u128> {
    if !running || connected {
        None
    } else {
        match old {
            None => Some(now),
            Some(s) => if elapsed(s, now) >= grace {
                None
            } else {
                Some(s)
            },
        }
    }
}

/// The family's grace period has run its course at `now`, with the family
/// running and its extension not connected.
pub open spec fn slot_expires(
    old: Option<u128>,
    running: bool,
    connected: bool,
    now: u128,
    grace: int,
) -> bool {
    running && !connected && old is Some && elapsed(old->0, now) >= grace
}

/// The abstract state of the enforcement: the grace-period start of each
/// browser family (in the fixed family order), the grace period in seconds,
/// whether enforcement is switched on, and the time of the latest
/// evaluation (nanoseconds since creation), which never goes back.
pub struct EnforcementView {
    pub grace: Seq<Option<u128>>,
    pub grace_secs: u64,
    pub enabled: bool,
    pub clock: u128,
}

impl EnforcementView {
    /// One grace-period start per browser family, none of them later than
    /// the latest evaluation: each was set by an evaluation already made.
    pub open spec fn wf(self) -> bool {
        &&& self.grace.len() == BROWSER_COUNT
        &&& forall|k: int|
            0 <= k < BROWSER_COUNT ==> (#[trigger] self.grace[k] matches Some(s) ==> s
                <= self.clock)
    }
}

/// The time an evaluation asked for `now` goes by: `now`, or the latest
/// evaluation's time where `now` is earlier, so that time never goes back.
pub open spec fn later(clock: u128, now: u128) -> u128 {
    if now > clock {
        now
    } else {
        clock
    }
}

/// No family has a grace period running.
pub open spec fn no_grace() -> Seq<Option<u128>> {
    Seq::new(BROWSER_COUNT as nat, |k: int| None)
}

/// The grace-period starts after one evaluation.
pub open spec fn step_grace(
    v: EnforcementView,
    procs: Seq<RunningProcess>,
    connected: Seq<BrowserType>,
    active: bool,
    now: u128,
) -> Seq<Option<u128>> {
    if !v.enabled || !active {
        no_grace()
    } else {
        Seq::new(
            BROWSER_COUNT as nat,
            |k: int|
                next_slot(
                    v.grace[k],
                    kind_running(procs, spec_browser_at(k)),
                    connected.contains(spec_browser_at(k)),
                    now,
                    grace_nanos(v.grace_secs),
                ),
        )
    }
}

/// One evaluation at `now` closes the browsers of this family.
pub open spec fn kind_expires(
    v: EnforcementView,
    procs: Seq<RunningProcess>,
    connected: Seq<BrowserType>,
    active: bool,
    now: u128,
    bt: BrowserType,
) -> bool {
    v.enabled && active && slot_expires(
        v.grace[spec_browser_index(bt)],
        kind_running(procs, bt),
        connected.contains(bt),
        now,
        grace_nanos(v.grace_secs),
    )
}

/// One evaluation at `now` closes this process.
pub open spec fn process_killed(
    v: EnforcementView,
    procs: Seq<RunningProcess>,
    connected: Seq<BrowserType>,
    active: bool,
    now: u128,
    p: RunningProcess,
) -> bool {
    match browser_of(p.name@) {
        Some(bt) => kind_expires(v, procs, connected, active, now, bt),
        None => false,
    }
}

/// The process ids, in list order, among `part` that one evaluation at
/// `now` over `procs` closes.
pub open spec fn kill_list(
    v: EnforcementView,
    procs: Seq<RunningProcess>,
    connected: Seq<BrowserType>,
    active: bool,
    now: u128,
    part: Seq<RunningProcess>,
) -> Seq<u32>
    decreases part.len(),
{
    if part.len() == 0 {
        seq![]
    } else {
        kill_list(v, procs, connected, active, now, part.drop_last()) + if process_killed(
            v,
            procs,
            connected,
            active,
            now,
            part.last(),
        ) {
            seq![part.last().pid]
        } else {
            seq![]
        }
    }
}

/// The remaining grace period of a family at `now`, in whole seconds.
pub open spec fn spec_grace_remaining(v: EnforcementView, bt: BrowserType, now: u128) -> Option<u64> {
    if !v.enabled {
        None
    } else {
        match v.grace[spec_browser_index(bt)] {
            None => None,
            Some(s) => if elapsed(s, now) >= grace_nanos(v.grace_secs) {
                Some(0)
            } else {
                Some(((grace_nanos(v.grace_secs) - elapsed(s, now)) / 1_000_000_000) as u64)
            },
        }
    }
}

/// Enforces that browsers run with the Focuser extension connected.
pub struct BrowserEnforcement {
    grace_periods: Vec<Option<u128>>,
    grace_secs: u64,
    enabled: bool,
    clock: u128,
    epoch: std::time::Instant,
}

impl View for BrowserEnforcement {
    type V = EnforcementView;

    closed spec fn view(&self) -> EnforcementView {
        EnforcementView {
            grace: self.grace_periods@,
            grace_secs: self.grace_secs,
            enabled: self.enabled,
            clock: self.clock,
        }
    }
}

/// A vector with no grace period running.
fn cleared() -> (r: Vec<Option<u128>>)
    ensures
        r@ == no_grace(),
{
    let mut r: Vec<Option<u128>> = Vec::new();
    let mut i: usize = 0;
    while i < BROWSER_COUNT
        invariant
            i <= BROWSER_COUNT,
            r@ == Seq::new(i as nat, |k: int| None::<u128>),
        decreases BROWSER_COUNT - i,
    {
        r.push(None);
        i = i + 1;
        assert(r@ =~= Seq::new(i as nat, |k: int| None::<u128>));
    }
    r
}

/// Whether `bt` is in the list.
pub(crate) fn contains_browser(list: &Vec<BrowserType>, bt: BrowserType) -> (r: bool)
    ensures
        r == list@.contains(bt),
{
    let mut i: usize = 0;
    while i < list.len()
        invariant
            i <= list@.len(),
            forall|j: int| 0 <= j < i ==> list@[j] != bt,
        decreases list@.len() - i,
    {
        if list[i] == bt {
            return true;
        }
        i = i + 1;
    }
    false
}

/// Which browser families have a process in the list, in the fixed order.
fn running_kinds(procs: &[RunningProcess]) -> (r: Vec<bool>)
    ensures
        r@.len() == BROWSER_COUNT,
        forall|k: int|
            0 <= k < BROWSER_COUNT ==> #[trigger] r@[k] == kind_running(procs@, spec_browser_at(k)),
{
    let mut r: Vec<bool> = Vec::new();
    let mut k: usize = 0;
    while k < BROWSER_COUNT
        invariant
            k <= BROWSER_COUNT,
            r@.len() == k,
            forall|j: int| 0 <= j < k ==> !r@[j],
        decreases BROWSER_COUNT - k,
    {
        r.push(false);
        k = k + 1;
    }
    let mut i: usize = 0;
    while i < procs.len()
        invariant
            i <= procs@.len(),
            r@.len() == BROWSER_COUNT,
            forall|k: int|
                0 <= k < BROWSER_COUNT ==> #[trigger] r@[k] == exists|j: int|
                    0 <= j < i && browser_of(#[trigger] procs@[j].name@) == Some(spec_browser_at(k)),
        decreases procs@.len() - i,
    {
        match identify_browser(procs[i].name.as_str()) {
            Some(info) => {
                let idx = info.browser_type.index();
                r.set(idx, true);
                assert forall|k: int| 0 <= k < BROWSER_COUNT implies #[trigger] r@[k] == exists|j: int|
                    0 <= j < i + 1 && browser_of(#[trigger] procs@[j].name@) == Some(
                        spec_browser_at(k),
                    ) by {
                    if k == idx {
                        assert(browser_of(procs@[i as int].name@) == Some(spec_browser_at(k)));
                    } else {
                        assert(spec_browser_at(k) != info.browser_type);
                    }
                }
            },
            None => {},
        }
        i = i + 1;
    }
    r
}

impl BrowserEnforcement {
    #[verifier::type_invariant]
    spec fn inv(self) -> bool {
        &&& self.grace_periods@.len() == BROWSER_COUNT
        &&& forall|k: int|
            0 <= k < BROWSER_COUNT ==> (#[trigger] self.grace_periods@[k] matches Some(s) ==> s
                <= self.clock)
    }

    /// A new enforcement with the given grace period (in seconds), on or off,
    /// with no grace period running.
    pub fn new(grace_seconds: u64, enabled: bool) -> (r: Self)
        ensures
            r@ == (EnforcementView {
                grace: no_grace(),
                grace_secs: grace_seconds,
                enabled,
                clock: 0,
            }),
            r@.wf(),
    {
        BrowserEnforcement {
            grace_periods: cleared(),
            grace_secs: grace_seconds,
            enabled,
            clock: 0,
            epoch: instant_now(),
        }
    }

    /// Changes the grace period and the switch; switching off drops every
    /// running grace period.
    pub fn update_settings(&mut self, grace_seconds: u64, enabled: bool)
        ensures
            final(self)@ == (EnforcementView {
                grace: if enabled {
                    old(self)@.grace
                } else {
                    no_grace()
                },
                grace_secs: grace_seconds,
                enabled,
                clock: old(self)@.clock,
            }),
            final(self)@.wf(),
    {
        proof {
            use_type_invariant(&*self);
        }
        self.grace_secs = grace_seconds;
        self.enabled = enabled;
        if !enabled {
            self.grace_periods = cleared();
        }
    }

    /// Evaluates the running processes at `now` (nanoseconds since creation;
    /// a time earlier than the latest evaluation counts as that evaluation's
    /// time) and returns the ids of the browser processes to close.
    pub fn evaluate_at(
        &mut self,
        running_processes: &[RunningProcess],
        connected_extensions: &Vec<BrowserType>,
        has_active_blocks: bool,
        now: u128,
    ) -> (r: Vec<u32>)
        ensures
            final(self)@ == (EnforcementView {
                grace: step_grace(
                    old(self)@,
                    running_processes@,
                    connected_extensions@,
                    has_active_blocks,
                    later(old(self)@.clock, now),
                ),
                clock: later(old(self)@.clock, now),
                ..old(self)@
            }),
            final(self)@.wf(),
            r@ == kill_list(
                old(self)@,
                running_processes@,
                connected_extensions@,
                has_active_blocks,
                later(old(self)@.clock, now),
                running_processes@,
            ),
    {
        proof {
            use_type_invariant(&*self);
        }
        let now: u128 = if now > self.clock {
            now
        } else {
            self.clock
        };
        let ghost v0 = self@;
        self.clock = now;
        let ghost procs = running_processes@;
        let ghost conn = connected_extensions@;
        if !self.enabled || !has_active_blocks {
            self.grace_periods = cleared();
            proof {
                assert forall|n: int| 0 <= n <= procs.len() implies kill_list(
                    v0,
                    procs,
                    conn,
                    has_active_blocks,
                    now,
                    #[trigger] procs.take(n),
                ) == Seq::<u32>::empty() by {
                    lemma_kill_list_none(v0, procs, conn, has_active_blocks, now, n);
                }
                assert(procs.take(procs.len() as int) =~= procs);
            }
            return Vec::new();
        }
        let grace_ns: u128 = (self.grace_secs as u128) * NANOS_PER_SEC;
        let running = running_kinds(running_processes);
        let mut next: Vec<Option<u128>> = Vec::new();
        let mut expires: Vec<bool> = Vec::new();
        let mut k: usize = 0;
        while k < BROWSER_COUNT
            invariant
                k <= BROWSER_COUNT,
                self.grace_periods@ == v0.grace,
                self.grace_secs == v0.grace_secs,
                v0.grace.len() == BROWSER_COUNT,
                forall|j: int|
                    0 <= j < BROWSER_COUNT ==> (#[trigger] v0.grace[j] matches Some(s) ==> s
                        <= now),
                v0.enabled,
                has_active_blocks,
                grace_ns == grace_nanos(v0.grace_secs),
                running@.len() == BROWSER_COUNT,
                forall|j: int|
                    0 <= j < BROWSER_COUNT ==> #[trigger] running@[j] == kind_running(
                        procs,
                        spec_browser_at(j),
                    ),
                procs == running_processes@,
                conn == connected_extensions@,
                next@.len() == k,
                expires@.len() == k,
                forall|j: int|
                    0 <= j < k ==> #[trigger] next@[j] == next_slot(
                        v0.grace[j],
                        kind_running(procs, spec_browser_at(j)),
                        conn.contains(spec_browser_at(j)),
                        now,
                        grace_nanos(v0.grace_secs),
                    ),
                forall|j: int|
                    0 <= j < k ==> #[trigger] expires@[j] == slot_expires(
                        v0.grace[j],
                        kind_running(procs, spec_browser_at(j)),
                        conn.contains(spec_browser_at(j)),
                        now,
                        grace_nanos(v0.grace_secs),
                    ),
            decreases BROWSER_COUNT - k,
        {
            let bt = BrowserType::from_index(k);
            let conn_k = contains_browser(connected_extensions, bt);
            let old_slot = self.grace_periods[k];
            let (slot, expired) = if !running[k] || conn_k {
                (None, false)
            } else {
                match old_slot {
                    None => (Some(now), false),
                    Some(s) => {
                        let e: u128 = if now >= s {
                            now - s
                        } else {
                            0
                        };
                        if e >= grace_ns {
                            (None, true)
                        } else {
                            (Some(s), false)
                        }
                    },
                }
            };
            next.push(slot);
            expires.push(expired);
            k = k + 1;
        }
        let mut pids: Vec<u32> = Vec::new();
        let mut i: usize = 0;
        while i < running_processes.len()
            invariant
                i <= procs.len(),
                procs == running_processes@,
                v0.enabled,
                has_active_blocks,
                expires@.len() == BROWSER_COUNT,
                forall|j: int|
                    0 <= j < BROWSER_COUNT ==> #[trigger] expires@[j] == slot_expires(
                        v0.grace[j],
                        kind_running(procs, spec_browser_at(j)),
                        conn.contains(spec_browser_at(j)),
                        now,
                        grace_nanos(v0.grace_secs),
                    ),
                pids@ == kill_list(v0, procs, conn, has_active_blocks, now, procs.take(i as int)),
            decreases procs.len() - i,
        {
            let p = &running_processes[i];
            let killed = match identify_browser(p.name.as_str()) {
                Some(info) => expires[info.browser_type.index()],
                None => false,
            };
            if killed {
                pids.push(p.pid);
            }
            proof {
                let part = procs.take(i + 1);
                assert(part.drop_last() =~= procs.take(i as int));
                assert(part.last() == procs[i as int]);
                match browser_of(procs[i as int].name@) {
                    Some(bt) => {
                        assert(spec_browser_at(spec_browser_index(bt)) == bt);
                    },
                    None => {},
                }
            }
            i = i + 1;
        }
        proof {
            assert(procs.take(procs.len() as int) =~= procs);
            assert(next@ =~= step_grace(v0, procs, conn, has_active_blocks, now));
        }
        self.grace_periods = next;
        pids
    }

    /// Evaluates the running processes now and returns the ids of the
    /// browser processes to close. The evaluation's time is read from the
    /// monotonic clock and is never earlier than the previous evaluation's.
    /// Nothing is closed, and every grace period is dropped, while
    /// enforcement is off or no block is active.
    pub fn evaluate(
        &mut self,
        running_processes: &[RunningProcess],
        connected_extensions: &Vec<BrowserType>,
        has_active_blocks: bool,
    ) -> (r: Vec<u32>)
        ensures
            exists|now: u128|
                {
                    &&& now >= old(self)@.clock
                    &&& final(self)@ == (EnforcementView {
                        grace: step_grace(
                            old(self)@,
                            running_processes@,
                            connected_extensions@,
                            has_active_blocks,
                            now,
                        ),
                        clock: now,
                        ..old(self)@
                    })
                    &&& r@ == kill_list(
                        old(self)@,
                        running_processes@,
                        connected_extensions@,
                        has_active_blocks,
                        now,
                        running_processes@,
                    )
                },
            final(self)@.wf(),
            !old(self)@.enabled || !has_active_blocks ==> r@.len() == 0 && final(self)@.grace
                == no_grace(),
    {
        let reading = if self.enabled && has_active_blocks {
            duration_nanos(&instant_elapsed(&self.epoch))
        } else {
            0
        };
        let ghost now = later(old(self)@.clock, reading);
        let r = self.evaluate_at(running_processes, connected_extensions, has_active_blocks, reading);
        proof {
            if !old(self)@.enabled || !has_active_blocks {
                lemma_kill_list_none(
                    old(self)@,
                    running_processes@,
                    connected_extensions@,
                    has_active_blocks,
                    now,
                    running_processes@.len() as int,
                );
                assert(running_processes@.take(running_processes@.len() as int)
                    =~= running_processes@);
            }
        }
        r
    }

    /// The remaining grace period of a family at `now`, in whole seconds:
    /// none while enforcement is off or no grace period runs for it.
    pub fn grace_remaining_at(&self, browser_type: &BrowserType, now: u128) -> (r: Option<u64>)
        ensures
            r == spec_grace_remaining(self@, *browser_type, now),
    {
        proof {
            use_type_invariant(self);
        }
        if !self.enabled {
            return None;
        }
        match self.grace_periods[browser_type.index()] {
            None => None,
            Some(s) => {
                let grace_ns: u128 = (self.grace_secs as u128) * NANOS_PER_SEC;
                let e: u128 = if now >= s {
                    now - s
                } else {
                    0
                };
                if e >= grace_ns {
                    Some(0)
                } else {
                    let q: u128 = (grace_ns - e) / NANOS_PER_SEC;
                    assert(q <= self.grace_secs) by (nonlinear_arith)
                        requires
                            q == (grace_ns - e) / 1_000_000_000,
                            grace_ns == self.grace_secs * 1_000_000_000,
                            e >= 0,
                            e < grace_ns,
                    ;
                    Some(q as u64)
                }
            },
        }
    }

    /// The remaining grace period of a family now, in whole seconds, by the
    /// monotonic clock (never earlier than the latest evaluation).
    pub fn grace_remaining(&self, browser_type: &BrowserType) -> (r: Option<u64>)
        ensures
            exists|now: u128| now >= self@.clock && r == spec_grace_remaining(self@, *browser_type, now),
            !self@.enabled ==> r is None,
    {
        let reading = duration_nanos(&instant_elapsed(&self.epoch));
        let now: u128 = if reading > self.clock {
            reading
        } else {
            self.clock
        };
        self.grace_remaining_at(browser_type, now)
    }
}

/// While enforcement is off or no block is active, an evaluation closes
/// nothing from any part of the process list.
pub proof fn lemma_kill_list_none(
    v: EnforcementView,
    procs: Seq<RunningProcess>,
    connected: Seq<BrowserType>,
    active: bool,
    now: u128,
    n: int,
)
    requires
        !v.enabled || !active,
        0 <= n <= procs.len(),
    ensures
        kill_list(v, procs, connected, active, now, procs.take(n)) == Seq::<u32>::empty(),
    decreases n,
{
    if n > 0 {
        lemma_kill_list_none(v, procs, connected, active, now, n - 1);
        assert(procs.take(n).drop_last() =~= procs.take(n - 1));
    }
    let part = procs.take(n);
    assert(kill_list(v, procs, connected, active, now, part) =~= Seq::<u32>::empty());
}

} // verus!
