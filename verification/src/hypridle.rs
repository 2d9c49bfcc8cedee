//! Hypridle process discovery, polling, and state control.

use crate::text;
use crate::time::{Moment, MILLISECOND, SECOND};
use crate::widget::Command;
use vstd::prelude::*;

verus! {

/// How often the process table is read, in nanoseconds.
pub const POLL_INTERVAL: u64 = 2 * SECOND;

/// How long a stopped daemon may take to go, in nanoseconds.
pub const STOP_TIMEOUT: u64 = SECOND;

/// How often it is looked for meanwhile, in nanoseconds.
pub const STOP_POLL_INTERVAL: u64 = 50 * MILLISECOND;

/// What a requested state asks for.
#[derive(Debug, Clone, Copy, PartialEq, Eq, Structural)]
pub enum HypridleAction {
    /// Nothing: the state is the desired one.
    Keep,
    /// Start the daemon.
    Start,
    /// Stop the daemon.
    Stop,
}

/// Decide what a desired state asks for, given the present one.
pub fn required_action(active: bool, desired: bool) -> (action: HypridleAction)
    ensures
        action == if active == desired {
            HypridleAction::Keep
        } else if desired {
            HypridleAction::Start
        } else {
            HypridleAction::Stop
        },
{
    match (active, desired) {
        (false, true) => HypridleAction::Start,
        (true, false) => HypridleAction::Stop,
        _ => HypridleAction::Keep,
    }
}

/// An entry of the process table: its directory name, its owner and its kernel
/// command name, as far as they could be read.
#[derive(Debug, PartialEq, Eq)]
pub struct ProcessEntry {
    /// The directory name.
    pub name: String,
    /// The owner's user id.
    pub uid: Option<u32>,
    /// The contents of the `comm` file.
    pub comm: Option<String>,
}

/// The process id of an entry that is the user's own daemon.
pub open spec fn daemon_pid(entry: ProcessEntry, uid: u32) -> Option<i32> {
    match text::integer_of(entry.name@) {
        Some(pid) => if i32::MIN <= pid <= i32::MAX && entry.uid == Some(uid)
            && entry.comm is Some && text::trimmed_end((entry.comm->0)@) == "hypridle"@ {
            Some(pid as i32)
        } else {
            None
        },
        None => None,
    }
}

/// The process ids of the user's own daemons, in table order.
pub open spec fn daemon_pids(entries: Seq<ProcessEntry>, uid: u32) -> Seq<i32>
    decreases entries.len(),
{
    if entries.len() == 0 {
        seq![]
    } else {
        let before = daemon_pids(entries.drop_last(), uid);
        match daemon_pid(entries.last(), uid) {
            Some(pid) => before.push(pid),
            None => before,
        }
    }
}

/// Whether `pids` never falls.
pub open spec fn is_sorted(pids: Seq<i32>) -> bool {
    forall|i: int, j: int| 0 <= i < j < pids.len() ==> pids[i] <= pids[j]
}

fn entry_pid(entry: &ProcessEntry, uid: u32) -> (pid: Option<i32>)
    ensures
        pid == daemon_pid(*entry, uid),
{
    let pid: i32 = match text::parse_i32(entry.name.as_str()) {
        Some(pid) => pid,
        None => {
            return None;
        },
    };
    match entry.uid {
        Some(owner) => if owner != uid {
            return None;
        },
        None => {
            return None;
        },
    }
    match &entry.comm {
        Some(comm) => if text::same(text::trim_end(comm.as_str()), "hypridle") {
            Some(pid)
        } else {
            None
        },
        None => None,
    }
}

fn insert_sorted(pids: &mut Vec<i32>, pid: i32)
    requires
        is_sorted(old(pids)@),
    ensures
        is_sorted(final(pids)@),
        final(pids)@.to_multiset() == old(pids)@.to_multiset().insert(pid),
{
    let mut at: usize = 0;
    while at < pids.len() && pids[at] <= pid
        invariant
            at <= pids@.len(),
            pids@ == old(pids)@,
            forall|k: int| 0 <= k < at ==> #[trigger] pids@[k] <= pid,
        decreases pids@.len() - at,
    {
        at += 1;
    }
    let ghost before = pids@;
    pids.insert(at, pid);
    proof {
        let after = pids@;
        assert(after.remove(at as int) =~= before);
        after.to_multiset_ensures();
        assert(after[at as int] == pid);
        assert(after.to_multiset().count(pid) > 0) by {
            assert(after.contains(pid));
        }
        assert(after.to_multiset() =~= before.to_multiset().insert(pid));
        assert forall|i: int, j: int| 0 <= i < j < after.len() implies after[i] <= after[j] by {
            let bi = if i < at { i } else { i - 1 };
            let bj = if j < at { j } else { j - 1 };
            if i != at {
                assert(after[i] == before[bi]);
            }
            if j != at {
                assert(after[j] == before[bj]);
            }
            if i == at {
                assert(before[at as int] > pid);
                assert(before[at as int] <= before[bj]);
            }
        }
    }
}

/// Find same-user processes whose kernel command name is exactly `hypridle`,
/// in ascending order of their ids.
pub fn discover_hypridle_processes(entries: &[ProcessEntry], uid: u32) -> (pids: Vec<i32>)
    ensures
        is_sorted(pids@),
        pids@.to_multiset() == daemon_pids(entries@, uid).to_multiset(),
{
    let mut pids: Vec<i32> = Vec::new();
    let mut i: usize = 0;
    while i < entries.len()
        invariant
            i <= entries@.len(),
            is_sorted(pids@),
            pids@.to_multiset() == daemon_pids(entries@.take(i as int), uid).to_multiset(),
        decreases entries@.len() - i,
    {
        proof {
            assert(entries@.take(i + 1).drop_last() =~= entries@.take(i as int));
            assert(entries@.take(i + 1).last() == entries@[i as int]);
            daemon_pids(entries@.take(i as int), uid).to_multiset_ensures();
        }
        match entry_pid(&entries[i], uid) {
            Some(pid) => {
                insert_sorted(&mut pids, pid);
            },
            None => {},
        }
        i += 1;
    }
    assert(entries@.take(i as int) =~= entries@);
    pids
}

/// Watches the process table and speaks up only when the daemon's state changes.
#[derive(Debug, Clone, PartialEq, Eq)]
pub struct HypridleProducer {
    root: String,
    interval: u64,
    previous: Option<bool>,
}

impl HypridleProducer {
    /// Where the process table is.
    pub closed spec fn table(&self) -> Seq<char> {
        self.root@
    }

    /// How often it is read.
    pub closed spec fn pace(&self) -> u64 {
        self.interval
    }

    /// The last state reported.
    pub closed spec fn reported(&self) -> Option<bool> {
        self.previous
    }

    /// Poll the session's process table every two seconds.
    pub fn new() -> (producer: Self)
        ensures
            producer.table() == "/proc"@,
            producer.pace() == POLL_INTERVAL,
            producer.reported() is None,
    {
        HypridleProducer { root: "/proc".to_owned(), interval: POLL_INTERVAL, previous: None }
    }

    /// Poll at another pace, in nanoseconds.
    pub fn with_interval(interval: u64) -> (producer: Self)
        ensures
            producer.table() == "/proc"@,
            producer.pace() == interval,
            producer.reported() is None,
    {
        HypridleProducer { root: "/proc".to_owned(), interval, previous: None }
    }

    /// What the producer is called in logs.
    pub fn name(&self) -> (name: String)
        ensures
            name@ == "hypridle"@,
    {
        "hypridle".to_owned()
    }

    /// Where the process table is.
    pub fn root(&self) -> (root: &str)
        ensures
            root@ == self.table(),
    {
        self.root.as_str()
    }

    /// How often it is read, in nanoseconds.
    pub fn interval(&self) -> (interval: u64)
        ensures
            interval == self.pace(),
    {
        self.interval
    }

    /// Take in a reading: the state to report, if it differs from the last one
    /// reported. A reading that failed changes nothing.
    pub fn on_reading(&mut self, reading: Option<bool>) -> (report: Option<bool>)
        ensures
            final(self).table() == old(self).table(),
            final(self).pace() == old(self).pace(),
            match reading {
                None => report is None && final(self).reported() == old(self).reported(),
                Some(active) => {
                    &&& final(self).reported() == Some(active)
                    &&& report == if old(self).reported() == Some(active) {
                        None
                    } else {
                        Some(active)
                    }
                },
            },
    {
        match reading {
            None => None,
            Some(active) => {
                let known: bool = match self.previous {
                    Some(previous) => previous == active,
                    None => false,
                };
                self.previous = Some(active);
                if known {
                    None
                } else {
                    Some(active)
                }
            },
        }
    }
}

impl Default for HypridleProducer {
    fn default() -> (producer: Self)
        ensures
            producer.table() == "/proc"@,
            producer.pace() == POLL_INTERVAL,
            producer.reported() is None,
    {
        HypridleProducer::new()
    }
}

/// What waiting for a stopped daemon comes to.
#[derive(Debug, Clone, Copy, PartialEq, Eq, Structural)]
pub enum StopWait {
    /// Look again after a while.
    Again,
    /// It is settled: whether the daemon is still active.
    Settled(bool),
}

/// Decide whether to go on waiting: until the daemon is gone, or the deadline is
/// there.
pub fn wait_until_stopped(active: bool, now: Moment, deadline: Moment) -> (wait: StopWait)
    ensures
        wait == if !active {
            StopWait::Settled(false)
        } else if now.nanos >= deadline.nanos {
            StopWait::Settled(true)
        } else {
            StopWait::Again
        },
{
    if !active {
        StopWait::Settled(false)
    } else if now.nanos >= deadline.nanos {
        StopWait::Settled(true)
    } else {
        StopWait::Again
    }
}

/// The state a command asks for; commands for other executors are ignored.
pub fn desired_state(command: &Command) -> (desired: Option<bool>)
    ensures
        desired == match *command {
            Command::SetHypridle(desired) => Some(desired),
            _ => None,
        },
{
    match command {
        Command::SetHypridle(desired) => Some(*desired),
        _ => None,
    }
}

/// The state to report after a request: what the request came to, or, if it
/// failed, what a fresh reading says. Nothing when that fails too.
pub fn state_after_command(outcome: Option<bool>, refreshed: Option<bool>) -> (state: Option<bool>)
    ensures
        state == if outcome is Some {
            outcome
        } else {
            refreshed
        },
{
    match outcome {
        Some(state) => Some(state),
        None => refreshed,
    }
}

/// A process is found exactly if its entry is the user's own and runs under the
/// daemon's name.
pub proof fn lemma_daemons_are_the_users_own(entries: Seq<ProcessEntry>, uid: u32, pid: i32)
    ensures
        daemon_pids(entries, uid).contains(pid) <==> exists|i: int|
            0 <= i < entries.len() && daemon_pid(#[trigger] entries[i], uid) == Some(pid),
    decreases entries.len(),
{
    if entries.len() > 0 {
        let init = entries.drop_last();
        lemma_daemons_are_the_users_own(init, uid, pid);
        let before = daemon_pids(init, uid);
        let all = daemon_pids(entries, uid);
        if before.contains(pid) {
            let i = choose|i: int|
                0 <= i < init.len() && daemon_pid(#[trigger] init[i], uid) == Some(pid);
            assert(entries[i] == init[i]);
            let k = choose|k: int| 0 <= k < before.len() && before[k] == pid;
            assert(all[k] == pid);
        }
        if exists|i: int|
            0 <= i < entries.len() && daemon_pid(#[trigger] entries[i], uid) == Some(pid) {
            let i = choose|i: int|
                0 <= i < entries.len() && daemon_pid(#[trigger] entries[i], uid) == Some(pid);
            if i < init.len() {
                assert(init[i] == entries[i]);
                assert(before.contains(pid));
            } else {
                assert(all[before.len() as int] == pid);
            }
        }
        if all.contains(pid) {
            let k = choose|k: int| 0 <= k < all.len() && all[k] == pid;
            if k < before.len() {
                assert(before[k] == pid);
            } else {
                assert(daemon_pid(entries[entries.len() - 1], uid) == Some(pid));
            }
        }
    }
}

/// The daemon is started or stopped exactly where its state is not the desired one.
pub proof fn lemma_only_a_difference_is_acted_on(
    active: bool,
    desired: bool,
    action: HypridleAction,
)
    requires
        call_ensures(required_action, (active, desired), action),
    ensures
        action == HypridleAction::Keep <==> active == desired,
        action == HypridleAction::Start <==> desired && !active,
        action == HypridleAction::Stop <==> active && !desired,
{
}

/// A process is found exactly where its entry is a number, its owner is the user, and its
/// command is the daemon's, a line end aside; what is found comes in order.
pub proof fn lemma_the_users_own_daemons_are_found(
    entries: &[ProcessEntry],
    uid: u32,
    pids: Vec<i32>,
    i: int,
    pid: i32,
)
    requires
        call_ensures(discover_hypridle_processes, (entries, uid), pids),
        0 <= i < entries@.len(),
    ensures
        text::integer_of(entries@[i].name@) == Some(pid as int) && entries@[i].uid == Some(uid)
            && entries@[i].comm is Some && text::trimmed_end(entries@[i].comm->0@) == "hypridle"@
            ==> pids@.contains(pid),
        (forall|k: int|
            0 <= k < entries@.len() ==> (#[trigger] entries@[k]).uid != Some(uid)
                || entries@[k].comm is None || text::trimmed_end(entries@[k].comm->0@)
                != "hypridle"@) ==> pids@.len() == 0,
        forall|a: int, b: int| 0 <= a < b < pids@.len() ==> pids@[a] <= pids@[b],
{
    let found = daemon_pids(entries@, uid);
    lemma_daemons_are_the_users_own(entries@, uid, pid);
    pids@.to_multiset_ensures();
    found.to_multiset_ensures();
    if text::integer_of(entries@[i].name@) == Some(pid as int) && entries@[i].uid == Some(uid)
        && entries@[i].comm is Some && text::trimmed_end(entries@[i].comm->0@) == "hypridle"@ {
        assert(daemon_pid(entries@[i], uid) == Some(pid));
        assert(found.contains(pid));
        assert(found.to_multiset().contains(pid));
        assert(pids@.to_multiset().contains(pid));
    }
    if forall|k: int|
        0 <= k < entries@.len() ==> (#[trigger] entries@[k]).uid != Some(uid)
            || entries@[k].comm is None || text::trimmed_end(entries@[k].comm->0@) != "hypridle"@ {
        if pids@.len() > 0 {
            let first = pids@[0];
            assert(pids@.contains(first));
            assert(pids@.to_multiset().contains(first));
            assert(found.to_multiset().contains(first));
            assert(found.contains(first));
            lemma_daemons_are_the_users_own(entries@, uid, first);
            let k = choose|k: int|
                0 <= k < entries@.len() && daemon_pid(#[trigger] entries@[k], uid) == Some(first);
            assert(entries@[k].uid == Some(uid));
        }
    }
}

/// A state is reported exactly when it is another one than was reported last; a reading
/// that failed changes nothing.
pub proof fn lemma_only_changes_are_reported(
    producer: &mut HypridleProducer,
    reading: Option<bool>,
    report: Option<bool>,
)
    requires
        call_ensures(HypridleProducer::on_reading, (producer, reading), report),
    ensures
        report is Some <==> reading is Some && old(producer).reported() != reading,
        report is Some ==> report == reading,
        reading is Some ==> final(producer).reported() == reading,
        reading is None ==> final(producer).reported() == old(producer).reported(),
{
}

/// The table of processes is read every two seconds, or at the pace that is given.
pub proof fn lemma_the_table_is_read_at_its_pace(
    usual: HypridleProducer,
    interval: u64,
    other: HypridleProducer,
    told: (u64, u64, &str),
)
    requires
        call_ensures(HypridleProducer::new, (), usual),
        call_ensures(HypridleProducer::with_interval, (interval,), other),
        call_ensures(HypridleProducer::interval, (&usual,), told.0),
        call_ensures(HypridleProducer::interval, (&other,), told.1),
        call_ensures(HypridleProducer::root, (&usual,), told.2),
    ensures
        told.0 == 2_000_000_000,
        told.1 == interval,
        told.2@ == "/proc"@,
        usual.reported() is None,
{
}

/// A daemon that is gone is settled at once; one that stays is looked for until the
/// deadline and is then settled as active.
pub proof fn lemma_a_stopped_daemon_is_waited_for(
    active: bool,
    now: Moment,
    deadline: Moment,
    wait: StopWait,
)
    requires
        call_ensures(wait_until_stopped, (active, now, deadline), wait),
    ensures
        wait == StopWait::Settled(false) <==> !active,
        wait == StopWait::Settled(true) <==> active && now.nanos >= deadline.nanos,
        wait == StopWait::Again <==> active && now.nanos < deadline.nanos,
{
}

/// What a request came to is reported, and a fresh reading only where it failed.
pub proof fn lemma_a_failed_request_is_read_anew(
    outcome: Option<bool>,
    refreshed: Option<bool>,
    state: Option<bool>,
    command: Command,
    desired: Option<bool>,
)
    requires
        call_ensures(state_after_command, (outcome, refreshed), state),
        call_ensures(desired_state, (&command,), desired),
    ensures
        outcome is Some ==> state == outcome,
        outcome is None ==> state == refreshed,
        desired is Some <==> command is SetHypridle,
        command matches Command::SetHypridle(on) ==> desired == Some(on),
{
}

} // verus!
