//! The action supervisor's bookkeeping: which actions are currently running,
//! and the decisions the busy policy dictates when a new event arrives.
//!
//! The mapping from process identifier to completion watcher is the single
//! source of truth for "which actions are currently running". This module
//! holds the identifier side of that mapping and every read-modify-write
//! discipline on it; the caller keeps the watcher handles keyed by the same
//! identifiers and performs the actual spawning, signalling and awaiting
//! between calls.

use vstd::prelude::*;

verus! {

/// The rule governing whether a new action may start while others run.
/// Exactly one policy is active for the supervisor's lifetime.
#[derive(Clone, Copy, Debug, PartialEq, Eq, Structural)]
pub enum BusyPolicy {
    /// Always start a new action, regardless of others running.
    Allow,
    /// Refuse to start if any action is still running.
    SkipIfBusy,
    /// Terminate all running actions, wait for each, then start.
    KillBusyThenRun,
}

/// Invariant violation: a process identifier was already present in the
/// action mapping at insertion time. This signals a broken lifecycle
/// assumption, not an expected runtime condition.
#[derive(Clone, Copy, Debug)]
pub struct PidCollision;

/// The supervisor's state: the active policy and the identifiers of all
/// currently running actions.
pub struct Supervisor {
    policy: BusyPolicy,
    running: Vec<u32>,
}

/// The skip decision: an event is dropped without starting anything iff the
/// policy is skip-if-busy and at least one action is still running.
pub open spec fn skip_decision(policy: BusyPolicy, running: Set<u32>) -> bool {
    policy is SkipIfBusy && running.len() != 0
}

/// One drain step under the kill-busy policy: one still-running action is
/// selected (the selection among running actions is unspecified), removed
/// from the mapping, and only then signalled and awaited.
pub open spec fn kill_step(before: Set<u32>, pid: u32, after: Set<u32>) -> bool {
    &&& before.contains(pid)
    &&& after == before.remove(pid)
}

/// How a submitted event is handled, as the active policy dictates.
#[derive(Clone, Copy, Debug, PartialEq, Eq, Structural)]
pub enum SubmitDecision {
    /// Drop the event without starting anything; this counts as success.
    Skip,
    /// Drain the mapping — signal and reap every running action — and only
    /// then start the new one.
    DrainThenStart,
    /// Start the new action immediately.
    Start,
}

/// The submit algorithm by policy: skip-if-busy drops the event while
/// anything runs, kill-busy always drains first, allow always starts.
pub open spec fn submit_decision(policy: BusyPolicy, running_count: nat) -> SubmitDecision {
    match policy {
        BusyPolicy::SkipIfBusy => if running_count != 0 {
            SubmitDecision::Skip
        } else {
            SubmitDecision::Start
        },
        BusyPolicy::KillBusyThenRun => SubmitDecision::DrainThenStart,
        BusyPolicy::Allow => SubmitDecision::Start,
    }
}

impl Supervisor {
    /// The mapping never holds two records for one process identifier.
    pub closed spec fn wf(&self) -> bool {
        self.running@.no_duplicates()
    }

    pub closed spec fn spec_policy(&self) -> BusyPolicy {
        self.policy
    }

    /// The set of process identifiers of all currently running actions.
    pub closed spec fn running_pids(&self) -> Set<u32> {
        self.running@.to_set()
    }

    pub closed spec fn spec_count(&self) -> nat {
        self.running@.len()
    }

    /// A fresh supervisor: nothing runs yet.
    pub fn new(policy: BusyPolicy) -> (r: Supervisor)
        ensures
            r.wf(),
            r.spec_policy() == policy,
            r.spec_count() == 0,
            r.running_pids() =~= Set::<u32>::empty(),
    {
        let r = Supervisor { policy, running: Vec::new() };
        proof {
            assert(r.running@.to_set() =~= Set::<u32>::empty());
        }
        r
    }

    pub fn policy(&self) -> (r: BusyPolicy)
        ensures
            r == self.spec_policy(),
    {
        self.policy
    }

    /// How many actions are currently running. With the invariant, this is
    /// also the cardinality of `running_pids`.
    pub fn running_count(&self) -> (r: usize)
        ensures
            r == self.spec_count(),
            self.wf() ==> r == self.running_pids().len(),
    {
        proof {
            if self.wf() {
                self.running@.unique_seq_to_set();
            }
        }
        self.running.len()
    }

    pub fn is_busy(&self) -> (r: bool)
        ensures
            r == (self.spec_count() != 0),
    {
        self.running.len() != 0
    }

    /// Whether the incoming event must be dropped under the active policy.
    /// Dropping counts as success: the mapping is left untouched and no
    /// process is started.
    pub fn should_skip(&self) -> (r: bool)
        ensures
            r == skip_decision(self.spec_policy(), self.running_pids()),
            self.wf() ==> r == (self.spec_policy() is SkipIfBusy && self.spec_count() != 0),
    {
        proof {
            self.running@.lemma_cardinality_of_empty_set_is_0();
        }
        matches!(self.policy, BusyPolicy::SkipIfBusy) && self.running.len() != 0
    }

    /// Decide how a newly submitted event is handled under the active
    /// policy, given what currently runs.
    pub fn decide_submit(&self) -> (d: SubmitDecision)
        ensures
            d == submit_decision(self.spec_policy(), self.spec_count()),
    {
        match self.policy {
            BusyPolicy::SkipIfBusy => if self.running.len() != 0 {
                SubmitDecision::Skip
            } else {
                SubmitDecision::Start
            },
            BusyPolicy::KillBusyThenRun => SubmitDecision::DrainThenStart,
            BusyPolicy::Allow => SubmitDecision::Start,
        }
    }

    /// Remove one still-running action from the mapping, to be signalled and
    /// awaited by the caller before the next call. Which of the running
    /// actions is taken is unspecified. Returns `None` exactly when nothing
    /// runs any more.
    pub fn take_busy(&mut self) -> (r: Option<u32>)
        requires
            old(self).wf(),
        ensures
            final(self).wf(),
            final(self).spec_policy() == old(self).spec_policy(),
            match r {
                None => old(self).spec_count() == 0 && final(self).spec_count() == 0
                    && final(self).running_pids() == old(self).running_pids(),
                Some(pid) => kill_step(
                    old(self).running_pids(),
                    pid,
                    final(self).running_pids(),
                ) && final(self).spec_count() == old(self).spec_count() - 1,
            },
    {
        let ghost s = self.running@;
        match self.running.pop() {
            None => None,
            Some(pid) => {
                proof {
                    assert(s.drop_last() =~= s.remove(s.len() - 1));
                    lemma_unique_seq_remove(s, s.len() - 1);
                    assert(self.running@ =~= s.drop_last());
                }
                Some(pid)
            },
        }
    }

    /// Record a successful spawn: insert the new identifier. An identifier
    /// already present is an invariant violation, reported as an error with
    /// the mapping untouched; the caller treats it as fatal.
    pub fn record_spawn(&mut self, pid: u32) -> (r: Result<(), PidCollision>)
        requires
            old(self).wf(),
        ensures
            final(self).wf(),
            final(self).spec_policy() == old(self).spec_policy(),
            match r {
                Ok(_) => {
                    &&& !old(self).running_pids().contains(pid)
                    &&& final(self).running_pids() == old(self).running_pids().insert(pid)
                    &&& final(self).spec_count() == old(self).spec_count() + 1
                },
                Err(_) => old(self).running_pids().contains(pid) && *final(self) == *old(self),
            },
    {
        if self.contains_pid(pid) {
            Err(PidCollision)
        } else {
            let ghost s = self.running@;
            self.running.push(pid);
            proof {
                let t = self.running@;
                assert(t =~= s + seq![pid]);
                Seq::lemma_to_set_insert_commutes(s, pid);
                assert(t.to_set() =~= s.to_set().insert(pid));
                assert(!s.contains(pid));
                assert(t.no_duplicates()) by {
                    assert forall|a: int, b: int| 0 <= a < b < t.len() implies t[a] != t[b] by {
                        if b == s.len() {
                            assert(t[a] == s[a]);
                            if s[a] == pid {
                                assert(s.contains(pid));
                            }
                        } else {
                            assert(t[a] == s[a] && t[b] == s[b]);
                        }
                    }
                }
            }
            Ok(())
        }
    }

    /// Record that the action with identifier `pid` has terminated: remove
    /// its entry. Removing an identifier that is not present leaves the
    /// mapping unchanged.
    pub fn record_exit(&mut self, pid: u32)
        requires
            old(self).wf(),
        ensures
            final(self).wf(),
            final(self).spec_policy() == old(self).spec_policy(),
            final(self).running_pids() == old(self).running_pids().remove(pid),
            old(self).running_pids().contains(pid) ==> final(self).spec_count()
                == old(self).spec_count() - 1,
            !old(self).running_pids().contains(pid) ==> *final(self) == *old(self),
    {
        let ghost s = self.running@;
        let n = self.running.len();
        let mut i: usize = 0;
        while i < n
            invariant
                *self == *old(self),
                old(self).wf(),
                s == old(self).running@,
                n == s.len(),
                i <= n,
                forall|k: int| 0 <= k < i ==> s[k] != pid,
            decreases n - i,
        {
            if self.running[i] == pid {
                proof {
                    assert(s[i as int] == pid);
                    assert(s.contains(pid));
                    assert(old(self).running_pids().contains(pid));
                    lemma_unique_seq_remove(s, i as int);
                }
                self.running.remove(i);
                proof {
                    assert(self.running@ == s.remove(i as int));
                    assert(self.running@.to_set() =~= old(self).running_pids().remove(pid));
                }
                return ;
            }
            i += 1;
        }
        proof {
            assert(!s.contains(pid)) by {
                if s.contains(pid) {
                    let k = choose|k: int| 0 <= k < s.len() && s[k] == pid;
                }
            }
            assert(!s.to_set().contains(pid));
            assert(s.to_set().remove(pid) =~= s.to_set());
        }
    }

    fn contains_pid(&self, pid: u32) -> (r: bool)
        ensures
            r == self.running_pids().contains(pid),
    {
        let n = self.running.len();
        let mut i: usize = 0;
        while i < n
            invariant
                n == self.running@.len(),
                i <= n,
                forall|k: int| 0 <= k < i ==> self.running@[k] != pid,
            decreases n - i,
        {
            if self.running[i] == pid {
                proof {
                    assert(self.running@[i as int] == pid);
                    assert(self.running@.contains(pid));
                }
                return true;
            }
            i += 1;
        }
        proof {
            assert(!self.running@.contains(pid)) by {
                if self.running@.contains(pid) {
                    let k = choose|k: int| 0 <= k < self.running@.len() && self.running@[k] == pid;
                }
            }
        }
        false
    }
}

/// Removing the element at one index of a duplicate-free sequence removes
/// exactly that element from the sequence's set of values.
proof fn lemma_unique_seq_remove(s: Seq<u32>, i: int)
    requires
        s.no_duplicates(),
        0 <= i < s.len(),
    ensures
        s.remove(i).no_duplicates(),
        s.remove(i).to_set() =~= s.to_set().remove(s[i]),
        !s.remove(i).contains(s[i]),
{
    let d = s.remove(i);
    assert forall|x: u32| d.to_set().contains(x) implies s.to_set().contains(x) && x != s[i] by {
        let k = choose|k: int| 0 <= k < d.len() && d[k] == x;
        if k < i {
            assert(s[k] == x);
        } else {
            assert(s[k + 1] == x);
        }
    }
    assert forall|x: u32| s.to_set().contains(x) && x != s[i] implies d.to_set().contains(x) by {
        let k = choose|k: int| 0 <= k < s.len() && s[k] == x;
        if k < i {
            assert(d[k] == x);
        } else {
            assert(d[k - 1] == x);
        }
    }
    if d.contains(s[i]) {
        let k = choose|k: int| 0 <= k < d.len() && d[k] == s[i];
        if k < i {
            assert(s[k] == s[i]);
        } else {
            assert(s[k + 1] == s[i]);
        }
    }
}

/// Law (skip-if-busy): while at least one action is running under the
/// skip-if-busy policy, the submit decision is to skip, so the mapping keeps
/// exactly the actions it had and no new process is started.
pub proof fn lemma_skip_if_busy(s: Supervisor)
    requires
        s.wf(),
        s.spec_policy() is SkipIfBusy,
        s.spec_count() != 0,
    ensures
        skip_decision(s.spec_policy(), s.running_pids()),
        submit_decision(s.spec_policy(), s.spec_count()) == SubmitDecision::Skip,
{
    s.running@.unique_seq_to_set();
}

/// Law (kill-busy-then-run, drain half): a drain that starts from the set of
/// running actions and applies kill steps until nothing runs any more reaps
/// exactly the originally running actions, each of them once. Together with
/// `Supervisor::record_spawn` on the emptied supervisor, the mapping after a
/// kill-busy submit holds exactly the one new action.
pub proof fn lemma_kill_busy_drains_all(states: Seq<Set<u32>>, killed: Seq<u32>)
    requires
        states.len() == killed.len() + 1,
        states[0].finite(),
        forall|i: int| 0 <= i < killed.len() ==> kill_step(states[i], #[trigger] killed[i], states[i + 1]),
        states.last().len() == 0,
    ensures
        killed.to_set() =~= states[0],
        killed.no_duplicates(),
        killed.len() == states[0].len(),
    decreases killed.len(),
{
    if killed.len() == 0 {
        assert(states.last() == states[0]);
        assert(states[0] =~= Set::<u32>::empty());
        assert(killed.to_set() =~= Set::<u32>::empty());
    } else {
        let tail_states = states.drop_first();
        let tail_killed = killed.drop_first();
        assert(kill_step(states[0], killed[0], states[1]));
        assert forall|i: int| 0 <= i < tail_killed.len() implies kill_step(
            tail_states[i],
            #[trigger] tail_killed[i],
            tail_states[i + 1],
        ) by {
            assert(kill_step(states[i + 1], killed[i + 1], states[i + 2]));
        }
        assert(tail_states[0] == states[1]);
        assert(tail_states.last() == states.last());
        lemma_kill_busy_drains_all(tail_states, tail_killed);
        assert(tail_killed.to_set() =~= states[0].remove(killed[0]));
        assert(!tail_killed.to_set().contains(killed[0]));
        assert(!tail_killed.contains(killed[0]));
        assert(killed.to_set() =~= tail_killed.to_set().insert(killed[0])) by {
            assert forall|x: u32| killed.to_set().contains(x) implies tail_killed.to_set().insert(
                killed[0],
            ).contains(x) by {
                let k = choose|k: int| 0 <= k < killed.len() && killed[k] == x;
                if k > 0 {
                    assert(tail_killed[k - 1] == x);
                }
            }
            assert forall|x: u32|
                tail_killed.to_set().insert(killed[0]).contains(x) implies killed.to_set().contains(
                x,
            ) by {
                if x == killed[0] {
                    assert(killed[0] == x);
                } else {
                    let k = choose|k: int| 0 <= k < tail_killed.len() && tail_killed[k] == x;
                    assert(killed[k + 1] == x);
                }
            }
        }
        assert(killed.to_set() =~= states[0]);
        assert(killed.drop_first().no_duplicates() && !killed.drop_first().contains(killed[0]));
        assert(killed.no_duplicates()) by {
            assert forall|i: int, j: int|
                0 <= i < killed.len() && 0 <= j < killed.len() && i != j implies killed[i]
                != killed[j] by {
                if i > 0 && j > 0 {
                    assert(tail_killed[i - 1] != tail_killed[j - 1]);
                } else if i == 0 && j > 0 {
                    assert(tail_killed[j - 1] == killed[j]);
                } else if j == 0 && i > 0 {
                    assert(tail_killed[i - 1] == killed[i]);
                }
            }
        }
        assert(states[0].len() == states[0].remove(killed[0]).len() + 1);
    }
}

} // verus!
