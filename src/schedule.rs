//! Admission control: how many units run at once, and which unit is admitted
//! when a run completes.
use vstd::prelude::*;
use crate::queue::{
    after_pops, lemma_empty_iff_no_runs, lemma_pop_step, opt_view, pop_spec, pops_out, total,
    Task, Tasks, Unit,
};

verus! {

/// How many units may run at the same time.
#[derive(Debug, Clone, Copy, PartialEq, Eq, Structural)]
pub enum Policy {
    /// One at a time, with an optional pause after each run.
    Serial,
    /// Up to `n` at a time; `Capped(0)` admits everything at once.
    Capped(u32),
    /// Every unit at once.
    Unbounded,
}

/// The admission width of a policy; `None` when every unit is admitted.
pub open spec fn width(p: Policy) -> Option<nat> {
    match p {
        Policy::Serial => Some(1),
        Policy::Capped(n) => if n == 0 {
            None
        } else {
            Some(n as nat)
        },
        Policy::Unbounded => None,
    }
}

/// How many of `m` owed runs are admitted at the start.
pub open spec fn admitted_count(p: Policy, m: nat) -> nat {
    match width(p) {
        Some(w) => if w <= m {
            w
        } else {
            m
        },
        None => m,
    }
}

/// The policy selected by the `parallel` setting: absent means serial, zero
/// means unbounded, any other value caps the number of concurrent runs.
pub fn policy_of(parallel: Option<u32>) -> (r: Policy)
    ensures
        r == (match parallel {
            None => Policy::Serial,
            Some(n) => if n == 0 {
                Policy::Unbounded
            } else {
                Policy::Capped(n)
            },
        }),
{
    match parallel {
        None => Policy::Serial,
        Some(n) => if n == 0 {
            Policy::Unbounded
        } else {
            Policy::Capped(n)
        },
    }
}

/// The pause after each run: the interval under the serial policy, none
/// otherwise.
pub fn pacing(policy: Policy, interval: u32) -> (r: Option<u32>)
    ensures
        r == (if policy == Policy::Serial {
            Some(interval)
        } else {
            None::<u32>
        }),
{
    match policy {
        Policy::Serial => Some(interval),
        _ => None,
    }
}

/// The number of worker threads to ask for: the configured number if any,
/// one for serial runs, and the runtime's own default (`None`) otherwise.
pub fn worker_threads(threads: Option<u32>, parallel: Option<u32>) -> (r: Option<u32>)
    ensures
        r == (match threads {
            Some(t) => Some(t),
            None => if parallel is None {
                Some(1u32)
            } else {
                None
            },
        }),
{
    match threads {
        Some(t) => Some(t),
        None => match parallel {
            None => Some(1),
            Some(_) => None,
        },
    }
}

/// The coordinator's state: the backlog, the policy and the number of runs
/// in flight.
#[derive(Debug)]
pub struct Scheduler {
    tasks: Tasks,
    policy: Policy,
    running: usize,
}

impl Scheduler {
    pub closed spec fn backlog(&self) -> Seq<Unit> {
        self.tasks@
    }

    pub closed spec fn mode(&self) -> Policy {
        self.policy
    }

    pub closed spec fn in_flight(&self) -> nat {
        self.running as nat
    }

    /// The backlog is well formed; no more runs are in flight than the policy
    /// allows, and fewer only once the backlog is drained; a policy without a
    /// width has admitted everything.
    pub closed spec fn wf(&self) -> bool {
        &&& self.tasks.wf()
        &&& match width(self.policy) {
            Some(w) => self.running <= w && (total(self.tasks@) > 0 ==> self.running == w),
            None => total(self.tasks@) == 0,
        }
    }

    /// Admits the first units of the backlog: as many as the policy's width
    /// allows, or all of them when it has none.
    pub fn start(tasks: Tasks, policy: Policy) -> (r: (Scheduler, Vec<Task>))
        requires
            tasks.wf(),
        ensures
            r.0.wf(),
            r.0.mode() == policy,
            r.0.in_flight() == admitted_count(policy, total(tasks@)),
            r.0.backlog() == after_pops(tasks@, admitted_count(policy, total(tasks@))),
            r.1@.len() == admitted_count(policy, total(tasks@)),
            forall|i: int|
                0 <= i < r.1@.len() ==> Some(#[trigger] r.1@[i]@) == pops_out(
                    tasks@,
                    admitted_count(policy, total(tasks@)),
                )[i],
    {
        let ghost q0 = tasks@;
        let mut tasks = tasks;
        let limit: Option<u32> = match policy {
            Policy::Serial => Some(1),
            Policy::Capped(n) => if n == 0 {
                None
            } else {
                Some(n)
            },
            Policy::Unbounded => None,
        };
        let mut admitted: Vec<Task> = Vec::new();
        loop
            invariant
                tasks.wf(),
                admitted@.len() <= total(q0),
                tasks@ == after_pops(q0, admitted@.len() as nat),
                total(tasks@) == total(q0) - admitted@.len(),
                forall|i: int|
                    0 <= i < admitted@.len() ==> Some(#[trigger] admitted@[i]@) == pops_out(
                        q0,
                        admitted@.len() as nat,
                    )[i],
                limit == (match width(policy) {
                    Some(w) => Some(w as u32),
                    None => None::<u32>,
                }),
                width(policy) matches Some(w) ==> admitted@.len() <= w,
                pops_out(q0, admitted@.len() as nat).len() == admitted@.len(),
            ensures
                tasks.wf(),
                admitted@.len() <= total(q0),
                tasks@ == after_pops(q0, admitted@.len() as nat),
                total(tasks@) == total(q0) - admitted@.len(),
                forall|i: int|
                    0 <= i < admitted@.len() ==> Some(#[trigger] admitted@[i]@) == pops_out(
                        q0,
                        admitted@.len() as nat,
                    )[i],
                width(policy) matches Some(w) ==> admitted@.len() <= w,
                (width(policy) matches Some(w) && admitted@.len() == w) || tasks@.len() == 0,
            decreases total(tasks@),
        {
            if let Some(w) = limit {
                if admitted.len() >= w as usize {
                    break;
                }
            }
            let ghost k = admitted@.len() as nat;
            let ghost before = tasks@;
            proof {
                lemma_empty_iff_no_runs(before);
                if before.len() > 0 {
                    lemma_pop_step(before);
                }
            }
            match tasks.pop() {
                None => {
                    break;
                },
                Some(t) => {
                    let ghost prev = admitted@;
                    admitted.push(t);
                    proof {
                        assert(pops_out(q0, k + 1) == pops_out(q0, k).push(pop_spec(before).1));
                        assert forall|i: int| 0 <= i < admitted@.len() implies Some(
                            #[trigger] admitted@[i]@,
                        ) == pops_out(q0, k + 1)[i] by {
                            if i < k {
                                assert(admitted@[i] == prev[i]);
                            }
                        }
                    }
                },
            }
        }
        proof {
            lemma_empty_iff_no_runs(tasks@);
        }
        let running = admitted.len();
        (Scheduler { tasks, policy, running }, admitted)
    }

    /// Records the completion of one run and admits the next unit of the
    /// backlog in its place, if one is left.
    pub fn complete(&mut self) -> (r: Option<Task>)
        requires
            old(self).wf(),
            old(self).in_flight() > 0,
        ensures
            final(self).wf(),
            final(self).mode() == old(self).mode(),
            old(self).backlog().len() > 0 ==> {
                &&& opt_view(r) == pop_spec(old(self).backlog()).1
                &&& r is Some
                &&& final(self).backlog() == pop_spec(old(self).backlog()).0
                &&& final(self).in_flight() == old(self).in_flight()
            },
            old(self).backlog().len() == 0 ==> {
                &&& r is None
                &&& final(self).backlog() == old(self).backlog()
                &&& final(self).in_flight() == old(self).in_flight() - 1
            },
    {
        proof {
            lemma_empty_iff_no_runs(self.tasks@);
        }
        if self.tasks.is_empty() {
            self.running = self.running - 1;
            None
        } else {
            proof {
                lemma_pop_step(self.tasks@);
            }
            self.tasks.pop()
        }
    }

    /// The number of runs in flight.
    pub fn running(&self) -> (r: usize)
        ensures
            r == self.in_flight(),
    {
        self.running
    }

    /// Whether every unit has been admitted and every run has completed.
    pub fn is_finished(&self) -> (r: bool)
        ensures
            r == (self.in_flight() == 0 && self.backlog().len() == 0),
    {
        self.running == 0 && self.tasks.is_empty()
    }
}

/// Under a cap of `n`, never more than `n` runs are in flight, and fewer only
/// once the backlog is drained.
pub proof fn law_capped_width(s: Scheduler, n: u32)
    requires
        s.wf(),
        s.mode() == Policy::Capped(n),
        n > 0,
    ensures
        s.in_flight() <= n,
        total(s.backlog()) > 0 ==> s.in_flight() == n,
{
}

/// Without a width (unbounded, or a cap of zero) everything is admitted at the
/// start, so a completion never admits another unit.
pub proof fn law_unbounded_admits_all(s: Scheduler)
    requires
        s.wf(),
        s.mode() == Policy::Unbounded || s.mode() == Policy::Capped(0),
    ensures
        s.backlog().len() == 0,
{
    lemma_empty_iff_no_runs(s.tasks@);
}

/// Under the serial policy at most one run is in flight.
pub proof fn law_serial_one_at_a_time(s: Scheduler)
    requires
        s.wf(),
        s.mode() == Policy::Serial,
    ensures
        s.in_flight() <= 1,
{
}

} // verus!
