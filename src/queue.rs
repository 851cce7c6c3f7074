//! The backlog of runs: one unit per argument variant, each with a count of
//! repeats still owed.
use std::collections::VecDeque;
use vstd::prelude::*;

verus! {

/// The mathematical model of one unit of the backlog.
pub struct Unit {
    pub cmd: Seq<char>,
    pub args: Seq<String>,
    pub label: Seq<char>,
    pub remaining: nat,
    pub index: nat,
}

/// One schedulable invocation: a command, its arguments, the variant it was
/// made from, how many repeats are still owed and how many were handed out.
#[derive(Debug)]
pub struct Task {
    pub cmd: String,
    pub args: Vec<String>,
    /// The variant this unit was built from (empty when there is none).
    pub label: String,
    /// Repeats still owed after this hand-out.
    pub number: u32,
    /// How many times this unit has been handed out (1 on the first run).
    pub index: u32,
}

impl View for Task {
    type V = Unit;

    open spec fn view(&self) -> Unit {
        Unit {
            cmd: self.cmd@,
            args: self.args@,
            label: self.label@,
            remaining: self.number as nat,
            index: self.index as nat,
        }
    }
}

/// Why no backlog could be built.
#[derive(Debug, PartialEq, Eq, Structural)]
pub enum PlanError {
    /// The command line holds no command.
    EmptyCommand,
    /// A repeat count of zero was asked for.
    ZeroRepeats,
}

/// A unit is well formed when it still owes a run and its counters fit.
pub open spec fn unit_wf(u: Unit) -> bool {
    u.remaining >= 1 && u.index + u.remaining <= u32::MAX
}

pub open spec fn units_wf(q: Seq<Unit>) -> bool {
    forall|i: int| 0 <= i < q.len() ==> #[trigger] unit_wf(q[i])
}

/// The number of runs that the backlog still owes.
pub open spec fn total(q: Seq<Unit>) -> nat
    decreases q.len(),
{
    if q.len() == 0 {
        0
    } else {
        q[0].remaining + total(q.drop_first())
    }
}

/// A unit with one repeat consumed.
pub open spec fn consumed(u: Unit) -> Unit {
    Unit { remaining: (u.remaining - 1) as nat, index: u.index + 1, ..u }
}

/// One pop: the backlog that is left and the unit handed out.
pub open spec fn pop_spec(q: Seq<Unit>) -> (Seq<Unit>, Option<Unit>) {
    if q.len() == 0 {
        (q, None)
    } else if q[0].remaining > 1 {
        (q.update(0, consumed(q[0])), Some(consumed(q[0])))
    } else {
        (q.drop_first(), Some(consumed(q[0])))
    }
}

/// The backlog after `k` pops.
pub open spec fn after_pops(q: Seq<Unit>, k: nat) -> Seq<Unit>
    decreases k,
{
    if k == 0 {
        q
    } else {
        pop_spec(after_pops(q, (k - 1) as nat)).0
    }
}

/// The units handed out by `k` pops, in order.
pub open spec fn pops_out(q: Seq<Unit>, k: nat) -> Seq<Option<Unit>>
    decreases k,
{
    if k == 0 {
        Seq::empty()
    } else {
        pops_out(q, (k - 1) as nat).push(pop_spec(after_pops(q, (k - 1) as nat)).1)
    }
}

/// The unit built for one variant: the variant is appended to the shared
/// arguments unless it is empty.
pub open spec fn unit_for(cmd: Seq<String>, variant: String, repeats: nat) -> Unit {
    Unit {
        cmd: cmd[0]@,
        args: if variant@.len() == 0 {
            cmd.drop_first()
        } else {
            cmd.drop_first().push(variant)
        },
        label: variant@,
        remaining: repeats,
        index: 0,
    }
}

/// The backlog built from a command line, its variants and a repeat count.
pub open spec fn build_spec(cmd: Seq<String>, variants: Seq<String>, repeats: nat) -> Seq<Unit> {
    Seq::new(variants.len(), |i: int| unit_for(cmd, variants[i], repeats))
}

/// The models of a sequence of tasks.
pub open spec fn views(q: Seq<Task>) -> Seq<Unit> {
    q.map_values(|t: Task| t@)
}

pub open spec fn opt_view(t: Option<Task>) -> Option<Unit> {
    match t {
        Some(t) => Some(t@),
        None => None,
    }
}

proof fn lemma_total_front(q: Seq<Unit>, u: Unit)
    requires
        q.len() > 0,
    ensures
        total(q.update(0, u)) == u.remaining + total(q.drop_first()),
{
    assert(q.update(0, u).drop_first() =~= q.drop_first());
}

pub proof fn lemma_pop_step(q: Seq<Unit>)
    requires
        units_wf(q),
        q.len() > 0,
    ensures
        units_wf(pop_spec(q).0),
        total(pop_spec(q).0) + 1 == total(q),
        pop_spec(q).1 is Some,
{
    assert(unit_wf(q[0]));
    let rest = pop_spec(q).0;
    if q[0].remaining > 1 {
        lemma_total_front(q, consumed(q[0]));
        assert forall|i: int| 0 <= i < rest.len() implies #[trigger] unit_wf(rest[i]) by {
            if i > 0 {
                assert(unit_wf(q[i]));
            }
        }
    } else {
        assert forall|i: int| 0 <= i < rest.len() implies #[trigger] unit_wf(rest[i]) by {
            assert(unit_wf(q[i + 1]));
        }
    }
}

pub proof fn lemma_empty_iff_no_runs(q: Seq<Unit>)
    requires
        units_wf(q),
    ensures
        q.len() == 0 <==> total(q) == 0,
{
    if q.len() > 0 {
        assert(unit_wf(q[0]));
    }
}

proof fn lemma_after_pops(q: Seq<Unit>, k: nat)
    requires
        units_wf(q),
        k <= total(q),
    ensures
        units_wf(after_pops(q, k)),
        total(after_pops(q, k)) == total(q) - k,
    decreases k,
{
    if k > 0 {
        let prev = after_pops(q, (k - 1) as nat);
        lemma_after_pops(q, (k - 1) as nat);
        lemma_empty_iff_no_runs(prev);
        lemma_pop_step(prev);
    }
}

proof fn lemma_total_uniform(q: Seq<Unit>, r: nat)
    requires
        forall|i: int| 0 <= i < q.len() ==> (#[trigger] q[i]).remaining == r,
    ensures
        total(q) == r * q.len(),
    decreases q.len(),
{
    if q.len() > 0 {
        let rest = q.drop_first();
        assert forall|i: int| 0 <= i < rest.len() implies (#[trigger] rest[i]).remaining == r by {
            assert(rest[i] == q[i + 1]);
        }
        lemma_total_uniform(rest, r);
        let n = q.len();
        assert(r * (n - 1) + r == r * n) by (nonlinear_arith);
    }
}

/// A well-formed backlog hands out a unit on each of its first `total(q)`
/// pops, and is empty after exactly that many.
pub proof fn law_pops_until_empty(q: Seq<Unit>)
    requires
        units_wf(q),
    ensures
        after_pops(q, total(q)).len() == 0,
        forall|k: nat| k < total(q) ==> (#[trigger] pop_spec(after_pops(q, k)).1) is Some,
{
    lemma_after_pops(q, total(q));
    lemma_empty_iff_no_runs(after_pops(q, total(q)));
    assert forall|k: nat| k < total(q) implies (#[trigger] pop_spec(after_pops(q, k)).1) is Some by {
        lemma_after_pops(q, k);
        lemma_empty_iff_no_runs(after_pops(q, k));
        lemma_pop_step(after_pops(q, k));
    }
}

/// A backlog built from `v` variants with `r` repeats each hands out exactly
/// `r * v` units before it is empty.
pub proof fn law_built_backlog_yields_repeats_times_variants(
    cmd: Seq<String>,
    variants: Seq<String>,
    r: nat,
)
    requires
        cmd.len() > 0,
        1 <= r <= u32::MAX,
    ensures
        units_wf(build_spec(cmd, variants, r)),
        total(build_spec(cmd, variants, r)) == r * variants.len(),
        after_pops(build_spec(cmd, variants, r), r * variants.len()).len() == 0,
        forall|k: nat|
            k < r * variants.len() ==> (#[trigger] pop_spec(
                after_pops(build_spec(cmd, variants, r), k),
            ).1) is Some,
{
    let q = build_spec(cmd, variants, r);
    assert forall|i: int| 0 <= i < q.len() implies #[trigger] unit_wf(q[i]) by {}
    lemma_total_uniform(q, r);
    law_pops_until_empty(q);
}

/// Popping a unit that owes `k > 1` runs leaves it at the front owing `k - 1`;
/// popping one that owes a single run removes it.
pub proof fn law_pop_front(q: Seq<Unit>)
    requires
        units_wf(q),
        q.len() > 0,
    ensures
        q[0].remaining > 1 ==> pop_spec(q).0.len() == q.len() && pop_spec(q).0[0].remaining
            == q[0].remaining - 1 && pop_spec(q).0.drop_first() == q.drop_first(),
        q[0].remaining == 1 ==> pop_spec(q).0 == q.drop_first(),
        pop_spec(q).1 == Some(consumed(q[0])),
{
    assert(q.update(0, consumed(q[0])).drop_first() =~= q.drop_first());
}

/// Copies a list of strings element by element.
fn copy_strings(v: &Vec<String>) -> (r: Vec<String>)
    ensures
        r@ == v@,
{
    let mut r: Vec<String> = Vec::new();
    let mut i: usize = 0;
    while i < v.len()
        invariant
            i <= v.len(),
            r@ == v@.subrange(0, i as int),
        decreases v.len() - i,
    {
        r.push(v[i].clone());
        i = i + 1;
        assert(r@ =~= v@.subrange(0, i as int));
    }
    assert(r@ =~= v@);
    r
}

impl Task {
    /// A copy of this unit with every field equal.
    pub fn duplicate(&self) -> (r: Task)
        ensures
            r@ == self@,
    {
        Task {
            cmd: self.cmd.clone(),
            args: copy_strings(&self.args),
            label: self.label.clone(),
            number: self.number,
            index: self.index,
        }
    }
}

/// The backlog of units, front first.
#[derive(Debug)]
pub struct Tasks(VecDeque<Task>);

impl View for Tasks {
    type V = Seq<Unit>;

    closed spec fn view(&self) -> Seq<Unit> {
        views(self.0@)
    }
}

impl Tasks {
    /// Every unit still owes at least one run.
    pub open spec fn wf(&self) -> bool {
        units_wf(self@)
    }

    /// Builds one unit per variant, in the order given, each owing `number`
    /// runs of `cmd[0]` with the arguments `cmd[1..]` and the variant.
    pub fn build(cmd: &Vec<String>, variants: &Vec<String>, number: u32) -> (r: Result<
        Tasks,
        PlanError,
    >)
        ensures
            cmd@.len() == 0 ==> r == Err::<Tasks, PlanError>(PlanError::EmptyCommand),
            cmd@.len() > 0 && number == 0 ==> r == Err::<Tasks, PlanError>(PlanError::ZeroRepeats),
            cmd@.len() > 0 && number > 0 ==> (r matches Ok(t) && t.wf() && t@ == build_spec(
                cmd@,
                variants@,
                number as nat,
            )),
    {
        if cmd.len() == 0 {
            return Err(PlanError::EmptyCommand);
        }
        if number == 0 {
            return Err(PlanError::ZeroRepeats);
        }
        let ghost target = build_spec(cmd@, variants@, number as nat);
        let mut q: VecDeque<Task> = VecDeque::new();
        let mut shared: Vec<String> = Vec::new();
        let mut j: usize = 1;
        while j < cmd.len()
            invariant
                1 <= j <= cmd.len(),
                shared@ == cmd@.subrange(1, j as int),
            decreases cmd.len() - j,
        {
            shared.push(cmd[j].clone());
            j = j + 1;
            assert(shared@ =~= cmd@.subrange(1, j as int));
        }
        assert(shared@ =~= cmd@.drop_first());
        let mut i: usize = 0;
        while i < variants.len()
            invariant
                cmd@.len() > 0,
                number > 0,
                i <= variants.len(),
                shared@ == cmd@.drop_first(),
                target == build_spec(cmd@, variants@, number as nat),
                q@.len() == i,
                views(q@) == target.subrange(0, i as int),
            decreases variants.len() - i,
        {
            let variant = &variants[i];
            let mut args = copy_strings(&shared);
            if !variant.as_str().is_empty() {
                args.push(variant.clone());
            }
            let task = Task {
                cmd: cmd[0].clone(),
                args,
                label: variant.clone(),
                number,
                index: 0,
            };
            assert(task@ == target[i as int]);
            let ghost prev = q@;
            q.push_back(task);
            assert(q@ == prev.push(task));
            i = i + 1;
            assert forall|k: int| 0 <= k < i implies #[trigger] views(q@)[k] == target[k] by {
                if k < i - 1 {
                    assert(views(prev)[k] == target.subrange(0, i - 1)[k]);
                }
            }
            assert(views(q@) =~= target.subrange(0, i as int));
        }
        assert(target.subrange(0, i as int) =~= target);
        Ok(Tasks(q))
    }

    /// Hands out the front unit with one repeat consumed; the unit stays at the
    /// front while it still owes runs, and leaves once it owes none.
    pub fn pop(&mut self) -> (r: Option<Task>)
        requires
            old(self).wf(),
        ensures
            final(self).wf(),
            final(self)@ == pop_spec(old(self)@).0,
            opt_view(r) == pop_spec(old(self)@).1,
    {
        let ghost before = self@;
        match self.0.pop_front() {
            None => None,
            Some(mut task) => {
                proof {
                    assert(task@ == before[0]);
                    assert(unit_wf(before[0]));
                }
                task.number = task.number - 1;
                task.index = task.index + 1;
                if task.number > 0 {
                    let out = task.duplicate();
                    self.0.push_front(task);
                    proof {
                        assert(self@ =~= before.update(0, consumed(before[0])));
                        assert forall|i: int| 0 <= i < self@.len() implies #[trigger] unit_wf(
                            self@[i],
                        ) by {
                            if i > 0 {
                                assert(unit_wf(before[i]));
                            }
                        }
                    }
                    Some(out)
                } else {
                    proof {
                        assert(self@ =~= before.drop_first());
                        assert forall|i: int| 0 <= i < self@.len() implies #[trigger] unit_wf(
                            self@[i],
                        ) by {
                            assert(unit_wf(before[i + 1]));
                        }
                    }
                    Some(task)
                }
            },
        }
    }

    /// Whether the backlog holds no unit.
    pub fn is_empty(&self) -> (r: bool)
        ensures
            r == (self@.len() == 0),
    {
        self.0.len() == 0
    }
}

} // verus!
