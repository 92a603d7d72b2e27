use vstd::prelude::*;

use crate::command::{ImageCommand, Op, Operator};
use crate::raster::ProcessingError;

verus! {

/// The executable steps of an operation list: the operation of each
/// non-empty slot, in list order.
pub open spec fn steps_of(ops: Seq<Operator>) -> Seq<Op>
    decreases ops.len(),
{
    if ops.len() == 0 {
        Seq::empty()
    } else {
        let rest = steps_of(ops.drop_last());
        match ops.last().op {
            Some(op) => rest.push(op),
            None => rest,
        }
    }
}

/// Turns an operation list into the steps to run, dropping empty slots.
pub fn plan(ops: &Vec<Operator>) -> (r: Vec<Op>)
    ensures
        r@ == steps_of(ops@),
{
    let mut steps: Vec<Op> = Vec::new();
    let mut i: usize = 0;
    while i < ops.len()
        invariant
            i <= ops@.len(),
            steps@ == steps_of(ops@.subrange(0, i as int)),
        decreases ops@.len() - i,
    {
        let slot = ops[i];
        assert(ops@.subrange(0, i as int + 1).drop_last() =~= ops@.subrange(0, i as int));
        if let Some(op) = slot.op {
            steps.push(op);
        }
        i = i + 1;
    }
    assert(ops@.subrange(0, ops@.len() as int) =~= ops@);
    steps
}

/// Model of how far a pipeline has run: the number of steps applied with
/// success, and the error of the step that failed, if one did.
pub struct RunState {
    pub done: nat,
    pub failed: Option<ProcessingError>,
}

/// What the pipeline asks of its driver.
#[derive(Clone, Copy, Debug, PartialEq, Eq, Structural)]
pub enum Next {
    /// Apply this operation to the current image and report the outcome.
    Apply(Op),
    /// Every step succeeded: the current image is the result.
    Complete,
    /// A step failed: the request fails with this error, and no step runs
    /// after it.
    Abort(ProcessingError),
}

/// The pipeline's next request, in a state in which `s.done` steps succeeded.
pub open spec fn next_spec(steps: Seq<Op>, s: RunState) -> Next {
    match s.failed {
        Some(e) => Next::Abort(e),
        None => if s.done < steps.len() {
            Next::Apply(steps[s.done as int])
        } else {
            Next::Complete
        },
    }
}

/// The state after the step at `s.done` had `outcome`.
pub open spec fn report_spec(s: RunState, outcome: Result<(), ProcessingError>) -> RunState {
    match outcome {
        Ok(()) => RunState { done: s.done + 1, failed: None },
        Err(e) => RunState { done: s.done, failed: Some(e) },
    }
}

/// The pipeline driven from `s`, where each step that it asks to apply has the
/// next of `outcomes` in turn. Gives the operations applied, in order, and the
/// state reached.
pub open spec fn drive(
    steps: Seq<Op>,
    s: RunState,
    outcomes: Seq<Result<(), ProcessingError>>,
) -> (Seq<Op>, RunState)
    decreases outcomes.len(),
{
    if outcomes.len() == 0 {
        (Seq::empty(), s)
    } else {
        match next_spec(steps, s) {
            Next::Apply(op) => {
                let (applied, f) = drive(steps, report_spec(s, outcomes[0]), outcomes.drop_first());
                (seq![op] + applied, f)
            },
            _ => (Seq::empty(), s),
        }
    }
}

/// Runs a command's operations as a strict left-to-right fold over an image.
///
/// The image itself stays with the driver, which applies each step that the
/// pipeline names and reports how it went.
pub struct Pipeline {
    steps: Vec<Op>,
    done: usize,
    failed: Option<ProcessingError>,
}

impl Pipeline {
    pub closed spec fn steps(&self) -> Seq<Op> {
        self.steps@
    }

    pub closed spec fn state(&self) -> RunState {
        RunState { done: self.done as nat, failed: self.failed }
    }

    pub closed spec fn wf(&self) -> bool {
        self.done <= self.steps@.len()
    }

    /// The pipeline for `cmd`, before any step has run.
    pub fn new(cmd: &ImageCommand) -> (r: Self)
        ensures
            r.wf(),
            r.steps() == steps_of(cmd.ops@),
            r.state() == (RunState { done: 0, failed: None }),
    {
        Pipeline { steps: plan(&cmd.ops), done: 0, failed: None }
    }

    /// What the driver should do now.
    pub fn next(&self) -> (r: Next)
        requires
            self.wf(),
        ensures
            r == next_spec(self.steps(), self.state()),
    {
        match self.failed {
            Some(e) => Next::Abort(e),
            None => if self.done < self.steps.len() {
                Next::Apply(self.steps[self.done])
            } else {
                Next::Complete
            },
        }
    }

    /// Reports the outcome of the step that `next` asked for.
    pub fn report(&mut self, outcome: Result<(), ProcessingError>)
        requires
            old(self).wf(),
            next_spec(old(self).steps(), old(self).state()) is Apply,
        ensures
            final(self).wf(),
            final(self).steps() == old(self).steps(),
            final(self).state() == report_spec(old(self).state(), outcome),
    {
        match outcome {
            Ok(()) => {
                let len: usize = self.steps.len();
                assert(self.done < len);
                self.done = self.done + 1;
            },
            Err(e) => {
                self.failed = Some(e);
            },
        }
    }
}

/// Planning distributes over concatenation of operation lists.
proof fn lemma_steps_of_append(a: Seq<Operator>, b: Seq<Operator>)
    ensures
        steps_of(a + b) == steps_of(a) + steps_of(b),
    decreases b.len(),
{
    if b.len() == 0 {
        assert(a + b =~= a);
        assert(steps_of(a) + steps_of(b) =~= steps_of(a));
    } else {
        assert((a + b).drop_last() =~= a + b.drop_last());
        assert((a + b).last() == b.last());
        lemma_steps_of_append(a, b.drop_last());
        if let Some(op) = b.last().op {
            assert((steps_of(a) + steps_of(b.drop_last())).push(op) =~= steps_of(a) + steps_of(
                b.drop_last(),
            ).push(op));
        }
    }
}

/// An empty slot contributes no step: removing it from anywhere in the list
/// leaves the plan unchanged.
pub proof fn lemma_empty_slot_is_noop(a: Seq<Operator>, b: Seq<Operator>)
    ensures
        steps_of(a.push(Operator { op: None }) + b) == steps_of(a + b),
{
    lemma_steps_of_append(a.push(Operator { op: None }), b);
    lemma_steps_of_append(a, b);
    assert(a.push(Operator { op: None }).drop_last() =~= a);
}

/// The non-empty slots of an operation list, in order.
pub open spec fn filled(ops: Seq<Operator>) -> Seq<Operator> {
    ops.filter(|s: Operator| s.op is Some)
}

/// The plan of a list is the plan of its non-empty slots.
proof fn lemma_steps_of_filled(ops: Seq<Operator>)
    ensures
        steps_of(ops) == steps_of(filled(ops)),
    decreases ops.len(),
{
    reveal(Seq::filter);
    if ops.len() > 0 {
        lemma_steps_of_filled(ops.drop_last());
        let sub = filled(ops.drop_last());
        if ops.last().op is Some {
            assert(filled(ops) == sub.push(ops.last()));
            assert(sub.push(ops.last()).drop_last() =~= sub);
        } else {
            assert(filled(ops) == sub);
        }
    }
}

/// Empty slots are no-ops however many there are and wherever they stand:
/// two lists with the same non-empty slots in the same order plan the same
/// steps.
pub proof fn lemma_empty_slots_are_noops(a: Seq<Operator>, b: Seq<Operator>)
    requires
        filled(a) == filled(b),
    ensures
        steps_of(a) == steps_of(b),
{
    lemma_steps_of_filled(a);
    lemma_steps_of_filled(b);
}

/// A list of `n` non-empty slots plans exactly `n` steps, the slots'
/// operations in list order.
pub proof fn lemma_full_slots_keep_order(ops: Seq<Operator>)
    requires
        forall|i: int| 0 <= i < ops.len() ==> (#[trigger] ops[i]).op is Some,
    ensures
        steps_of(ops).len() == ops.len(),
        forall|i: int| 0 <= i < ops.len() ==> #[trigger] steps_of(ops)[i] == ops[i].op->0,
    decreases ops.len(),
{
    if ops.len() > 0 {
        let init = ops.drop_last();
        assert forall|i: int| 0 <= i < init.len() implies (#[trigger] init[i]).op is Some by {
            assert(init[i] == ops[i]);
        }
        lemma_full_slots_keep_order(init);
        assert(ops.last() == ops[ops.len() - 1]);
        assert forall|i: int| 0 <= i < ops.len() implies #[trigger] steps_of(ops)[i]
            == ops[i].op->0 by {
            if i < ops.len() - 1 {
                assert(init[i] == ops[i]);
            }
        }
    }
}

/// From a state with no failure and `done` steps behind it, where the next
/// `m` steps succeed and the one after fails, exactly those `m + 1` steps are
/// applied and the pipeline aborts with that step's error.
proof fn lemma_failure_stops_from(
    steps: Seq<Op>,
    done: nat,
    outcomes: Seq<Result<(), ProcessingError>>,
    m: nat,
)
    requires
        done + m < steps.len(),
        m < outcomes.len(),
        outcomes[m as int] is Err,
        forall|j: int| 0 <= j < m ==> (#[trigger] outcomes[j]) is Ok,
    ensures
        drive(steps, RunState { done, failed: None }, outcomes) == (
        steps.subrange(done as int, (done + m + 1) as int),
        RunState { done: done + m, failed: Some(outcomes[m as int]->Err_0) },
        ),
    decreases m,
{
    let s = RunState { done, failed: None };
    let tail = outcomes.drop_first();
    if m == 0 {
        let f = report_spec(s, outcomes[0]);
        assert(f == RunState { done, failed: Some(outcomes[0]->Err_0) });
        assert(drive(steps, f, tail).1 == f);
        assert(drive(steps, f, tail).0 =~= Seq::<Op>::empty());
        assert(seq![steps[done as int]] + Seq::<Op>::empty() =~= steps.subrange(
            done as int,
            (done + 1) as int,
        ));
    } else {
        assert(outcomes[0] is Ok);
        assert forall|j: int| 0 <= j < m - 1 implies (#[trigger] tail[j]) is Ok by {
            assert(tail[j] == outcomes[j + 1]);
        }
        assert(tail[m - 1] == outcomes[m as int]);
        lemma_failure_stops_from(steps, done + 1, tail, (m - 1) as nat);
        assert(seq![steps[done as int]] + steps.subrange((done + 1) as int, (done + m + 1) as int)
            =~= steps.subrange(done as int, (done + m + 1) as int));
    }
}

/// The first failing step ends the pipeline: where steps `0..k` succeed and
/// step `k` fails, the steps applied are exactly `steps[0..=k]`, in order, no
/// later step runs, and the pipeline then asks to abort with that error.
pub proof fn lemma_first_failure_aborts(
    steps: Seq<Op>,
    outcomes: Seq<Result<(), ProcessingError>>,
    k: nat,
)
    requires
        k < steps.len(),
        k < outcomes.len(),
        outcomes[k as int] is Err,
        forall|j: int| 0 <= j < k ==> (#[trigger] outcomes[j]) is Ok,
    ensures
        drive(steps, RunState { done: 0, failed: None }, outcomes).0 == steps.subrange(
            0,
            (k + 1) as int,
        ),
        next_spec(steps, drive(steps, RunState { done: 0, failed: None }, outcomes).1)
            == Next::Abort(outcomes[k as int]->Err_0),
{
    lemma_failure_stops_from(steps, 0, outcomes, k);
}

/// Where every step succeeds, each one is applied once, in list order,
/// starting from state `done`.
proof fn lemma_success_runs_all_from(
    steps: Seq<Op>,
    done: nat,
    outcomes: Seq<Result<(), ProcessingError>>,
)
    requires
        done <= steps.len(),
        outcomes.len() >= steps.len() - done,
        forall|j: int| 0 <= j < outcomes.len() ==> (#[trigger] outcomes[j]) is Ok,
    ensures
        drive(steps, RunState { done, failed: None }, outcomes) == (
        steps.subrange(done as int, steps.len() as int),
        RunState { done: steps.len(), failed: None },
        ),
    decreases steps.len() - done,
{
    let s = RunState { done, failed: None };
    if done == steps.len() {
        if outcomes.len() > 0 {
            assert(next_spec(steps, s) == Next::Complete);
        }
        assert(steps.subrange(done as int, steps.len() as int) =~= Seq::<Op>::empty());
    } else {
        let tail = outcomes.drop_first();
        assert(outcomes[0] is Ok);
        assert forall|j: int| 0 <= j < tail.len() implies (#[trigger] tail[j]) is Ok by {
            assert(tail[j] == outcomes[j + 1]);
        }
        lemma_success_runs_all_from(steps, done + 1, tail);
        assert(seq![steps[done as int]] + steps.subrange((done + 1) as int, steps.len() as int)
            =~= steps.subrange(done as int, steps.len() as int));
    }
}

/// The pipeline is a strict left-to-right fold: where every step succeeds,
/// the steps are applied exactly once each, in list order, and the pipeline
/// then completes.
pub proof fn lemma_success_applies_in_order(
    steps: Seq<Op>,
    outcomes: Seq<Result<(), ProcessingError>>,
)
    requires
        outcomes.len() >= steps.len(),
        forall|j: int| 0 <= j < outcomes.len() ==> (#[trigger] outcomes[j]) is Ok,
    ensures
        drive(steps, RunState { done: 0, failed: None }, outcomes).0 == steps,
        next_spec(steps, drive(steps, RunState { done: 0, failed: None }, outcomes).1)
            == Next::Complete,
{
    lemma_success_runs_all_from(steps, 0, outcomes);
    assert(steps.subrange(0, steps.len() as int) =~= steps);
}

} // verus!
