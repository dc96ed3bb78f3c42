//! Thread-local processing schedule: a queue of actors waiting to be processed, in which every
//! actor stands at most once.
use vstd::prelude::*;

use std::collections::VecDeque;

verus! {

/// The schedule is unavailable, because it is already in use.
#[derive(Clone, Copy, Debug, PartialEq, Eq, Structural)]
pub struct ScheduleError;

/// Queue of actor identifiers waiting to be processed, first in first out, without duplicates.
pub struct Schedule {
    queue: VecDeque<u64>,
}

impl Schedule {
    /// The identifiers in the queue, front first.
    pub closed spec fn view(&self) -> Seq<u64> {
        self.queue@
    }

    #[verifier::type_invariant]
    spec fn inv(&self) -> bool {
        self.queue@.no_duplicates()
    }

    /// An empty schedule.
    pub fn new() -> (r: Schedule)
        ensures
            r.view() == Seq::<u64>::empty(),
    {
        Schedule { queue: VecDeque::new() }
    }

    /// Adds an actor to the queue for processing, unless it is already queued.
    pub fn push(&mut self, id: u64)
        ensures
            old(self).view().contains(id) ==> final(self).view() == old(self).view(),
            !old(self).view().contains(id) ==> final(self).view() == old(self).view().push(id),
            final(self).view().no_duplicates(),
    {
        proof {
            use_type_invariant(&*self);
        }
        let mut i: usize = 0;
        while i < self.queue.len()
            invariant
                i <= self.queue@.len(),
                forall|j: int| 0 <= j < i ==> self.queue@[j] != id,
            decreases self.queue@.len() - i,
        {
            if self.queue[i] == id {
                proof {
                    use_type_invariant(&*self);
                }
                return;
            }
            i += 1;
        }
        proof {
            assert(!self.queue@.contains(id));
        }
        let mut queue: VecDeque<u64> = VecDeque::new();
        core::mem::swap(&mut queue, &mut self.queue);
        queue.push_back(id);
        self.queue = queue;
    }

    /// Takes the next actor to process, if any.
    pub fn take_next(&mut self) -> (r: Option<u64>)
        ensures
            old(self).view().len() == 0 ==> r is None && final(self).view() == old(self).view(),
            old(self).view().len() > 0 ==> r == Some(old(self).view()[0])
                && final(self).view() == old(self).view().drop_first(),
            final(self).view().no_duplicates(),
    {
        proof {
            use_type_invariant(&*self);
        }
        let mut queue: VecDeque<u64> = VecDeque::new();
        core::mem::swap(&mut queue, &mut self.queue);
        let r = queue.pop_front();
        proof {
            assert(queue@ =~= old(self).queue@.drop_first() || r is None);
        }
        self.queue = queue;
        r
    }
}

/// `q` after pushing `ids`, in order, each unless it is already queued.
pub open spec fn push_all(q: Seq<u64>, ids: Seq<u64>) -> Seq<u64>
    decreases ids.len(),
{
    if ids.len() == 0 {
        q
    } else {
        let before = push_all(q, ids.drop_last());
        if before.contains(ids.last()) {
            before
        } else {
            before.push(ids.last())
        }
    }
}

/// The queue after running the head of `q` once for each entry of `scheduled`: each run
/// takes the head and queues what that step scheduled.
pub open spec fn run_steps(q: Seq<u64>, scheduled: Seq<Seq<u64>>) -> Seq<u64>
    decreases scheduled.len(),
{
    if scheduled.len() == 0 {
        q
    } else {
        run_steps(push_all(q.drop_first(), scheduled[0]), scheduled.drop_first())
    }
}

/// Running one more step runs the steps before it, then takes the head and queues what the
/// new step scheduled.
pub proof fn lemma_run_steps_push(q: Seq<u64>, scheduled: Seq<Seq<u64>>, last: Seq<u64>)
    ensures
        run_steps(q, scheduled.push(last)) == push_all(run_steps(q, scheduled).drop_first(), last),
    decreases scheduled.len(),
{
    if scheduled.len() > 0 {
        assert(scheduled.push(last).drop_first() =~= scheduled.drop_first().push(last));
        assert(scheduled.push(last)[0] == scheduled[0]);
        lemma_run_steps_push(push_all(q.drop_first(), scheduled[0]), scheduled.drop_first(), last);
    } else {
        let one = scheduled.push(last);
        assert(one.drop_first() =~= Seq::<Seq<u64>>::empty());
        assert(one[0] == last);
        assert(run_steps(q, one) == run_steps(push_all(q.drop_first(), last), one.drop_first()));
        assert(run_steps(push_all(q.drop_first(), last), Seq::<Seq<u64>>::empty()) == push_all(q.drop_first(), last));
    }
}

/// Pushing keeps what was queued before, at the front.
pub proof fn lemma_push_all_keeps_front(q: Seq<u64>, ids: Seq<u64>)
    ensures
        push_all(q, ids).len() >= q.len(),
        push_all(q, ids).subrange(0, q.len() as int) == q,
    decreases ids.len(),
{
    if ids.len() > 0 {
        lemma_push_all_keeps_front(q, ids.drop_last());
        let before = push_all(q, ids.drop_last());
        assert(before.push(ids.last()).subrange(0, q.len() as int) =~= before.subrange(0, q.len() as int));
    }
}

/// One processing step of a run: the actor processed, what its step returned and scheduled,
/// and whether it is stopped.
pub struct ProcessStep {
    pub id: u64,
    pub result: Result<After, ProcessFailed>,
    pub scheduled: Vec<u64>,
    pub stop: bool,
}

/// What the steps of a run scheduled, step by step.
pub open spec fn scheduled_by(steps: Seq<ProcessStep>) -> Seq<Seq<u64>> {
    steps.map_values(|s: ProcessStep| s.scheduled@)
}

proof fn lemma_push_all_append(q: Seq<u64>, a: Seq<u64>, b: Seq<u64>)
    ensures
        push_all(q, a + b) == push_all(push_all(q, a), b),
    decreases b.len(),
{
    if b.len() == 0 {
        assert(a + b =~= a);
    } else {
        assert((a + b).drop_last() =~= a + b.drop_last());
        assert((a + b).last() == b.last());
        lemma_push_all_append(q, a, b.drop_last());
    }
}

/// Pushing ids one after another queues, after what was queued, each id that is not queued
/// yet, at its first occurrence, in the order the ids came.
pub proof fn lemma_push_all_queues_new_ids_in_order(q: Seq<u64>, ids: Seq<u64>)
    ensures
        push_all(q, ids) == ids.remove_duplicates(q),
    decreases ids.len(),
{
    if ids.len() > 0 {
        let x = ids[0];
        let rest = ids.skip(1);
        assert(ids =~= seq![x] + rest);
        lemma_push_all_append(q, seq![x], rest);
        assert(seq![x].drop_last() =~= Seq::<u64>::empty());
        assert(seq![x].last() == x);
        assert(push_all(q, Seq::<u64>::empty()) == q);
        assert(push_all(q, seq![x]) == if q.contains(x) { q } else { q.push(x) });
        assert(q.push(x) =~= q + seq![x]);
        lemma_push_all_queues_new_ids_in_order(push_all(q, seq![x]), rest);
    }
}

/// Each step of a run takes the head of the queue, then queues each actor that the step
/// scheduled and that is not queued yet, in the order the step scheduled them: the queue after
/// the first `k + 1` steps is the queue after the first `k`, without its head, followed by
/// the new actors of step `k` in their order.
pub proof fn lemma_run_step_queues_in_order(q: Seq<u64>, steps: Seq<ProcessStep>, k: int)
    requires
        0 <= k < steps.len(),
    ensures
        run_steps(q, scheduled_by(steps.take(k + 1))) == steps[k].scheduled@.remove_duplicates(
            run_steps(q, scheduled_by(steps.take(k))).drop_first(),
        ),
{
    assert(scheduled_by(steps.take(k + 1)) =~= scheduled_by(steps.take(k)).push(steps[k].scheduled@));
    lemma_run_steps_push(q, scheduled_by(steps.take(k)), steps[k].scheduled@);
    lemma_push_all_queues_new_ids_in_order(
        run_steps(q, scheduled_by(steps.take(k))).drop_first(),
        steps[k].scheduled@,
    );
}

impl Schedule {
    /// Runs every actor that is queued when the run starts, first in first out. `apply`
    /// processes an actor and returns its result and the actors it schedules, which are
    /// queued behind (unless already queued). An actor is stopped exactly when its step
    /// returned `Ok(After::Stop)`; a failed step keeps it. Actors scheduled during the run
    /// stay queued for the next run.
    pub fn run_queued<F>(&mut self, apply: F) -> (r: Vec<ProcessStep>)
        where
            F: FnMut(u64) -> (Result<After, ProcessFailed>, Vec<u64>),
        requires
            forall|id: u64| call_requires(apply, (id,)),
        ensures
            r@.len() == old(self).view().len(),
            forall|i: int|
                0 <= i < r@.len() ==> {
                    &&& (#[trigger] r@[i]).id == old(self).view()[i]
                    &&& call_ensures(apply, (r@[i].id,), (r@[i].result, r@[i].scheduled))
                    &&& r@[i].stop == (r@[i].result == Ok::<After, ProcessFailed>(After::Stop))
                },
            final(self).view() == run_steps(old(self).view(), scheduled_by(r@)),
            final(self).view().no_duplicates(),
    {
        let ghost q0 = self.view();
        let ghost apply0 = apply;
        let mut apply = apply;
        let n = self.queue.len();
        let mut steps: Vec<ProcessStep> = Vec::new();
        let mut i: usize = 0;
        proof {
            assert(q0.skip(0) =~= q0);
        }
        while i < n
            invariant
                apply == apply0,
                forall|id: u64| call_requires(apply0, (id,)),
                n == q0.len(),
                i <= n,
                steps@.len() == i,
                self.view().len() >= n - i,
                self.view().subrange(0, n - i) == q0.skip(i as int),
                run_steps(q0, scheduled_by(steps@)) == self.view(),
                forall|k: int|
                    0 <= k < i ==> {
                        &&& (#[trigger] steps@[k]).id == q0[k]
                        &&& call_ensures(apply0, (steps@[k].id,), (steps@[k].result, steps@[k].scheduled))
                        &&& steps@[k].stop == (steps@[k].result == Ok::<After, ProcessFailed>(After::Stop))
                    },
            decreases n - i,
        {
            let ghost before = self.view();
            let id = match self.take_next() {
                Some(id) => id,
                None => {
                    proof {
                        assert(false);
                    }
                    0
                },
            };
            proof {
                assert(before[0] == q0.skip(i as int)[0]);
            }
            let (result, scheduled) = apply(id);
            let ghost after_take = self.view();
            let mut j: usize = 0;
            while j < scheduled.len()
                invariant
                    j <= scheduled@.len(),
                    self.view() == push_all(after_take, scheduled@.take(j as int)),
                decreases scheduled@.len() - j,
            {
                proof {
                    assert(scheduled@.take(j + 1).drop_last() =~= scheduled@.take(j as int));
                }
                self.push(scheduled[j]);
                j += 1;
            }
            proof {
                assert(scheduled@.take(scheduled@.len() as int) =~= scheduled@);
                lemma_push_all_keeps_front(after_take, scheduled@);
                assert(after_take =~= before.drop_first());
                assert(after_take.subrange(0, n - i - 1) =~= q0.skip(i + 1)) by {
                    assert(before.subrange(0, n - i) == q0.skip(i as int));
                    assert forall|k: int| 0 <= k < n - i - 1 implies after_take[k] == q0.skip(i + 1)[k] by {
                        assert(after_take[k] == before[k + 1]);
                        assert(before.subrange(0, n - i)[k + 1] == before[k + 1]);
                    }
                }
                let pushed = push_all(after_take, scheduled@);
                assert(pushed.subrange(0, after_take.len() as int) == after_take);
                assert(self.view().subrange(0, n - i - 1) =~= q0.skip(i + 1)) by {
                    assert forall|k: int| 0 <= k < n - i - 1 implies self.view()[k] == after_take[k] by {
                        assert(pushed.subrange(0, after_take.len() as int)[k] == pushed[k]);
                    }
                }
            }
            let stop = stop_after_process(result);
            let ghost prev_steps = steps@;
            let ghost sched = scheduled@;
            steps.push(ProcessStep { id, result, scheduled, stop });
            proof {
                assert(scheduled_by(steps@) =~= scheduled_by(prev_steps).push(sched));
                lemma_run_steps_push(q0, scheduled_by(prev_steps), sched);
            }
            i += 1;
        }
        proof {
            use_type_invariant(&*self);
        }
        steps
    }
}

/// What an actor's processing step asks for afterwards.
#[derive(Clone, Copy, Debug, PartialEq, Eq, Structural)]
pub enum After {
    /// Keep the actor.
    Nothing,
    /// Stop the actor.
    Stop,
}

/// A processing step failed.
#[derive(Clone, Copy, Debug, PartialEq, Eq, Structural)]
pub struct ProcessFailed;

/// Whether an actor is stopped after a processing step: a failed step counts as `Nothing`.
pub fn stop_after_process(result: Result<After, ProcessFailed>) -> (stop: bool)
    ensures
        stop <==> result == Ok::<After, ProcessFailed>(After::Stop),
{
    let after = match result {
        Ok(value) => value,
        Err(_) => After::Nothing,
    };
    match after {
        After::Stop => true,
        After::Nothing => false,
    }
}

} // verus!
