//! Shared actor world: the central first-in first-out queue of tasks (messages to deliver and
//! actors to start) that executors take their work from.
//!
//! The queue is a `crossbeam_queue::SegQueue`. Messages and actor factories are held by the
//! runtime; the queue carries the handles it finds them by.
use vstd::prelude::*;

use crossbeam_queue::SegQueue;

verus! {

#[verifier::external_type_specification]
#[verifier::external_body]
#[verifier::reject_recursive_types(T)]
pub struct ExSegQueue<T>(SegQueue<T>);

/// The items of a task queue, from head to tail.
pub uninterp spec fn seg_queue_items(q: SegQueue<(bool, usize, u64)>) -> Seq<(bool, usize, u64)>;

/// `SegQueue::new`: an empty queue.
#[verifier::external_body]
fn queue_new() -> (q: SegQueue<(bool, usize, u64)>)
    ensures
        seg_queue_items(q) == Seq::<(bool, usize, u64)>::empty(),
{
    SegQueue::new()
}

/// `SegQueue::push_mut`: adds `value` at the tail of the queue.
#[verifier::external_body]
fn queue_push(q: &mut SegQueue<(bool, usize, u64)>, value: (bool, usize, u64))
    ensures
        seg_queue_items(*final(q)) == seg_queue_items(*old(q)).push(value),
{
    q.push_mut(value)
}

/// `SegQueue::pop_mut`: removes and returns the head of the queue, or `None` when it is empty.
#[verifier::external_body]
fn queue_pop(q: &mut SegQueue<(bool, usize, u64)>) -> (r: Option<(bool, usize, u64)>)
    ensures
        seg_queue_items(*old(q)).len() == 0 ==> r is None && seg_queue_items(*final(q))
            == seg_queue_items(*old(q)),
        seg_queue_items(*old(q)).len() > 0 ==> r == Some(seg_queue_items(*old(q))[0])
            && seg_queue_items(*final(q)) == seg_queue_items(*old(q)).drop_first(),
{
    q.pop_mut()
}

/// `SegQueue::len`: the number of items in the queue.
#[verifier::external_body]
fn queue_len(q: &SegQueue<(bool, usize, u64)>) -> (r: usize)
    ensures
        r == seg_queue_items(*q).len(),
{
    q.len()
}

/// A task for an executor.
#[derive(Clone, Copy, Debug, PartialEq, Eq, Structural)]
pub enum WorldTask {
    /// Deliver the message with handle `message` to the actor at `address`.
    Message { address: usize, message: u64 },
    /// Start an actor with the factory with handle `factory`.
    Start { factory: u64 },
}

/// A task as a queue item.
pub open spec fn encode_task(t: WorldTask) -> (bool, usize, u64) {
    match t {
        WorldTask::Message { address, message } => (false, address, message),
        WorldTask::Start { factory } => (true, 0, factory),
    }
}

/// The task a queue item stands for.
pub open spec fn decode_task(item: (bool, usize, u64)) -> WorldTask {
    if item.0 {
        WorldTask::Start { factory: item.2 }
    } else {
        WorldTask::Message { address: item.1, message: item.2 }
    }
}

/// Shared actor world: central store of tasks that executors take work from.
pub struct World {
    queue: SegQueue<(bool, usize, u64)>,
}

impl World {
    /// The tasks in the queue, from head to tail.
    pub closed spec fn view(&self) -> Seq<WorldTask> {
        seg_queue_items(self.queue).map_values(|item: (bool, usize, u64)| decode_task(item))
    }

    /// A world without tasks.
    pub fn new() -> (r: World)
        ensures
            r.view() == Seq::<WorldTask>::empty(),
    {
        let queue = queue_new();
        let r = World { queue };
        assert(r.view() =~= Seq::<WorldTask>::empty());
        r
    }

    /// Takes the next task, first in first out.
    pub fn next_task(&mut self) -> (r: Option<WorldTask>)
        ensures
            old(self).view().len() == 0 ==> r is None && final(self).view() == old(self).view(),
            old(self).view().len() > 0 ==> r == Some(old(self).view()[0])
                && final(self).view() == old(self).view().drop_first(),
    {
        let item = queue_pop(&mut self.queue);
        proof {
            assert(self.view() =~= old(self).view().drop_first() || item is None);
        }
        match item {
            Some(item) => {
                if item.0 {
                    Some(WorldTask::Start { factory: item.2 })
                } else {
                    Some(WorldTask::Message { address: item.1, message: item.2 })
                }
            },
            None => None,
        }
    }

    /// Queues the message with handle `message` for the actor at `address`.
    pub fn send(&mut self, address: usize, message: u64)
        ensures
            final(self).view() == old(self).view().push(WorldTask::Message { address, message }),
    {
        queue_push(&mut self.queue, (false, address, message));
        assert(self.view() =~= old(self).view().push(WorldTask::Message { address, message }));
    }

    /// Queues the start of an actor with the factory with handle `factory`.
    pub fn start(&mut self, factory: u64)
        ensures
            final(self).view() == old(self).view().push(WorldTask::Start { factory }),
    {
        queue_push(&mut self.queue, (true, 0, factory));
        assert(self.view() =~= old(self).view().push(WorldTask::Start { factory }));
    }
}

/// The tasks of `batches`, one batch after another.
pub open spec fn concat_all(batches: Seq<Seq<WorldTask>>) -> Seq<WorldTask>
    decreases batches.len(),
{
    if batches.len() == 0 {
        Seq::empty()
    } else {
        concat_all(batches.drop_last()) + batches.last()
    }
}

/// One step of an executor run: the task performed, what performing it gave and queued, and
/// whether the actor it was delivered to is removed.
pub struct WorldStep {
    pub task: WorldTask,
    pub outcome: Delivery,
    pub queued: Vec<WorldTask>,
    pub stop: bool,
}

/// What the steps of a run queued, step by step.
pub open spec fn queued_by(steps: Seq<WorldStep>) -> Seq<Seq<WorldTask>> {
    steps.map_values(|s: WorldStep| s.queued@)
}

/// The number of tasks that the steps queued, all steps together.
pub open spec fn queued_count(steps: Seq<WorldStep>) -> nat
    decreases steps.len(),
{
    if steps.len() == 0 {
        0
    } else {
        queued_count(steps.drop_last()) + steps.last().queued@.len()
    }
}

proof fn lemma_queued_count_mono(steps: Seq<WorldStep>, a: int, b: int)
    requires
        0 <= a <= b <= steps.len(),
    ensures
        queued_count(steps.take(a)) <= queued_count(steps.take(b)),
    decreases b - a,
{
    if a < b {
        lemma_queued_count_mono(steps, a, b - 1);
        assert(steps.take(b).drop_last() =~= steps.take(b - 1));
    }
}

/// What the steps of a run queue stands in the queue in the order it was queued: first all
/// that the first step queued, in the order it queued them, then all that the second step
/// queued, and so on, whether a step delivered a message or started an actor. Nothing else
/// stands there.
pub proof fn lemma_run_queues_in_order(steps: Seq<WorldStep>)
    ensures
        concat_all(queued_by(steps)).len() == queued_count(steps),
        forall|k: int, j: int|
            0 <= k < steps.len() && 0 <= j < steps[k].queued@.len() ==> concat_all(queued_by(steps))[queued_count(
                steps.take(k),
            ) + j] == #[trigger] steps[k].queued@[j],
    decreases steps.len(),
{
    if steps.len() > 0 {
        let n = steps.len() - 1;
        let prev = steps.drop_last();
        lemma_run_queues_in_order(prev);
        assert(queued_by(steps).drop_last() =~= queued_by(prev));
        assert(queued_by(steps).last() == steps.last().queued@);
        assert(steps.take(n) =~= prev);
        assert forall|k: int, j: int|
            0 <= k < steps.len() && 0 <= j < steps[k].queued@.len() implies concat_all(
                queued_by(steps),
            )[queued_count(steps.take(k)) + j] == #[trigger] steps[k].queued@[j] by {
            if k < n {
                assert(prev.take(k) =~= steps.take(k));
                assert(prev[k] == steps[k]);
                assert(steps.take(k + 1).drop_last() =~= steps.take(k));
                lemma_queued_count_mono(steps, k + 1, n);
            }
        }
    }
}

impl World {
    /// Performs every task that is queued when the run starts, first in first out. `perform`
    /// delivers a message or starts an actor, and returns the delivery's outcome and the tasks
    /// that doing so queued, which go behind. A message's actor is removed exactly when its
    /// handler asked to stop; the outcome of a start removes nothing. Tasks queued during the
    /// run stay queued for the next run.
    pub fn run_queued<F>(&mut self, perform: F) -> (r: Vec<WorldStep>)
        where
            F: FnMut(WorldTask) -> (Delivery, Vec<WorldTask>),
        requires
            forall|t: WorldTask| call_requires(perform, (t,)),
        ensures
            r@.len() == old(self).view().len(),
            forall|i: int|
                0 <= i < r@.len() ==> {
                    &&& (#[trigger] r@[i]).task == old(self).view()[i]
                    &&& call_ensures(perform, (r@[i].task,), (r@[i].outcome, r@[i].queued))
                    &&& r@[i].stop == (r@[i].task is Message && r@[i].outcome == Delivery::Handled(Next::Stop))
                },
            final(self).view() == concat_all(queued_by(r@)),
            final(self).view().len() == queued_count(r@),
            forall|k: int, j: int|
                0 <= k < r@.len() && 0 <= j < r@[k].queued@.len() ==> final(self).view()[queued_count(
                    r@.take(k),
                ) + j] == #[trigger] r@[k].queued@[j],
    {
        let ghost q0 = self.view();
        let ghost perform0 = perform;
        let mut perform = perform;
        let n = self.len();
        let mut steps: Vec<WorldStep> = Vec::new();
        let mut i: usize = 0;
        proof {
            assert(q0.skip(0) + concat_all(queued_by(steps@)) =~= q0);
        }
        while i < n
            invariant
                perform == perform0,
                forall|t: WorldTask| call_requires(perform0, (t,)),
                n == q0.len(),
                i <= n,
                steps@.len() == i,
                self.view() == q0.skip(i as int) + concat_all(queued_by(steps@)),
                forall|k: int|
                    0 <= k < i ==> {
                        &&& (#[trigger] steps@[k]).task == q0[k]
                        &&& call_ensures(perform0, (steps@[k].task,), (steps@[k].outcome, steps@[k].queued))
                        &&& steps@[k].stop == (steps@[k].task is Message && steps@[k].outcome == Delivery::Handled(Next::Stop))
                    },
            decreases n - i,
        {
            let task = match self.next_task() {
                Some(task) => task,
                None => {
                    proof {
                        assert(false);
                    }
                    WorldTask::Start { factory: 0 }
                },
            };
            let ghost after_take = self.view();
            proof {
                assert(after_take =~= q0.skip(i + 1) + concat_all(queued_by(steps@)));
            }
            let (outcome, queued) = perform(task);
            let mut j: usize = 0;
            while j < queued.len()
                invariant
                    j <= queued@.len(),
                    self.view() == after_take + queued@.take(j as int),
                decreases queued@.len() - j,
            {
                let t = queued[j];
                match t {
                    WorldTask::Message { address, message } => self.send(address, message),
                    WorldTask::Start { factory } => self.start(factory),
                }
                proof {
                    assert(queued@.take(j + 1) =~= queued@.take(j as int).push(t));
                    assert(after_take + queued@.take(j + 1) =~= (after_take + queued@.take(j as int)).push(t));
                }
                j += 1;
            }
            let stop = match task {
                WorldTask::Message { .. } => stop_after_delivery(outcome),
                WorldTask::Start { .. } => false,
            };
            let ghost prev_steps = steps@;
            let ghost batch = queued@;
            steps.push(WorldStep { task, outcome, queued, stop });
            proof {
                assert(queued_by(steps@) =~= queued_by(prev_steps).push(batch));
                assert(queued_by(steps@).drop_last() =~= queued_by(prev_steps));
                assert(batch.take(batch.len() as int) =~= batch);
                assert(self.view() =~= q0.skip(i + 1) + concat_all(queued_by(steps@)));
            }
            i += 1;
        }
        proof {
            assert(q0.skip(n as int) + concat_all(queued_by(steps@)) =~= concat_all(queued_by(steps@)));
            lemma_run_queues_in_order(steps@);
        }
        steps
    }

    /// The number of queued tasks.
    pub fn len(&self) -> (r: usize)
        ensures
            r == self.view().len(),
    {
        queue_len(&self.queue)
    }
}

/// What an actor's message handler asks for afterwards.
#[derive(Clone, Copy, Debug, PartialEq, Eq, Structural)]
pub enum Next {
    Continue,
    Stop,
}

/// The outcome of delivering a message to an actor.
#[derive(Clone, Copy, Debug, PartialEq, Eq, Structural)]
pub enum Delivery {
    /// The handler ran and asked for `Next`.
    Handled(Next),
    /// The actor could not be found.
    ActorMissing,
    /// The handler failed.
    HandlerFailed,
}

/// Whether the actor is removed after a delivery: only when its handler asked to stop.
pub fn stop_after_delivery(outcome: Delivery) -> (stop: bool)
    ensures
        stop <==> outcome == Delivery::Handled(Next::Stop),
{
    match outcome {
        Delivery::Handled(next) => match next {
            Next::Stop => true,
            Next::Continue => false,
        },
        Delivery::ActorMissing => false,
        Delivery::HandlerFailed => false,
    }
}

} // verus!
