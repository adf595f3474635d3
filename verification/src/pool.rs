//! The worker pool's job queue, as a state machine over plain values.
//!
//! Jobs are identified by plain numbers; the queue carries them to workers
//! in first-in first-out order, mixed with shutdown sentinels. The model
//! tracks every job ever submitted and every job handed to a worker, so it
//! can state that no job is lost or duplicated and that shutdown delivers
//! one sentinel to each worker. The threads themselves, and the closures
//! the ids stand for, run outside the library: the caller performs one
//! `dequeue` per idle worker and executes the job it names.

use vstd::prelude::*;

verus! {

/// What the queue carries: a job to execute, or the order to exit.
#[derive(PartialEq, Eq, Structural, Clone, Copy, Debug)]
pub enum Message {
    /// One unit of connection-handling work, by its id.
    Job(u64),
    /// The shutdown sentinel: the worker that receives it exits.
    Terminate,
}

/// The job ids carried by a queue, in order, sentinels left out.
pub open spec fn queued_jobs(q: Seq<Message>) -> Seq<u64>
    decreases q.len(),
{
    if q.len() == 0 {
        Seq::empty()
    } else {
        match q[0] {
            Message::Job(j) => seq![j] + queued_jobs(q.skip(1)),
            Message::Terminate => queued_jobs(q.skip(1)),
        }
    }
}

/// How many sentinels a queue carries.
pub open spec fn queued_sentinels(q: Seq<Message>) -> int
    decreases q.len(),
{
    if q.len() == 0 {
        0
    } else {
        match q[0] {
            Message::Job(j) => queued_sentinels(q.skip(1)),
            Message::Terminate => 1 + queued_sentinels(q.skip(1)),
        }
    }
}

pub proof fn lemma_queued_push_job(q: Seq<Message>, j: u64)
    ensures
        queued_jobs(q.push(Message::Job(j))) == queued_jobs(q).push(j),
        queued_sentinels(q.push(Message::Job(j))) == queued_sentinels(q),
    decreases q.len(),
{
    if q.len() == 0 {
        assert(q.push(Message::Job(j))[0] == Message::Job(j));
        assert(q.push(Message::Job(j)).skip(1) =~= Seq::<Message>::empty());
        assert(queued_jobs(q.push(Message::Job(j)).skip(1)) =~= Seq::<u64>::empty());
        assert(queued_jobs(q) =~= Seq::<u64>::empty());
        assert(queued_jobs(q.push(Message::Job(j))) == seq![j] + queued_jobs(
            q.push(Message::Job(j)).skip(1),
        ));
        assert(queued_jobs(q.push(Message::Job(j))) =~= queued_jobs(q).push(j));
        assert(queued_sentinels(q.push(Message::Job(j))) == queued_sentinels(
            q.push(Message::Job(j)).skip(1),
        ));
        assert(queued_sentinels(q.push(Message::Job(j)).skip(1)) == 0);
        assert(queued_sentinels(q) == 0);
    } else {
        assert(q.push(Message::Job(j)).skip(1) =~= q.skip(1).push(Message::Job(j)));
        lemma_queued_push_job(q.skip(1), j);
        assert(q.push(Message::Job(j))[0] == q[0]);
        match q[0] {
            Message::Job(h) => {
                assert(queued_jobs(q.push(Message::Job(j))) =~= queued_jobs(q).push(j));
                assert(queued_sentinels(q.push(Message::Job(j))) == queued_sentinels(q));
            },
            Message::Terminate => {
                assert(queued_sentinels(q.push(Message::Job(j))) == queued_sentinels(q));
            },
        }
    }
}

pub proof fn lemma_queued_push_sentinel(q: Seq<Message>)
    ensures
        queued_jobs(q.push(Message::Terminate)) == queued_jobs(q),
        queued_sentinels(q.push(Message::Terminate)) == queued_sentinels(q) + 1,
    decreases q.len(),
{
    if q.len() == 0 {
        assert(q.push(Message::Terminate)[0] == Message::Terminate);
        assert(q.push(Message::Terminate).skip(1) =~= Seq::<Message>::empty());
        assert(queued_jobs(q.push(Message::Terminate).skip(1)) =~= Seq::<u64>::empty());
        assert(queued_jobs(q) =~= Seq::<u64>::empty());
        assert(queued_jobs(q.push(Message::Terminate)) =~= queued_jobs(q));
        assert(queued_sentinels(q.push(Message::Terminate)) == 1 + queued_sentinels(
            q.push(Message::Terminate).skip(1),
        ));
    } else {
        assert(q.push(Message::Terminate).skip(1) =~= q.skip(1).push(Message::Terminate));
        lemma_queued_push_sentinel(q.skip(1));
        assert(q.push(Message::Terminate)[0] == q[0]);
        match q[0] {
            Message::Job(h) => {
                assert(queued_jobs(q.push(Message::Terminate)) =~= queued_jobs(q));
            },
            Message::Terminate => {},
        }
    }
}

pub proof fn lemma_queued_sentinels_bounds(q: Seq<Message>)
    ensures
        0 <= queued_sentinels(q) <= q.len(),
        queued_jobs(q).len() + queued_sentinels(q) == q.len(),
    decreases q.len(),
{
    if q.len() != 0 {
        lemma_queued_sentinels_bounds(q.skip(1));
    }
}

/// The worker pool's shared state: a fixed set of workers and the one
/// queue that carries their work.
pub struct WorkerPool {
    /// How many workers the pool was built with; fixed afterwards.
    pub worker_count: usize,
    /// The queue, front first.
    pub queue: Vec<Message>,
    /// How many workers have received a sentinel and exited.
    pub workers_exited: usize,
    /// Whether `shutdown` has been called.
    pub shutting_down: bool,
    /// Every job id ever submitted, in submission order.
    pub submitted: Ghost<Seq<u64>>,
    /// Every job id handed to a worker, in delivery order.
    pub delivered: Ghost<Seq<u64>>,
}

impl WorkerPool {
    /// The pool's invariant: jobs are conserved (delivered ones followed by
    /// queued ones are exactly the submitted ones, in order), and sentinels
    /// are accounted for (none before shutdown; exactly one per worker
    /// after, each either still queued or already taken by an exiting
    /// worker).
    pub open spec fn wf(self) -> bool {
        &&& self.worker_count >= 1
        &&& self.submitted@ == self.delivered@ + queued_jobs(self.queue@)
        &&& self.workers_exited <= self.worker_count
        &&& (if self.shutting_down {
            queued_sentinels(self.queue@) + self.workers_exited == self.worker_count
        } else {
            queued_sentinels(self.queue@) == 0 && self.workers_exited == 0
        })
    }

    /// Builds a pool of `size` workers with an empty queue. A pool of no
    /// workers could never execute anything, so `size` must be positive.
    pub fn new(size: usize) -> (r: WorkerPool)
        requires
            size >= 1,
        ensures
            r.wf(),
            r.worker_count == size,
            r.queue@.len() == 0,
            r.submitted@ == Seq::<u64>::empty(),
            r.delivered@ == Seq::<u64>::empty(),
            !r.shutting_down,
    {
        let r = WorkerPool {
            worker_count: size,
            queue: Vec::new(),
            workers_exited: 0,
            shutting_down: false,
            submitted: Ghost(Seq::empty()),
            delivered: Ghost(Seq::empty()),
        };
        proof {
            assert(r.submitted@ =~= r.delivered@ + queued_jobs(r.queue@));
        }
        r
    }

    /// Enqueues one job. Nothing already queued is disturbed, and the job
    /// is recorded as submitted.
    pub fn submit(&mut self, job: u64)
        requires
            old(self).wf(),
            !old(self).shutting_down,
        ensures
            final(self).wf(),
            !final(self).shutting_down,
            final(self).worker_count == old(self).worker_count,
            final(self).queue@ == old(self).queue@.push(Message::Job(job)),
            final(self).submitted@ == old(self).submitted@.push(job),
            final(self).delivered@ == old(self).delivered@,
    {
        self.queue.push(Message::Job(job));
        proof {
            self.submitted@ = self.submitted@.push(job);
            lemma_queued_push_job(old(self).queue@, job);
            assert(self.submitted@ =~= self.delivered@ + queued_jobs(self.queue@));
        }
    }

    /// Takes the front message for an idle worker. A job moves from the
    /// queue to the delivered record — each delivery removes it from one
    /// and appends it to the other, so it is handed out exactly once, in
    /// submission order. A sentinel retires one worker. An empty queue
    /// hands out nothing and the worker blocks outside the model.
    pub fn dequeue(&mut self) -> (r: Option<Message>)
        requires
            old(self).wf(),
        ensures
            final(self).wf(),
            final(self).worker_count == old(self).worker_count,
            final(self).shutting_down == old(self).shutting_down,
            final(self).submitted@ == old(self).submitted@,
            match r {
                None => old(self).queue@.len() == 0 && *final(self) == *old(self),
                Some(m) => {
                    &&& old(self).queue@.len() > 0
                    &&& m == old(self).queue@[0]
                    &&& final(self).queue@ == old(self).queue@.skip(1)
                    &&& match m {
                        Message::Job(j) => {
                            &&& final(self).delivered@ == old(self).delivered@.push(j)
                            &&& j == queued_jobs(old(self).queue@)[0]
                            &&& final(self).workers_exited == old(self).workers_exited
                        },
                        Message::Terminate => {
                            &&& final(self).delivered@ == old(self).delivered@
                            &&& final(self).workers_exited == old(self).workers_exited + 1
                        },
                    }
                },
            },
    {
        if self.queue.len() == 0 {
            return None;
        }
        let m = self.queue.remove(0);
        proof {
            assert(self.queue@ =~= old(self).queue@.skip(1));
        }
        match m {
            Message::Job(j) => {
                proof {
                    self.delivered@ = self.delivered@.push(j);
                    assert(queued_jobs(old(self).queue@) == seq![j] + queued_jobs(self.queue@));
                    assert(queued_jobs(old(self).queue@)[0] == j);
                    assert(self.delivered@ + queued_jobs(self.queue@) =~= old(self).delivered@
                        + queued_jobs(old(self).queue@));
                }
                Some(Message::Job(j))
            },
            Message::Terminate => {
                proof {
                    lemma_queued_sentinels_bounds(self.queue@);
                    assert(queued_sentinels(old(self).queue@) == 1 + queued_sentinels(
                        self.queue@,
                    ));
                }
                self.workers_exited = self.workers_exited + 1;
                Some(Message::Terminate)
            },
        }
    }

    /// Begins shutdown: appends one sentinel per worker, behind every job
    /// already queued, so no submitted job is abandoned.
    pub fn begin_shutdown(&mut self)
        requires
            old(self).wf(),
            !old(self).shutting_down,
        ensures
            final(self).wf(),
            final(self).shutting_down,
            final(self).worker_count == old(self).worker_count,
            final(self).submitted@ == old(self).submitted@,
            final(self).delivered@ == old(self).delivered@,
            queued_jobs(final(self).queue@) == queued_jobs(old(self).queue@),
            queued_sentinels(final(self).queue@) == old(self).worker_count,
    {
        let mut sent: usize = 0;
        while sent < self.worker_count
            invariant
                sent <= self.worker_count,
                self.worker_count == old(self).worker_count,
                self.workers_exited == old(self).workers_exited,
                self.shutting_down == old(self).shutting_down,
                self.submitted@ == old(self).submitted@,
                self.delivered@ == old(self).delivered@,
                queued_jobs(self.queue@) == queued_jobs(old(self).queue@),
                queued_sentinels(self.queue@) == queued_sentinels(old(self).queue@) + sent,
            decreases self.worker_count - sent,
        {
            proof {
                lemma_queued_push_sentinel(self.queue@);
            }
            self.queue.push(Message::Terminate);
            sent = sent + 1;
        }
        self.shutting_down = true;
    }

    /// Shuts the pool down: sends one sentinel per worker, then blocks
    /// until every worker has exited. When it returns, no worker is left
    /// runnable, and every job submitted beforehand was handed to a worker
    /// — jobs go out before the sentinels behind them, so none is
    /// abandoned. Each step of the drain is one worker taking the front
    /// message.
    pub fn shutdown(&mut self)
        requires
            old(self).wf(),
            !old(self).shutting_down,
        ensures
            final(self).wf(),
            final(self).shutting_down,
            final(self).worker_count == old(self).worker_count,
            final(self).submitted@ == old(self).submitted@,
            final(self).queue@.len() == 0,
            final(self).workers_exited == old(self).worker_count,
            final(self).delivered@ == old(self).submitted@,
    {
        self.begin_shutdown();
        while self.queue.len() > 0
            invariant
                self.wf(),
                self.shutting_down,
                self.worker_count == old(self).worker_count,
                self.submitted@ == old(self).submitted@,
            decreases self.queue@.len(),
        {
            let _message = self.dequeue();
        }
        proof {
            assert(queued_sentinels(self.queue@) == 0);
            assert(queued_jobs(self.queue@).len() == 0);
            assert(self.delivered@ =~= self.submitted@);
        }
    }
}

} // verus!
