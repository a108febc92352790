//! The decisions of the worker that serves one queue: taking in new jobs,
//! recording who waits for which job, and releasing the job at the front of
//! the queue, to its requester, back to the end of the queue, or to the failed
//! jobs. The waiting and the channels themselves belong to the caller, which
//! hands each received message, or the reason none came, to these functions.
use vstd::prelude::*;
use std::collections::HashMap;
use crate::config::QueueConfig;
use crate::failed_jobs::FailedJobs;
use crate::job::{JobView, Queue};
use crate::shared_queues::{job_views, uuids_of, Enqueue, SharedQueues};

verus! {

broadcast use vstd::std_specs::hash::group_hash_axioms;

/// Why a channel had no message.
pub enum ChannelError {
    /// Nothing was sent yet.
    Empty,
    /// Every sender is gone: nothing will ever come.
    Disconnected,
}

/// Why the worker has to stop.
pub enum WorkerError {
    /// One of its channels lost all its senders.
    ChannelDisconnected,
    /// Its queue vanished while a new job was to be queued.
    QueueNotFound { queue_name: String },
    /// Its queue vanished while a job was to be released.
    MainQueueNotFound { queue_name: String },
}

impl WorkerError {
    /// The reason, as the worker logs it.
    pub fn message(&self) -> (text: String)
        ensures
            text@ == match self {
                WorkerError::ChannelDisconnected => "Channel disconnected, worker has to resign..."@,
                WorkerError::QueueNotFound { queue_name } => "Could not find the queue named: "@ + queue_name@
                    + ". Exiting the worker process"@,
                WorkerError::MainQueueNotFound { queue_name } => "Could not find queue named: "@ + queue_name@,
            },
    {
        match self {
            WorkerError::ChannelDisconnected => "Channel disconnected, worker has to resign...".to_owned(),
            WorkerError::QueueNotFound { queue_name } => {
                let mut text = "Could not find the queue named: ".to_owned();
                text.append(queue_name.as_str());
                text.append(". Exiting the worker process");
                text
            },
            WorkerError::MainQueueNotFound { queue_name } => {
                let mut text = "Could not find queue named: ".to_owned();
                text.append(queue_name.as_str());
                text
            },
        }
    }
}

/// An empty channel is no reason to stop; a disconnected one is.
pub fn channel_empty_or_return(channel_error: ChannelError) -> (result: Result<(), WorkerError>)
    ensures
        match channel_error {
            ChannelError::Empty => result == Ok::<(), WorkerError>(()),
            ChannelError::Disconnected => result == Err::<(), WorkerError>(WorkerError::ChannelDisconnected),
        },
{
    match channel_error {
        ChannelError::Empty => Ok(()),
        ChannelError::Disconnected => Err(WorkerError::ChannelDisconnected),
    }
}

/// The way one release round goes.
pub enum ReleaseStep {
    /// Nobody waits for a job: nothing is released.
    NothingAwaited,
    /// The worker's queue is gone.
    MissingQueue,
    /// Neither the queue nor its retry queue holds a job.
    QueueEmpty,
    /// The front job of the queue goes to the one who waits for it.
    Deliver,
    /// Nobody waits for the front job of the queue, and it has retries left: it
    /// goes to the end of the queue with one more retry counted.
    Requeue,
    /// Nobody waits for the front job of the queue, it has no retry left there,
    /// and the retry queue is on: it goes to the end of the retry queue, its
    /// retries counted from zero again.
    MoveToRetryQueue,
    /// Nobody waits for the front job of the queue, it has no retry left there,
    /// and the retry queue is off: it goes to the failed jobs.
    Fail,
    /// The queue is empty, and the front job of the retry queue goes to the one
    /// who waits for it.
    DeliverRetried,
    /// The queue is empty, nobody waits for the front job of the retry queue, and
    /// it has retries left: it goes to the end of the retry queue with one more
    /// retry counted.
    RequeueRetried,
    /// The queue is empty, nobody waits for the front job of the retry queue, and
    /// it has no retry left: it goes to the failed jobs.
    FailRetried,
}

/// How a release round on the queue `name` goes, where `retry` is its retry
/// queue, `awaited` holds the uuids that someone waits for, and `config` gives
/// the retries allowed in the queue and in the retry queue. The retry queue is
/// served only while the queue itself is empty.
pub open spec fn release_step(
    queues: Map<Seq<char>, Seq<JobView>>,
    retry: Seq<JobView>,
    awaited: Set<u128>,
    name: Seq<char>,
    config: QueueConfig,
) -> ReleaseStep {
    if awaited.is_empty() {
        ReleaseStep::NothingAwaited
    } else if !queues.dom().contains(name) {
        ReleaseStep::MissingQueue
    } else if queues[name].len() > 0 {
        if awaited.contains(queues[name][0].uuid) {
            ReleaseStep::Deliver
        } else if queues[name][0].retry_count < config.main_queue_retry.on_item_release_not_requested {
            ReleaseStep::Requeue
        } else if config.retry_queue.enable {
            ReleaseStep::MoveToRetryQueue
        } else {
            ReleaseStep::Fail
        }
    } else if retry.len() > 0 {
        if awaited.contains(retry[0].uuid) {
            ReleaseStep::DeliverRetried
        } else if retry[0].retry_count < config.retry_queue.retry_amount {
            ReleaseStep::RequeueRetried
        } else {
            ReleaseStep::FailRetried
        }
    } else {
        ReleaseStep::QueueEmpty
    }
}

/// Whether a round of this way takes the front job of the queue.
pub open spec fn takes_from_queue(step: ReleaseStep) -> bool {
    step == ReleaseStep::Deliver || step == ReleaseStep::Requeue || step == ReleaseStep::MoveToRetryQueue
        || step == ReleaseStep::Fail
}

/// Whether a round of this way takes the front job of the retry queue.
pub open spec fn takes_from_retry_queue(step: ReleaseStep) -> bool {
    step == ReleaseStep::DeliverRetried || step == ReleaseStep::RequeueRetried || step == ReleaseStep::FailRetried
}

/// The job that a round takes out: the front job of the queue, or else of the
/// retry queue.
pub open spec fn released_job(
    queues: Map<Seq<char>, Seq<JobView>>,
    retry: Seq<JobView>,
    awaited: Set<u128>,
    name: Seq<char>,
    config: QueueConfig,
) -> JobView {
    if takes_from_queue(release_step(queues, retry, awaited, name, config)) {
        queues[name][0]
    } else {
        retry[0]
    }
}

/// A job with one more retry counted.
pub open spec fn retried(job: JobView) -> JobView {
    JobView { retry_count: (job.retry_count + 1) as u8, ..job }
}

/// A job with its retries counted from zero again.
pub open spec fn retries_reset(job: JobView) -> JobView {
    JobView { retry_count: 0, ..job }
}

/// The queues after a release round on the queue `name`.
pub open spec fn queues_after_release(
    queues: Map<Seq<char>, Seq<JobView>>,
    retry: Seq<JobView>,
    awaited: Set<u128>,
    name: Seq<char>,
    config: QueueConfig,
) -> Map<Seq<char>, Seq<JobView>> {
    match release_step(queues, retry, awaited, name, config) {
        ReleaseStep::Deliver => queues.insert(name, queues[name].drop_first()),
        ReleaseStep::MoveToRetryQueue => queues.insert(name, queues[name].drop_first()),
        ReleaseStep::Fail => queues.insert(name, queues[name].drop_first()),
        ReleaseStep::Requeue => queues.insert(name, queues[name].drop_first().push(retried(queues[name][0]))),
        _ => queues,
    }
}

/// The retry queue of the queue `name` after a release round.
pub open spec fn retry_after_release(
    queues: Map<Seq<char>, Seq<JobView>>,
    retry: Seq<JobView>,
    awaited: Set<u128>,
    name: Seq<char>,
    config: QueueConfig,
) -> Seq<JobView> {
    match release_step(queues, retry, awaited, name, config) {
        ReleaseStep::MoveToRetryQueue => retry.push(retries_reset(queues[name][0])),
        ReleaseStep::DeliverRetried => retry.drop_first(),
        ReleaseStep::FailRetried => retry.drop_first(),
        ReleaseStep::RequeueRetried => retry.drop_first().push(retried(retry[0])),
        _ => retry,
    }
}

/// The failed jobs of the queue `name` after a release round, where `failed`
/// were its failed jobs before.
pub open spec fn failed_after_release(
    queues: Map<Seq<char>, Seq<JobView>>,
    retry: Seq<JobView>,
    awaited: Set<u128>,
    name: Seq<char>,
    config: QueueConfig,
    failed: Seq<JobView>,
) -> Seq<JobView> {
    match release_step(queues, retry, awaited, name, config) {
        ReleaseStep::Fail => failed.push(queues[name][0]),
        ReleaseStep::FailRetried => failed.push(retry[0]),
        _ => failed,
    }
}

/// The jobs that a release round on the queue `name` hands to their requesters.
pub open spec fn delivered_by_release(
    queues: Map<Seq<char>, Seq<JobView>>,
    retry: Seq<JobView>,
    awaited: Set<u128>,
    name: Seq<char>,
    config: QueueConfig,
) -> Seq<JobView> {
    match release_step(queues, retry, awaited, name, config) {
        ReleaseStep::Deliver => seq![queues[name][0]],
        ReleaseStep::DeliverRetried => seq![retry[0]],
        _ => Seq::empty(),
    }
}

/// Taking the front of a sequence and putting a job with the same uuid at the
/// end keeps the uuids, counted with their multiplicity.
proof fn lemma_uuids_rotate(jobs: Seq<JobView>, back: JobView)
    requires
        jobs.len() > 0,
        back.uuid == jobs[0].uuid,
    ensures
        uuids_of(jobs.drop_first().push(back)).to_multiset() == uuids_of(jobs).to_multiset(),
        uuids_of(jobs.drop_first()).to_multiset().insert(jobs[0].uuid) == uuids_of(jobs).to_multiset(),
{
    broadcast use vstd::seq_lib::group_to_multiset_ensures;
    let u = uuids_of(jobs);
    assert(u.remove(0) =~= uuids_of(jobs.drop_first()));
    assert(u.to_multiset().count(u[0]) > 0);
    assert(uuids_of(jobs.drop_first().push(back)) =~= u.remove(0).push(u[0]));
    assert(u.remove(0).to_multiset().insert(u[0]) =~= u.to_multiset());
}

/// No job is lost by a release round: the uuids in the worker's queue, in its
/// retry queue, among its failed jobs and among those handed to their requesters
/// afterwards are, counted with their multiplicity, the uuids in its queue, its
/// retry queue and among its failed jobs before; every other queue is left as it
/// was.
pub proof fn lemma_release_loses_no_job(
    queues: Map<Seq<char>, Seq<JobView>>,
    retry: Seq<JobView>,
    awaited: Set<u128>,
    name: Seq<char>,
    config: QueueConfig,
    failed: Seq<JobView>,
)
    requires
        queues.dom().contains(name),
    ensures
        ({
            let after = queues_after_release(queues, retry, awaited, name, config);
            let retry_after = retry_after_release(queues, retry, awaited, name, config);
            let failed_after = failed_after_release(queues, retry, awaited, name, config, failed);
            let delivered = delivered_by_release(queues, retry, awaited, name, config);
            &&& after.dom() == queues.dom()
            &&& uuids_of(after[name]).to_multiset().add(uuids_of(retry_after).to_multiset()).add(
                uuids_of(failed_after).to_multiset(),
            ).add(uuids_of(delivered).to_multiset()) == uuids_of(queues[name]).to_multiset().add(
                uuids_of(retry).to_multiset(),
            ).add(uuids_of(failed).to_multiset())
            &&& forall|other: Seq<char>| other != name && #[trigger] queues.dom().contains(other)
                ==> after[other] == queues[other]
        }),
{
    broadcast use vstd::seq_lib::group_to_multiset_ensures;
    broadcast use vstd::multiset::group_multiset_axioms;
    let q = queues[name];
    let step = release_step(queues, retry, awaited, name, config);
    let after = queues_after_release(queues, retry, awaited, name, config);
    let retry_after = retry_after_release(queues, retry, awaited, name, config);
    let failed_after = failed_after_release(queues, retry, awaited, name, config, failed);
    let delivered = delivered_by_release(queues, retry, awaited, name, config);
    let mq = uuids_of(q).to_multiset();
    let mr = uuids_of(retry).to_multiset();
    let mf = uuids_of(failed).to_multiset();
    let lhs = uuids_of(after[name]).to_multiset().add(uuids_of(retry_after).to_multiset()).add(
        uuids_of(failed_after).to_multiset(),
    ).add(uuids_of(delivered).to_multiset());
    assert(uuids_of(Seq::<JobView>::empty()) =~= Seq::<u128>::empty());
    assert(after.dom() =~= queues.dom());
    if takes_from_queue(step) {
        let front = q[0];
        lemma_uuids_rotate(q, front);
        assert(uuids_of(q.drop_first()).to_multiset() =~= mq.remove(front.uuid));
        if step == ReleaseStep::Deliver {
            assert(uuids_of(delivered) =~= seq![front.uuid]);
            assert(lhs =~= mq.add(mr).add(mf));
        } else if step == ReleaseStep::Requeue {
            lemma_uuids_rotate(q, retried(front));
            assert(lhs =~= mq.add(mr).add(mf));
        } else if step == ReleaseStep::MoveToRetryQueue {
            assert(uuids_of(retry_after) =~= uuids_of(retry).push(front.uuid));
            assert(lhs =~= mq.add(mr).add(mf));
        } else {
            assert(uuids_of(failed_after) =~= uuids_of(failed).push(front.uuid));
            assert(lhs =~= mq.add(mr).add(mf));
        }
    } else if takes_from_retry_queue(step) {
        let front = retry[0];
        lemma_uuids_rotate(retry, front);
        assert(uuids_of(retry.drop_first()).to_multiset() =~= mr.remove(front.uuid));
        if step == ReleaseStep::DeliverRetried {
            assert(uuids_of(delivered) =~= seq![front.uuid]);
            assert(lhs =~= mq.add(mr).add(mf));
        } else if step == ReleaseStep::RequeueRetried {
            lemma_uuids_rotate(retry, retried(front));
            assert(lhs =~= mq.add(mr).add(mf));
        } else {
            assert(uuids_of(failed_after) =~= uuids_of(failed).push(front.uuid));
            assert(lhs =~= mq.add(mr).add(mf));
        }
    } else {
        assert(lhs =~= mq.add(mr).add(mf));
    }
}

/// Retries stay within their limits: where no job of the worker's queue has been
/// retried more than the queue allows, and none of its retry queue more than the
/// retry queue allows, the same holds after a release round.
pub proof fn lemma_release_keeps_retries_within_limit(
    queues: Map<Seq<char>, Seq<JobView>>,
    retry: Seq<JobView>,
    awaited: Set<u128>,
    name: Seq<char>,
    config: QueueConfig,
)
    requires
        queues.dom().contains(name),
        forall|i: int| 0 <= i < queues[name].len() ==> #[trigger] queues[name][i].retry_count
            <= config.main_queue_retry.on_item_release_not_requested,
        forall|i: int| 0 <= i < retry.len() ==> #[trigger] retry[i].retry_count <= config.retry_queue.retry_amount,
    ensures
        ({
            let after = queues_after_release(queues, retry, awaited, name, config)[name];
            let retry_after = retry_after_release(queues, retry, awaited, name, config);
            &&& forall|i: int| 0 <= i < after.len() ==> #[trigger] after[i].retry_count
                <= config.main_queue_retry.on_item_release_not_requested
            &&& forall|i: int| 0 <= i < retry_after.len() ==> #[trigger] retry_after[i].retry_count
                <= config.retry_queue.retry_amount
        }),
{
    let q = queues[name];
    let step = release_step(queues, retry, awaited, name, config);
    let after = queues_after_release(queues, retry, awaited, name, config)[name];
    let retry_after = retry_after_release(queues, retry, awaited, name, config);
    assert forall|i: int| 0 <= i < after.len() implies #[trigger] after[i].retry_count
        <= config.main_queue_retry.on_item_release_not_requested by {
        if takes_from_queue(step) && i + 1 < q.len() {
            assert(after[i] == q[i + 1]);
        }
    }
    assert forall|i: int| 0 <= i < retry_after.len() implies #[trigger] retry_after[i].retry_count
        <= config.retry_queue.retry_amount by {
        if takes_from_retry_queue(step) && i + 1 < retry.len() {
            assert(retry_after[i] == retry[i + 1]);
        }
    }
}

/// Release goes in arrival order: a round takes out only the front job of the
/// queue, or, while the queue is empty, the front job of the retry queue; the
/// jobs behind it keep their order, and a job is handed out only to one who
/// waits for its uuid.
pub proof fn lemma_release_takes_the_front_job(
    queues: Map<Seq<char>, Seq<JobView>>,
    retry: Seq<JobView>,
    awaited: Set<u128>,
    name: Seq<char>,
    config: QueueConfig,
)
    requires
        queues.dom().contains(name),
    ensures
        ({
            let step = release_step(queues, retry, awaited, name, config);
            let q = queues[name];
            let after = queues_after_release(queues, retry, awaited, name, config)[name];
            let retry_after = retry_after_release(queues, retry, awaited, name, config);
            &&& takes_from_queue(step) ==> q.len() > 0
                && after.subrange(0, q.len() - 1) == q.subrange(1, q.len() as int)
                && retry_after.subrange(0, retry.len() as int) == retry
            &&& takes_from_retry_queue(step) ==> q.len() == 0 && retry.len() > 0 && after == q
                && retry_after.subrange(0, retry.len() - 1) == retry.subrange(1, retry.len() as int)
            &&& !takes_from_queue(step) && !takes_from_retry_queue(step) ==> after == q && retry_after == retry
            &&& delivered_by_release(queues, retry, awaited, name, config).len() > 0 ==> awaited.contains(
                released_job(queues, retry, awaited, name, config).uuid,
            )
        }),
{
    let step = release_step(queues, retry, awaited, name, config);
    let q = queues[name];
    let after = queues_after_release(queues, retry, awaited, name, config)[name];
    let retry_after = retry_after_release(queues, retry, awaited, name, config);
    if takes_from_queue(step) {
        assert(after.subrange(0, q.len() - 1) =~= q.subrange(1, q.len() as int));
        assert(retry_after.subrange(0, retry.len() as int) =~= retry);
    }
    if takes_from_retry_queue(step) {
        assert(retry_after.subrange(0, retry.len() - 1) =~= retry.subrange(1, retry.len() as int));
    }
}

/// A job that used up its retries in the queue goes to the retry queue where
/// that is on, and to the failed jobs where it is off; from the retry queue a
/// job goes to the failed jobs only once it used up the retries allowed there too.
pub proof fn lemma_used_up_jobs_go_to_the_retry_queue(
    queues: Map<Seq<char>, Seq<JobView>>,
    retry: Seq<JobView>,
    awaited: Set<u128>,
    name: Seq<char>,
    config: QueueConfig,
)
    requires
        queues.dom().contains(name),
    ensures
        ({
            let step = release_step(queues, retry, awaited, name, config);
            &&& (!awaited.is_empty() && queues[name].len() > 0 && !awaited.contains(queues[name][0].uuid)
                && queues[name][0].retry_count >= config.main_queue_retry.on_item_release_not_requested)
                ==> step == if config.retry_queue.enable {
                    ReleaseStep::MoveToRetryQueue
                } else {
                    ReleaseStep::Fail
                }
            &&& step == ReleaseStep::Fail ==> !config.retry_queue.enable
            &&& step == ReleaseStep::FailRetried ==> retry[0].retry_count >= config.retry_queue.retry_amount
        }),
{
}

/// A job that someone waits for is always handed to them: where the front job of
/// the worker's queue is awaited, or, while that queue is empty, the front job of
/// its retry queue, the round delivers exactly that job, whatever its retry count
/// and whether the retry queue is on, and no job fails.
pub proof fn lemma_awaited_front_job_is_delivered(
    queues: Map<Seq<char>, Seq<JobView>>,
    retry: Seq<JobView>,
    awaited: Set<u128>,
    name: Seq<char>,
    config: QueueConfig,
    failed: Seq<JobView>,
)
    requires
        queues.dom().contains(name),
    ensures
        queues[name].len() > 0 && awaited.contains(queues[name][0].uuid) ==> {
            &&& delivered_by_release(queues, retry, awaited, name, config) == seq![queues[name][0]]
            &&& failed_after_release(queues, retry, awaited, name, config, failed) == failed
            &&& queues_after_release(queues, retry, awaited, name, config)[name] == queues[name].drop_first()
            &&& retry_after_release(queues, retry, awaited, name, config) == retry
        },
        queues[name].len() == 0 && retry.len() > 0 && awaited.contains(retry[0].uuid) ==> {
            &&& delivered_by_release(queues, retry, awaited, name, config) == seq![retry[0]]
            &&& failed_after_release(queues, retry, awaited, name, config, failed) == failed
            &&& queues_after_release(queues, retry, awaited, name, config) == queues
            &&& retry_after_release(queues, retry, awaited, name, config) == retry.drop_first()
        },
{
}

/// Only a job that nobody waits for fails: where a round adds to the failed jobs,
/// it adds one job, the front job of the worker's queue, or, while that queue is
/// empty, of its retry queue, and nobody waits for its uuid.
pub proof fn lemma_only_unawaited_jobs_fail(
    queues: Map<Seq<char>, Seq<JobView>>,
    retry: Seq<JobView>,
    awaited: Set<u128>,
    name: Seq<char>,
    config: QueueConfig,
    failed: Seq<JobView>,
)
    requires
        queues.dom().contains(name),
    ensures
        ({
            let failed_after = failed_after_release(queues, retry, awaited, name, config, failed);
            failed_after != failed ==> {
                &&& failed_after == failed.push(failed_after.last())
                &&& failed_after.last() == if queues[name].len() > 0 {
                    queues[name][0]
                } else {
                    retry[0]
                }
                &&& !awaited.contains(failed_after.last().uuid)
                &&& delivered_by_release(queues, retry, awaited, name, config).len() == 0
            }
        }),
{
    let failed_after = failed_after_release(queues, retry, awaited, name, config, failed);
    if failed_after != failed {
        assert(failed_after.drop_last() =~= failed);
    }
}

/// What a release round hands back to the caller.
pub enum Release<S> {
    /// Nobody waits for a job.
    NothingAwaited,
    /// Neither the queue nor its retry queue holds a job.
    QueueEmpty,
    /// Send `job` through `confirmation`, the channel of the one who waits for it.
    Deliver { confirmation: S, job: Queue },
    /// The job went to the end of the queue, or of the retry queue, with one more
    /// retry counted.
    Requeued { uuid: u128 },
    /// The job went to the end of the retry queue.
    MovedToRetryQueue { uuid: u128 },
    /// The job went to the failed jobs.
    Failed { uuid: u128, identifier: String },
}

/// The worker of one queue: the queue's name, whether it was asked to stop, its
/// retry queue, and, for each uuid that someone waits for, the channel to answer on.
pub struct JobWorker<S> {
    queue_name: String,
    stop_requested: bool,
    retry_queue: std::collections::VecDeque<Queue>,
    awaiting_dequeue_confirmation_channels: HashMap<u128, S>,
}

impl<S> JobWorker<S> {
    /// The name of the worker's queue.
    pub closed spec fn name(&self) -> Seq<char> {
        self.queue_name@
    }

    /// Whether the worker was asked to stop; it then takes in no new job.
    pub closed spec fn stop_requested(&self) -> bool {
        self.stop_requested
    }

    /// The jobs of the worker's retry queue, front first.
    pub closed spec fn retry_queue(&self) -> Seq<JobView> {
        job_views(self.retry_queue@)
    }

    /// For each uuid that someone waits for, the channel to answer on.
    pub closed spec fn awaiting(&self) -> Map<u128, S> {
        self.awaiting_dequeue_confirmation_channels@
    }

    /// A worker for the queue `queue_name`: not asked to stop, an empty retry
    /// queue, nobody waiting.
    pub fn new(queue_name: String) -> (worker: JobWorker<S>)
        ensures
            worker.name() == queue_name@,
            !worker.stop_requested(),
            worker.retry_queue() == Seq::<JobView>::empty(),
            worker.awaiting() == Map::<u128, S>::empty(),
    {
        let worker = JobWorker {
            queue_name,
            stop_requested: false,
            retry_queue: std::collections::VecDeque::new(),
            awaiting_dequeue_confirmation_channels: HashMap::new(),
        };
        proof {
            assert(worker.retry_queue() =~= Seq::<JobView>::empty());
        }
        worker
    }

    /// Takes what the stop channel gave: a stop signal makes the worker stop
    /// taking in jobs, and the answer `true` tells the caller to close that
    /// channel.
    pub fn receive_stop(&mut self, polled: Result<(), ChannelError>) -> (result: Result<bool, WorkerError>)
        ensures
            final(self).name() == old(self).name(),
            final(self).awaiting() == old(self).awaiting(),
            final(self).retry_queue() == old(self).retry_queue(),
            match polled {
                Ok(()) => result == Ok::<bool, WorkerError>(true) && final(self).stop_requested(),
                Err(ChannelError::Empty) => result == Ok::<bool, WorkerError>(false)
                    && final(self).stop_requested() == old(self).stop_requested(),
                Err(ChannelError::Disconnected) => result == Err::<bool, WorkerError>(WorkerError::ChannelDisconnected)
                    && final(self).stop_requested() == old(self).stop_requested(),
            },
    {
        match polled {
            Ok(()) => {
                self.stop_requested = true;
                Ok(true)
            },
            Err(channel_error) => {
                channel_empty_or_return(channel_error)?;
                Ok(false)
            },
        }
    }

    /// Takes what the job channel gave. Once a stop was requested, whatever came
    /// is dropped. Otherwise a new job goes to the end of the worker's queue,
    /// unless the queue already holds `queue_size_limit` jobs: then the job is
    /// handed back, refused.
    pub fn receive_job(
        &mut self,
        queues: &mut SharedQueues,
        config: &QueueConfig,
        polled: Result<Queue, ChannelError>,
    ) -> (result: Result<Option<Queue>, WorkerError>)
        requires
            old(queues).wf(),
        ensures
            *final(self) == *old(self),
            final(queues).wf(),
            final(queues).accepts_new_entries() == old(queues).accepts_new_entries(),
            old(self).stop_requested() ==> result == Ok::<Option<Queue>, WorkerError>(None)
                && final(queues).queues() == old(queues).queues(),
            !old(self).stop_requested() ==> match polled {
                Ok(job) => if !old(queues).queues().dom().contains(old(self).name()) {
                    final(queues).queues() == old(queues).queues() && match result {
                        Err(WorkerError::QueueNotFound { queue_name }) => queue_name@ == old(self).name(),
                        _ => false,
                    }
                } else if old(queues).queues()[old(self).name()].len() < config.queue_size_limit {
                    result == Ok::<Option<Queue>, WorkerError>(None)
                        && final(queues).queues() == old(queues).queues().insert(
                            old(self).name(),
                            old(queues).queues()[old(self).name()].push(job@),
                        )
                } else {
                    result == Ok::<Option<Queue>, WorkerError>(Some(job))
                        && final(queues).queues() == old(queues).queues()
                },
                Err(ChannelError::Empty) => result == Ok::<Option<Queue>, WorkerError>(None)
                    && final(queues).queues() == old(queues).queues(),
                Err(ChannelError::Disconnected) => result == Err::<Option<Queue>, WorkerError>(
                    WorkerError::ChannelDisconnected,
                ) && final(queues).queues() == old(queues).queues(),
            },
    {
        if self.stop_requested {
            return Ok(None);
        }
        match polled {
            Ok(job) => match queues.enqueue_job(&self.queue_name, job, config.queue_size_limit) {
                Enqueue::Queued => Ok(None),
                Enqueue::QueueFull(refused) => Ok(Some(refused)),
                Enqueue::MissingQueue => Err(WorkerError::QueueNotFound { queue_name: self.queue_name.clone() }),
            },
            Err(channel_error) => {
                channel_empty_or_return(channel_error)?;
                Ok(None)
            },
        }
    }

    /// Takes what the dequeue channel gave: a request for the job `uuid`, with
    /// the channel to answer on, which replaces any earlier one for that uuid.
    pub fn receive_dequeue_request(&mut self, polled: Result<(u128, S), ChannelError>) -> (result: Result<(), WorkerError>)
        ensures
            final(self).name() == old(self).name(),
            final(self).stop_requested() == old(self).stop_requested(),
            final(self).retry_queue() == old(self).retry_queue(),
            match polled {
                Ok((uuid, confirmation)) => result == Ok::<(), WorkerError>(())
                    && final(self).awaiting() == old(self).awaiting().insert(uuid, confirmation),
                Err(ChannelError::Empty) => result == Ok::<(), WorkerError>(())
                    && final(self).awaiting() == old(self).awaiting(),
                Err(ChannelError::Disconnected) => result == Err::<(), WorkerError>(WorkerError::ChannelDisconnected)
                    && final(self).awaiting() == old(self).awaiting(),
            },
    {
        match polled {
            Ok((uuid, confirmation)) => {
                self.awaiting_dequeue_confirmation_channels.insert(uuid, confirmation);
                Ok(())
            },
            Err(channel_error) => channel_empty_or_return(channel_error),
        }
    }

    /// One release round, where someone waits for a job. The front job of the
    /// worker's queue, or, while that queue is empty, of its retry queue, goes to
    /// the one who waits for it. Where nobody does, it goes back to the end of its
    /// queue with one more retry counted, as long as its retries there are below
    /// `on_item_release_not_requested` (in the queue) or `retry_amount` (in the
    /// retry queue). Once they reach that, a job of the queue goes to the retry
    /// queue, its retries counted from zero, where `retry_queue.enable` is on, and
    /// otherwise to the failed jobs; a job of the retry queue goes to the failed jobs.
    pub fn release_next(&mut self, queues: &mut SharedQueues, failed: &mut FailedJobs, config: &QueueConfig) -> (result: Result<Release<S>, WorkerError>)
        requires
            old(queues).wf(),
        ensures
            ({
                let awaited = old(self).awaiting().dom();
                let name = old(self).name();
                let retry = old(self).retry_queue();
                let step = release_step(old(queues).queues(), retry, awaited, name, *config);
                let front = released_job(old(queues).queues(), retry, awaited, name, *config);
                &&& final(self).name() == name
                &&& final(self).stop_requested() == old(self).stop_requested()
                &&& final(queues).wf()
                &&& final(queues).accepts_new_entries() == old(queues).accepts_new_entries()
                &&& final(queues).queues() == queues_after_release(old(queues).queues(), retry, awaited, name, *config)
                &&& final(self).retry_queue() == retry_after_release(old(queues).queues(), retry, awaited, name, *config)
                &&& final(failed).failed_jobs_of(name) == failed_after_release(
                    old(queues).queues(), retry, awaited, name, *config, old(failed).failed_jobs_of(name))
                &&& forall|other: Seq<char>| other != name ==> #[trigger] final(failed).failed_jobs_of(other)
                    == old(failed).failed_jobs_of(other)
                &&& (old(queues).queues().dom().contains(name) && old(queues).queues()[name].len() > 0
                    && awaited.contains(old(queues).queues()[name][0].uuid)) ==> {
                    &&& final(failed).failed_jobs_of(name) == old(failed).failed_jobs_of(name)
                    &&& match result {
                        Ok(Release::Deliver { confirmation, job }) => job@ == old(queues).queues()[name][0]
                            && confirmation == old(self).awaiting()[job@.uuid],
                        _ => false,
                    }
                }
                &&& (old(queues).queues().dom().contains(name) && old(queues).queues()[name].len() == 0
                    && retry.len() > 0 && awaited.contains(retry[0].uuid)) ==> {
                    &&& final(failed).failed_jobs_of(name) == old(failed).failed_jobs_of(name)
                    &&& match result {
                        Ok(Release::Deliver { confirmation, job }) => job@ == retry[0]
                            && confirmation == old(self).awaiting()[job@.uuid],
                        _ => false,
                    }
                }
                &&& (result matches Ok(Release::Failed { uuid, .. }) ==> !awaited.contains(uuid))
                &&& match step {
                    ReleaseStep::NothingAwaited => result matches Ok(Release::NothingAwaited)
                        && final(self).awaiting() == old(self).awaiting(),
                    ReleaseStep::MissingQueue => final(self).awaiting() == old(self).awaiting() && match result {
                        Err(WorkerError::MainQueueNotFound { queue_name }) => queue_name@ == name,
                        _ => false,
                    },
                    ReleaseStep::QueueEmpty => result matches Ok(Release::QueueEmpty)
                        && final(self).awaiting() == old(self).awaiting(),
                    ReleaseStep::Deliver | ReleaseStep::DeliverRetried => {
                        &&& final(self).awaiting() == old(self).awaiting().remove(front.uuid)
                        &&& match result {
                            Ok(Release::Deliver { confirmation, job }) => job@ == front
                                && confirmation == old(self).awaiting()[front.uuid],
                            _ => false,
                        }
                    },
                    ReleaseStep::Requeue | ReleaseStep::RequeueRetried => final(self).awaiting() == old(self).awaiting()
                        && result == Ok::<Release<S>, WorkerError>(Release::Requeued { uuid: front.uuid }),
                    ReleaseStep::MoveToRetryQueue => final(self).awaiting() == old(self).awaiting()
                        && result == Ok::<Release<S>, WorkerError>(Release::MovedToRetryQueue { uuid: front.uuid }),
                    ReleaseStep::Fail | ReleaseStep::FailRetried => final(self).awaiting() == old(self).awaiting()
                        && match result {
                            Ok(Release::Failed { uuid, identifier }) => uuid == front.uuid
                                && identifier@ == front.identifier,
                            _ => false,
                        },
                }
            }),
    {
        let ghost before = queues.queues();
        let ghost retry_before = self.retry_queue();
        if self.awaiting_dequeue_confirmation_channels.is_empty() {
            return Ok(Release::NothingAwaited);
        }
        match queues.pop_job(&self.queue_name) {
            None => Err(WorkerError::MainQueueNotFound { queue_name: self.queue_name.clone() }),
            Some(Some(job)) => {
                let uuid = job.uuid();
                match self.awaiting_dequeue_confirmation_channels.remove(&uuid) {
                    Some(confirmation) => Ok(Release::Deliver { confirmation, job }),
                    None => {
                        if job.retry_count() < config.main_queue_retry.on_item_release_not_requested {
                            let job = job.with_retry();
                            let found = queues.push_job(&self.queue_name, job);
                            proof {
                                assert(found);
                                assert(before[self.name()].drop_first().push(retried(before[self.name()][0]))
                                    == queues.queues()[self.name()]);
                            }
                            Ok(Release::Requeued { uuid })
                        } else if config.retry_queue.enable {
                            let job = job.with_retries_reset();
                            let ghost view = job@;
                            self.retry_queue.push_back(job);
                            proof {
                                assert(self.retry_queue() =~= retry_before.push(view));
                            }
                            Ok(Release::MovedToRetryQueue { uuid })
                        } else {
                            let (_, identifier) = job.status_entry();
                            failed.insert_into_failed_jobs(self.queue_name.as_str(), job);
                            Ok(Release::Failed { uuid, identifier })
                        }
                    },
                }
            },
            Some(None) => {
                match self.retry_queue.pop_front() {
                    None => Ok(Release::QueueEmpty),
                    Some(job) => {
                        proof {
                            assert(self.retry_queue() =~= retry_before.drop_first());
                        }
                        let uuid = job.uuid();
                        match self.awaiting_dequeue_confirmation_channels.remove(&uuid) {
                            Some(confirmation) => Ok(Release::Deliver { confirmation, job }),
                            None => {
                                if job.retry_count() < config.retry_queue.retry_amount {
                                    let job = job.with_retry();
                                    let ghost view = job@;
                                    self.retry_queue.push_back(job);
                                    proof {
                                        assert(self.retry_queue() =~= retry_before.drop_first().push(view));
                                    }
                                    Ok(Release::Requeued { uuid })
                                } else {
                                    let (_, identifier) = job.status_entry();
                                    failed.insert_into_failed_jobs(self.queue_name.as_str(), job);
                                    Ok(Release::Failed { uuid, identifier })
                                }
                            },
                        }
                    },
                }
            },
        }
    }
}

} // verus!
